//! PCI slot identifiers (`domain:bus:number.function`) packed into one `u32`.

use std::cmp::Ordering;
use std::num::ParseIntError;
use vstd::std_specs::cmp::{PartialOrdSpec, PartialOrdSpecImpl};
use vstd::prelude::*;
use vstd::string::StrSliceExecFns;

use crate::text::{
    all_radix_digits, char_digit, chars_of, digits_value, free_of, is_radix_digit,
    lemma_split_chars_append_plain, lemma_split_chars_append_sep, parse_unsigned, split_chars,
    split_ranges, unsigned_body,
};

verus! {

/// Why a PCI slot could not be built or parsed.
#[derive(Debug, Clone, PartialEq, Eq)]
pub enum PciSlotError {
    /// The slot number was not below 32.
    NumberOutOfBounds(u8),
    /// The slot function was not below 8.
    FunctionOutOfBounds(u8),
    /// The text did not have the shape `domain:bus:number.function`.
    InvalidFormat,
    /// The domain was not a hexadecimal `u16`.
    ParseDomain(ParseIntError),
    /// The bus was not a hexadecimal `u8`.
    ParseBus(ParseIntError),
    /// The number was not a hexadecimal `u8`.
    ParseNumber(ParseIntError),
    /// The function was not a hexadecimal `u8`.
    ParseFunction(ParseIntError),
}

/// A PCI slot identifier packed into a single `u32`.
///
/// Layout: `[domain(16) | bus(8) | number(5) | function(3)]`
#[derive(Debug, Clone, Copy, Hash, PartialEq, Eq, Ord, Structural)]
pub struct PciSlot {
    data: u32,
}

/// The packed form of the four components.
pub open spec fn pack(domain: u16, bus: u8, number: u8, function: u8) -> u32 {
    ((domain as u32) << 16u32) | ((bus as u32) << 8u32) | ((number as u32) << 3u32) | (
    function as u32)
}

/// The hexadecimal digit for `d < 16`, lower case.
pub open spec fn hex_char(d: nat) -> char {
    if d < 10 {
        (48 + d) as char
    } else {
        (87 + d) as char
    }
}

/// The `width` lowest hexadecimal digits of `v`, lower case, most significant
/// first; for `v < 16^width` this is `format!("{:0width$x}", v)`.
pub open spec fn hex_fixed(v: nat, width: nat) -> Seq<char>
    decreases width,
{
    if width == 0 {
        Seq::empty()
    } else {
        hex_fixed(v / 16, (width - 1) as nat).push(hex_char(v % 16))
    }
}

/// The text form `dddd:bb:nn.f` of the four components.
pub open spec fn slot_text(domain: u16, bus: u8, number: u8, function: u8) -> Seq<char> {
    hex_fixed(domain as nat, 4) + seq![':'] + hex_fixed(bus as nat, 2) + seq![':'] + hex_fixed(
        number as nat,
        2,
    ) + seq!['.'] + hex_fixed(function as nat, 1)
}

/// A hexadecimal component of the text form, as `from_str_radix(_, 16)` reads
/// it, when its value is at most `max`.
pub open spec fn hex_component(s: Seq<char>, max: nat) -> Option<nat> {
    match parse_unsigned(s, 16) {
        Some(v) => if v <= max { Some(v) } else { None },
        None => None,
    }
}

/// The separators of the text form.
pub open spec fn slot_separators() -> Seq<char> {
    seq![':', '.']
}


/// The components that the text `s` denotes, when `s` is a valid slot text:
/// four hexadecimal components separated by `:`, `:` and `.` (either
/// separator is accepted at each place) with a number below 32 and a function
/// below 8.
pub open spec fn slot_text_components(s: Seq<char>) -> Option<(u16, u8, u8, u8)> {
    let parts = split_chars(s, slot_separators());
    if parts.len() == 4 {
        match (
            hex_component(parts[0], 0xffff),
            hex_component(parts[1], 0xff),
            hex_component(parts[2], 0xff),
            hex_component(parts[3], 0xff),
        ) {
            (Some(d), Some(b), Some(n), Some(f)) => if n <= 0x1f && f <= 7 {
                Some((d as u16, b as u8, n as u8, f as u8))
            } else {
                None
            },
            _ => None,
        }
    } else {
        None
    }
}

/// `16^w`.
pub open spec fn pow16(w: nat) -> nat
    decreases w,
{
    if w == 0 {
        1
    } else {
        16 * pow16((w - 1) as nat)
    }
}

proof fn lemma_hex_char(d: nat)
    requires
        d < 16,
    ensures
        char_digit(hex_char(d)) == d,
        hex_char(d) != ':' && hex_char(d) != '.' && hex_char(d) != '+',
{
}

/// The fixed-width hexadecimal text of a value that fits is a digit string
/// with that value and no separator.
proof fn lemma_hex_fixed(v: nat, w: nat)
    requires
        v < pow16(w),
    ensures
        hex_fixed(v, w).len() == w,
        all_radix_digits(hex_fixed(v, w), 16),
        digits_value(hex_fixed(v, w), 16) == v,
        free_of(hex_fixed(v, w), slot_separators()),
        w > 0 ==> hex_fixed(v, w)[0] != '+',
    decreases w,
{
    if w > 0 {
        let p = pow16((w - 1) as nat);
        assert(v / 16 < p) by (nonlinear_arith)
            requires
                v < 16 * p,
        ;
        lemma_hex_fixed(v / 16, (w - 1) as nat);
        lemma_hex_char(v % 16);
        let h = hex_fixed(v, w);
        let h0 = hex_fixed(v / 16, (w - 1) as nat);
        assert(h == h0.push(hex_char(v % 16)));
        assert(h.drop_last() =~= h0);
        assert forall|i: int| 0 <= i < h.len() implies #[trigger] is_radix_digit(h[i], 16) by {
            if i < h0.len() {
                assert(h[i] == h0[i]);
            }
        }
        assert forall|i: int| 0 <= i < h.len() implies !slot_separators().contains(#[trigger] h[i]) by {
            if i < h0.len() {
                assert(h[i] == h0[i]);
                assert(!slot_separators().contains(h0[i]));
            } else {
                assert(h[i] == hex_char(v % 16));
                if slot_separators().contains(h[i]) {
                    let k = choose|k: int| 0 <= k < 2 && slot_separators()[k] == h[i];
                    assert(k == 0 || k == 1);
                }
            }
        }
        if w > 1 {
            assert(h[0] == h0[0]);
        }
    }
}

proof fn lemma_hex_component(v: nat, w: nat, max: nat)
    requires
        v < pow16(w),
        w > 0,
        v <= max,
    ensures
        hex_component(hex_fixed(v, w), max) == Some(v),
{
    lemma_hex_fixed(v, w);
    assert(unsigned_body(hex_fixed(v, w)) == hex_fixed(v, w));
}

/// Parsing the text form of a slot gives back its components.
pub proof fn lemma_text_round_trip(slot: PciSlot)
    ensures
        slot_text_components(slot_text(slot@.0, slot@.1, slot@.2, slot@.3)) == Some(slot@),
{
    let (d, b, n, f) = slot@;
    lemma_view_in_range(slot);
    assert(pow16(4) == 65536 && pow16(2) == 256 && pow16(1) == 16) by {
        reveal_with_fuel(pow16, 5);
    }
    let hd = hex_fixed(d as nat, 4);
    let hb = hex_fixed(b as nat, 2);
    let hn = hex_fixed(n as nat, 2);
    let hf = hex_fixed(f as nat, 1);
    lemma_hex_fixed(d as nat, 4);
    lemma_hex_fixed(b as nat, 2);
    lemma_hex_fixed(n as nat, 2);
    lemma_hex_fixed(f as nat, 1);
    let seps = slot_separators();
    let e = Seq::<char>::empty();
    assert(seps.contains(':')) by {
        assert(seps[0] == ':');
    }
    assert(seps.contains('.')) by {
        assert(seps[1] == '.');
    }
    assert(split_chars(e, seps) == seq![e]);
    lemma_split_chars_append_plain(e, hd, seps);
    assert(e + hd =~= hd);
    assert(seq![e].update(0, e + hd) =~= seq![hd]);
    lemma_split_chars_append_sep(hd, ':', seps);
    let t1 = hd.push(':');
    lemma_split_chars_append_plain(t1, hb, seps);
    assert(seq![hd, e].update(1, e + hb) =~= seq![hd, hb]);
    let t2 = (t1 + hb).push(':');
    lemma_split_chars_append_sep(t1 + hb, ':', seps);
    lemma_split_chars_append_plain(t2, hn, seps);
    assert(seq![hd, hb, e].update(2, e + hn) =~= seq![hd, hb, hn]);
    let t3 = (t2 + hn).push('.');
    lemma_split_chars_append_sep(t2 + hn, '.', seps);
    lemma_split_chars_append_plain(t3, hf, seps);
    assert(seq![hd, hb, hn, e].update(3, e + hf) =~= seq![hd, hb, hn, hf]);
    assert(t3 + hf =~= slot_text(d, b, n, f));
    lemma_hex_component(d as nat, 4, 0xffff);
    lemma_hex_component(b as nat, 2, 0xff);
    lemma_hex_component(n as nat, 2, 0xff);
    lemma_hex_component(f as nat, 1, 0xff);
}


/// The slot with components `c`.
pub closed spec fn slot_from(c: (u16, u8, u8, u8)) -> PciSlot {
    PciSlot { data: pack(c.0, c.1, c.2, c.3) }
}

/// A slot built from components that a slot can hold has those components,
/// and it is the only slot that has them.
pub proof fn lemma_slot_from(c: (u16, u8, u8, u8), s: PciSlot)
    requires
        c.2 <= 0x1f,
        c.3 <= 7,
    ensures
        slot_from(c)@ == c,
        s@ == c ==> s == slot_from(c),
{
    lemma_pack_unpack(c.0, c.1, c.2, c.3);
    if s@ == c {
        lemma_view_injective(s, slot_from(c));
    }
}

/// Valid slot texts denote components that a slot can hold.
pub proof fn lemma_components_in_range(t: Seq<char>)
    ensures
        slot_text_components(t) matches Some(c) ==> c.2 <= 0x1f && c.3 <= 7,
{
}

impl View for PciSlot {
    /// `(domain, bus, number, function)`.
    type V = (u16, u8, u8, u8);

    closed spec fn view(&self) -> (u16, u8, u8, u8) {
        (
            ((self.data >> 16u32) & 0xffffu32) as u16,
            ((self.data >> 8u32) & 0xffu32) as u8,
            ((self.data >> 3u32) & 0x1fu32) as u8,
            (self.data & 0x7u32) as u8,
        )
    }
}

proof fn lemma_pack_unpack(domain: u16, bus: u8, number: u8, function: u8)
    requires
        number <= 0x1f,
        function <= 7,
    ensures
        ((pack(domain, bus, number, function) >> 16u32) & 0xffffu32) as u16 == domain,
        ((pack(domain, bus, number, function) >> 8u32) & 0xffu32) as u8 == bus,
        ((pack(domain, bus, number, function) >> 3u32) & 0x1fu32) as u8 == number,
        (pack(domain, bus, number, function) & 0x7u32) as u8 == function,
{
    let d = domain as u32;
    let b = bus as u32;
    let n = number as u32;
    let f = function as u32;
    assert((((d << 16u32) | (b << 8u32) | (n << 3u32) | f) >> 16u32) & 0xffffu32 == d)
        by (bit_vector)
        requires
            d <= 0xffff,
            b <= 0xff,
            n <= 0x1f,
            f <= 7,
    ;
    assert((((d << 16u32) | (b << 8u32) | (n << 3u32) | f) >> 8u32) & 0xffu32 == b)
        by (bit_vector)
        requires
            d <= 0xffff,
            b <= 0xff,
            n <= 0x1f,
            f <= 7,
    ;
    assert((((d << 16u32) | (b << 8u32) | (n << 3u32) | f) >> 3u32) & 0x1fu32 == n)
        by (bit_vector)
        requires
            d <= 0xffff,
            b <= 0xff,
            n <= 0x1f,
            f <= 7,
    ;
    assert(((d << 16u32) | (b << 8u32) | (n << 3u32) | f) & 0x7u32 == f) by (bit_vector)
        requires
            d <= 0xffff,
            b <= 0xff,
            n <= 0x1f,
            f <= 7,
    ;
}

/// Two slots with the same components are the same slot.
pub proof fn lemma_view_injective(a: PciSlot, b: PciSlot)
    requires
        a@ == b@,
    ensures
        a == b,
{
    let x = a.data;
    let y = b.data;
    assert(((x >> 16u32) & 0xffffu32) <= 0xffff) by (bit_vector);
    assert(((y >> 16u32) & 0xffffu32) <= 0xffff) by (bit_vector);
    assert(((x >> 8u32) & 0xffu32) <= 0xff) by (bit_vector);
    assert(((y >> 8u32) & 0xffu32) <= 0xff) by (bit_vector);
    assert(((x >> 3u32) & 0x1fu32) <= 0xff) by (bit_vector);
    assert(((y >> 3u32) & 0x1fu32) <= 0xff) by (bit_vector);
    assert((x & 0x7u32) <= 0xff) by (bit_vector);
    assert((y & 0x7u32) <= 0xff) by (bit_vector);
    assert(x == y) by (bit_vector)
        requires
            ((x >> 16u32) & 0xffffu32) == ((y >> 16u32) & 0xffffu32),
            ((x >> 8u32) & 0xffu32) == ((y >> 8u32) & 0xffu32),
            ((x >> 3u32) & 0x1fu32) == ((y >> 3u32) & 0x1fu32),
            (x & 0x7u32) == (y & 0x7u32),
    ;
}

/// Every slot has a number below 32 and a function below 8.
pub proof fn lemma_view_in_range(s: PciSlot)
    ensures
        s@.2 <= 0x1f,
        s@.3 <= 7,
{
    let x = s.data;
    assert((x >> 3u32) & 0x1fu32 <= 0x1f) by (bit_vector);
    assert(x & 0x7u32 <= 7) by (bit_vector);
}

/// Appends the `width` lowest hexadecimal digits of `v` to `out`.
fn push_hex_fixed(out: &mut String, v: u32, width: u32)
    ensures
        final(out)@ == old(out)@ + hex_fixed(v as nat, width as nat),
    decreases width,
{
    if width > 0 {
        push_hex_fixed(out, v / 16, width - 1);
        let d: u32 = v % 16;
        let c: char = if d < 10 {
            ((48 + d) as u8) as char
        } else {
            ((87 + d) as u8) as char
        };
        out.push(c);
        assert(final(out)@ =~= old(out)@ + hex_fixed(v as nat, width as nat));
    } else {
        assert(old(out)@ + hex_fixed(v as nat, width as nat) =~= old(out)@);
    }
}

impl PciSlot {
    /// Construct a [`PciSlot`], validating that `number < 32` and `function < 8`.
    pub fn try_new(domain: u16, bus: u8, number: u8, function: u8) -> (r: Result<
        Self,
        PciSlotError,
    >)
        ensures
            number > 0x1f ==> r == Err::<Self, PciSlotError>(
                PciSlotError::NumberOutOfBounds(number),
            ),
            number <= 0x1f && function > 7 ==> r == Err::<Self, PciSlotError>(
                PciSlotError::FunctionOutOfBounds(function),
            ),
            number <= 0x1f && function <= 7 ==> (r matches Ok(s) && s@ == (
                domain,
                bus,
                number,
                function,
            )),
    {
        if number > 0x1f {
            return Err(PciSlotError::NumberOutOfBounds(number));
        }
        if function > 0x7 {
            return Err(PciSlotError::FunctionOutOfBounds(function));
        }
        proof {
            lemma_pack_unpack(domain, bus, number, function);
        }
        Ok(
            Self {
                data: ((domain as u32) << 16u32) | ((bus as u32) << 8u32) | ((number as u32)
                    << 3u32) | (function as u32),
            },
        )
    }

    pub fn domain(self) -> (r: u16)
        ensures
            r == self@.0,
    {
        ((self.data >> 16u32) & 0xffffu32) as u16
    }

    pub fn bus(self) -> (r: u8)
        ensures
            r == self@.1,
    {
        ((self.data >> 8u32) & 0xffu32) as u8
    }

    pub fn number(self) -> (r: u8)
        ensures
            r == self@.2,
    {
        ((self.data >> 3u32) & 0x1fu32) as u8
    }

    pub fn function(self) -> (r: u8)
        ensures
            r == self@.3,
    {
        (self.data & 0x7u32) as u8
    }

    /// The text form `dddd:bb:nn.f`, all components in lower-case
    /// hexadecimal, zero-padded to 4, 2, 2 and 1 digits.
    pub fn to_string(&self) -> (r: String)
        ensures
            r@ == slot_text(self@.0, self@.1, self@.2, self@.3),
    {
        let mut out = String::new();
        push_hex_fixed(&mut out, self.domain() as u32, 4);
        out.push(':');
        push_hex_fixed(&mut out, self.bus() as u32, 2);
        out.push(':');
        push_hex_fixed(&mut out, self.number() as u32, 2);
        out.push('.');
        push_hex_fixed(&mut out, self.function() as u32, 1);
        assert(out@ =~= slot_text(self@.0, self@.1, self@.2, self@.3));
        out
    }

    /// Parse `"domain:bus:number.function"` (all components are hexadecimal).
    pub fn parse_str(s: &str) -> (r: Result<Self, PciSlotError>)
        ensures
            r is Ok <==> slot_text_components(s@) is Some,
            r matches Ok(slot) ==> slot_text_components(s@) == Some(slot@),
            ({
                let parts = split_chars(s@, slot_separators());
                &&& parts.len() != 4 ==> r == Err::<Self, PciSlotError>(
                    PciSlotError::InvalidFormat,
                )
                &&& parts.len() == 4 ==> {
                    let d = hex_component(parts[0], 0xffff);
                    let b = hex_component(parts[1], 0xff);
                    let n = hex_component(parts[2], 0xff);
                    let f = hex_component(parts[3], 0xff);
                    &&& d is None ==> (r matches Err(PciSlotError::ParseDomain(_)))
                    &&& d is Some && b is None ==> (r matches Err(PciSlotError::ParseBus(_)))
                    &&& d is Some && b is Some && n is None ==> (r matches Err(
                        PciSlotError::ParseNumber(_),
                    ))
                    &&& d is Some && b is Some && n is Some && f is None ==> (r matches Err(
                        PciSlotError::ParseFunction(_),
                    ))
                    &&& d is Some && b is Some && n is Some && f is Some ==> {
                        let (dv, bv, nv, fv) = (
                            d->0 as u16,
                            b->0 as u8,
                            n->0 as u8,
                            f->0 as u8,
                        );
                        &&& nv > 0x1f ==> r == Err::<Self, PciSlotError>(
                            PciSlotError::NumberOutOfBounds(nv),
                        )
                        &&& nv <= 0x1f && fv > 7 ==> r == Err::<Self, PciSlotError>(
                            PciSlotError::FunctionOutOfBounds(fv),
                        )
                        &&& nv <= 0x1f && fv <= 7 ==> (r matches Ok(slot) && slot@ == (
                            dv,
                            bv,
                            nv,
                            fv,
                        ))
                    }
                }
            }),
    {
        let cs = chars_of(s);
        let seps: [char; 2] = [':', '.'];
        assert(seps@ =~= slot_separators());
        let ranges = split_ranges(&cs, &seps);
        if ranges.len() != 4 {
            return Err(PciSlotError::InvalidFormat);
        }
        let p0 = s.substring_char(ranges[0].0, ranges[0].1);
        let p1 = s.substring_char(ranges[1].0, ranges[1].1);
        let p2 = s.substring_char(ranges[2].0, ranges[2].1);
        let p3 = s.substring_char(ranges[3].0, ranges[3].1);
        let domain = match u16::from_str_radix(p0, 16) {
            Ok(v) => v,
            Err(e) => return Err(PciSlotError::ParseDomain(e)),
        };
        let bus = match u8::from_str_radix(p1, 16) {
            Ok(v) => v,
            Err(e) => return Err(PciSlotError::ParseBus(e)),
        };
        let number = match u8::from_str_radix(p2, 16) {
            Ok(v) => v,
            Err(e) => return Err(PciSlotError::ParseNumber(e)),
        };
        let function = match u8::from_str_radix(p3, 16) {
            Ok(v) => v,
            Err(e) => return Err(PciSlotError::ParseFunction(e)),
        };
        Self::try_new(domain, bus, number, function)
    }
}


impl Default for PciSlot {
    /// The slot `0000:00:00.0`.
    fn default() -> (r: Self)
        ensures
            r@ == (0u16, 0u8, 0u8, 0u8),
    {
        let z: u32 = 0;
        assert((z >> 16u32) & 0xffffu32 == 0 && (z >> 8u32) & 0xffu32 == 0 && (z >> 3u32) & 0x1fu32
            == 0 && z & 0x7u32 == 0) by (bit_vector)
            requires
                z == 0,
        ;
        PciSlot { data: z }
    }
}

/// `r` is what parsing the text `s` as `domain:bus:number.function` gives:
/// `Ok` exactly for a valid text, and otherwise the error of the first part
/// that fails, in that order.
pub open spec fn parsed_as(s: Seq<char>, r: Result<PciSlot, PciSlotError>) -> bool {
    &&& r is Ok <==> slot_text_components(s) is Some
    &&& r matches Ok(slot) ==> slot_text_components(s) == Some(slot@)
    &&& ({
        let parts = split_chars(s, slot_separators());
        &&& parts.len() != 4 ==> r == Err::<PciSlot, PciSlotError>(PciSlotError::InvalidFormat)
        &&& parts.len() == 4 ==> {
            let d = hex_component(parts[0], 0xffff);
            let b = hex_component(parts[1], 0xff);
            let n = hex_component(parts[2], 0xff);
            let f = hex_component(parts[3], 0xff);
            &&& d is None ==> (r matches Err(PciSlotError::ParseDomain(_)))
            &&& d is Some && b is None ==> (r matches Err(PciSlotError::ParseBus(_)))
            &&& d is Some && b is Some && n is None ==> (r matches Err(PciSlotError::ParseNumber(_)))
            &&& d is Some && b is Some && n is Some && f is None ==> (r matches Err(
                PciSlotError::ParseFunction(_),
            ))
            &&& d is Some && b is Some && n is Some && f is Some ==> {
                let (dv, bv, nv, fv) = (d->0 as u16, b->0 as u8, n->0 as u8, f->0 as u8);
                &&& nv > 0x1f ==> r == Err::<PciSlot, PciSlotError>(
                    PciSlotError::NumberOutOfBounds(nv),
                )
                &&& nv <= 0x1f && fv > 7 ==> r == Err::<PciSlot, PciSlotError>(
                    PciSlotError::FunctionOutOfBounds(fv),
                )
                &&& nv <= 0x1f && fv <= 7 ==> (r matches Ok(slot) && slot@ == (dv, bv, nv, fv))
            }
        }
    })
}

impl std::str::FromStr for PciSlot {
    type Err = PciSlotError;

    /// Parses as [`PciSlot::parse_str`] does.
    fn from_str(s: &str) -> (r: Result<Self, Self::Err>)
        ensures
            parsed_as(s@, r),
    {
        PciSlot::parse_str(s)
    }
}

/// `p` comes before `q` in the order of their components: domain, then bus,
/// number and function.
pub open spec fn components_before(p: (u16, u8, u8, u8), q: (u16, u8, u8, u8)) -> bool {
    ||| p.0 < q.0
    ||| p.0 == q.0 && p.1 < q.1
    ||| p.0 == q.0 && p.1 == q.1 && p.2 < q.2
    ||| p.0 == q.0 && p.1 == q.1 && p.2 == q.2 && p.3 < q.3
}

/// The packed numbers order as the components do: the domain takes the
/// highest bits, then the bus, the number and the function.
proof fn lemma_packed_order(a: PciSlot, b: PciSlot)
    ensures
        (a.data < b.data) == components_before(a@, b@),
        (a.data == b.data) == (a@ == b@),
{
    let x = a.data;
    let y = b.data;
    assert((x < y) == (((x >> 16u32) & 0xffffu32) < ((y >> 16u32) & 0xffffu32) || (((x >> 16u32)
        & 0xffffu32) == ((y >> 16u32) & 0xffffu32) && ((x >> 8u32) & 0xffu32) < ((y >> 8u32)
        & 0xffu32)) || (((x >> 16u32) & 0xffffu32) == ((y >> 16u32) & 0xffffu32) && ((x >> 8u32)
        & 0xffu32) == ((y >> 8u32) & 0xffu32) && ((x >> 3u32) & 0x1fu32) < ((y >> 3u32)
        & 0x1fu32)) || (((x >> 16u32) & 0xffffu32) == ((y >> 16u32) & 0xffffu32) && ((x >> 8u32)
        & 0xffu32) == ((y >> 8u32) & 0xffu32) && ((x >> 3u32) & 0x1fu32) == ((y >> 3u32)
        & 0x1fu32) && (x & 0x7u32) < (y & 0x7u32)))) by (bit_vector);
    assert((x == y) == (((x >> 16u32) & 0xffffu32) == ((y >> 16u32) & 0xffffu32) && ((x >> 8u32)
        & 0xffu32) == ((y >> 8u32) & 0xffu32) && ((x >> 3u32) & 0x1fu32) == ((y >> 3u32)
        & 0x1fu32) && (x & 0x7u32) == (y & 0x7u32))) by (bit_vector);
    assert(((x >> 16u32) & 0xffffu32) <= 0xffff && ((y >> 16u32) & 0xffffu32) <= 0xffff
        && ((x >> 8u32) & 0xffu32) <= 0xff && ((y >> 8u32) & 0xffu32) <= 0xff && ((x >> 3u32)
        & 0x1fu32) <= 0x1f && ((y >> 3u32) & 0x1fu32) <= 0x1f && (x & 0x7u32) <= 7 && (y & 0x7u32)
        <= 7) by (bit_vector);
}

impl PartialOrd for PciSlot {
    /// Compares the packed numbers, which order as the components do.
    fn partial_cmp(&self, other: &Self) -> (r: Option<Ordering>) {
        proof {
            lemma_packed_order(*self, *other);
        }
        if self.data < other.data {
            Some(Ordering::Less)
        } else if self.data == other.data {
            Some(Ordering::Equal)
        } else {
            Some(Ordering::Greater)
        }
    }
}

impl PartialOrdSpecImpl for PciSlot {
    open spec fn obeys_partial_cmp_spec() -> bool {
        true
    }

    /// Slots order as their components do: domain, then bus, number and
    /// function.
    open spec fn partial_cmp_spec(&self, other: &Self) -> Option<Ordering> {
        PartialOrdSpec::partial_cmp_spec(&self@, &other@)
    }
}

/// Slots order as their components do, domain first, then bus, number and
/// function; they are equal exactly when their components are.
pub proof fn lemma_slot_order(a: PciSlot, b: PciSlot)
    ensures
        PartialOrdSpec::partial_cmp_spec(&a, &b) == Some(
            if components_before(a@, b@) {
                Ordering::Less
            } else if a@ == b@ {
                Ordering::Equal
            } else {
                Ordering::Greater
            },
        ),
        PartialOrdSpec::partial_cmp_spec(&a, &b) == PartialOrdSpec::partial_cmp_spec(&a@, &b@),
        (a == b) == (a@ == b@),
{
    lemma_packed_order(a, b);
}

} // verus!
