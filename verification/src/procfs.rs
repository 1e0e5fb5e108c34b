//! Parsers for the text that procfs hands out per process.

use vstd::prelude::*;
use vstd::string::StrSliceExecFns;
use vstd::utf8::{
    decode_utf8, encode_scalar, encode_utf8, encode_utf8_decode_utf8, encode_utf8_valid_utf8,
    has_width_1_encoding, has_width_2_encoding, has_width_3_encoding, is_scalar, valid_utf8,
};
use vstd::string::StringSliceAdditionalSpecFns;

use crate::pattern::{capture_group, capture_named, regex_group, regex_named_group};
use crate::text::{
    chars_of, char_digit, is_radix_digit, parse_unsigned_in, parse_unsigned_max, split_chars,
    split_ranges,
};

verus! {

/// `Uid:` line of `/proc/<pid>/status`; group 1 is the real UID.
pub const UID_PATTERN: &'static str = r"Uid:\s*(\d+)";

/// `Cpus_allowed:` line of `/proc/<pid>/status`; group 1 is the hex mask,
/// all its comma-separated 32-bit words.
pub const AFFINITY_PATTERN: &'static str = r"Cpus_allowed:\s*([0-9A-Fa-f,]+)";

/// `VmRSS:` line of `/proc/<pid>/status`; group 1 is the size in kB.
pub const MEMORY_PATTERN: &'static str = r"VmRSS:\s*([0-9]+)\s*kB";

/// `VmSwap:` line of `/proc/<pid>/status`; group 1 is the size in kB.
pub const SWAP_PATTERN: &'static str = r"VmSwap:\s*([0-9]+)\s*kB";

/// Scope or service name of an app in `/proc/<pid>/cgroup`, with the named
/// groups `launcher` and `cgroup`.
pub const CGROUP_PATTERN: &'static str =
    r"(?U)/(?:app|background)\.slice/(?:app-|dbus-:)(?:(?P<launcher>[^-]+)-)?(?P<cgroup>[^-]+)(?:-[0-9]+|@[0-9]+)?\.(?:scope|service)";

/// `read_bytes:` line of `/proc/<pid>/io`; group 1 is the count.
pub const READ_PATTERN: &'static str = r"read_bytes:\s*(\d+)";

/// `write_bytes:` line of `/proc/<pid>/io`; group 1 is the count.
pub const WRITE_PATTERN: &'static str = r"write_bytes:\s*(\d+)";

/// Why a procfs text could not be parsed.
#[derive(Debug, Clone, Copy, PartialEq, Eq, Structural)]
pub enum ProcfsError {
    /// `uid: parse error`: the UID in the status text is not a `u32`.
    UidParse,
    /// `stat: missing closing ')'`.
    StatMissingParen,
}

/// The value of group 1 of `pattern` in `text`, read as a `u64` by
/// `str::parse`.
pub open spec fn captured_u64(pattern: Seq<char>, text: Seq<char>, max: nat) -> Option<nat> {
    match regex_group(pattern, text, 1) {
        Some(c) => parse_unsigned_max(c, max),
        None => None,
    }
}

/// The count that a captured number gives: `None` without a capture or when
/// it is not a `u64`.
pub fn count_from_capture(capture: Option<&str>) -> (r: Option<u64>)
    ensures
        r == (match capture {
            Some(c) => match parse_unsigned_max(c@, u64::MAX as nat) {
                Some(v) => Some(v as u64),
                None => None,
            },
            None => None,
        }),
{
    match capture {
        Some(c) => {
            let cs = chars_of(c);
            assert(cs@.subrange(0, cs@.len() as int) =~= c@);
            parse_unsigned_in(&cs, 0, cs.len(), u64::MAX)
        },
        None => None,
    }
}

fn parse_field(io: &str, pattern: &str) -> (r: Option<u64>)
    ensures
        r == (match captured_u64(pattern@, io@, u64::MAX as nat) {
            Some(v) => Some(v as u64),
            None => None,
        }),
{
    match capture_group(pattern, io, 1) {
        Some(c) => count_from_capture(Some(c.as_str())),
        None => None,
    }
}

/// Bytes read from storage, from the content of `/proc/<pid>/io`.
pub fn parse_read_bytes(io: &str) -> (r: Option<u64>)
    ensures
        r == (match captured_u64(READ_PATTERN@, io@, u64::MAX as nat) {
            Some(v) => Some(v as u64),
            None => None,
        }),
{
    parse_field(io, READ_PATTERN)
}

/// Bytes written to storage, from the content of `/proc/<pid>/io`.
pub fn parse_write_bytes(io: &str) -> (r: Option<u64>)
    ensures
        r == (match captured_u64(WRITE_PATTERN@, io@, u64::MAX as nat) {
            Some(v) => Some(v as u64),
            None => None,
        }),
{
    parse_field(io, WRITE_PATTERN)
}

/// Parse the real UID from `/proc/<pid>/status`: 0 when there is no `Uid:`
/// line, an error when its number is not a `u32`.
pub fn parse_uid(status: &str) -> (r: Result<u32, ProcfsError>)
    ensures
        regex_group(UID_PATTERN@, status@, 1) is None ==> r == Ok::<u32, ProcfsError>(0),
        regex_group(UID_PATTERN@, status@, 1) matches Some(c) ==> r == (match parse_unsigned_max(
            c,
            u32::MAX as nat,
        ) {
            Some(v) => Ok::<u32, ProcfsError>(v as u32),
            None => Err(ProcfsError::UidParse),
        }),
{
    match capture_group(UID_PATTERN, status, 1) {
        Some(c) => uid_from_capture(Some(c.as_str())),
        None => uid_from_capture(None),
    }
}

/// The UID that a captured number gives: 0 without a capture, an error when
/// it is not a `u32`.
pub fn uid_from_capture(capture: Option<&str>) -> (r: Result<u32, ProcfsError>)
    ensures
        capture is None ==> r == Ok::<u32, ProcfsError>(0),
        capture matches Some(c) ==> r == (match parse_unsigned_max(c@, u32::MAX as nat) {
            Some(v) => Ok::<u32, ProcfsError>(v as u32),
            None => Err(ProcfsError::UidParse),
        }),
{
    match capture {
        Some(c) => {
            let cs = chars_of(c);
            assert(cs@.subrange(0, cs@.len() as int) =~= c@);
            match parse_unsigned_in(&cs, 0, cs.len(), u32::MAX as u64) {
                Some(v) => Ok(v as u32),
                None => Err(ProcfsError::UidParse),
            }
        },
        None => Ok(0),
    }
}

/// The four bits of the nibble `d`, lowest first.
pub open spec fn nibble_bits(d: nat) -> Seq<bool> {
    seq![d % 2 == 1, (d / 2) % 2 == 1, (d / 4) % 2 == 1, (d / 8) % 2 == 1]
}

/// The CPU bits of a hexadecimal mask, CPU 0 first: the bits of the last
/// hexadecimal digit, lowest first, then those of the digit before it, and so
/// on; characters that are not hexadecimal digits are skipped.
pub open spec fn mask_bits(hex: Seq<char>) -> Seq<bool>
    decreases hex.len(),
{
    if hex.len() == 0 {
        Seq::empty()
    } else {
        let rest = mask_bits(hex.drop_first());
        if is_radix_digit(hex[0], 16) {
            rest + nibble_bits(char_digit(hex[0]))
        } else {
            rest
        }
    }
}

/// The mask's bits, cut off after `num_cpus` of them.
pub open spec fn mask_prefix(hex: Seq<char>, num_cpus: nat) -> Seq<bool> {
    let bits = mask_bits(hex);
    if bits.len() <= num_cpus {
        bits
    } else {
        bits.take(num_cpus as int)
    }
}

/// The affinity list for `num_cpus` CPUs read from the mask `hex`: one item
/// per CPU, set when the mask has a set bit for it.
pub open spec fn affinity_of(hex: Seq<char>, num_cpus: nat) -> Seq<bool> {
    let bits = mask_bits(hex);
    Seq::new(num_cpus, |i: int| i < bits.len() && bits[i])
}

/// The affinity list for `num_cpus` CPUs from the hexadecimal mask `hex`:
/// exactly `num_cpus` items, CPU `i` set when bit `i` of the mask is.
pub fn affinity_from_mask(hex: &str, num_cpus: usize) -> (r: Vec<bool>)
    ensures
        r@ == affinity_of(hex@, num_cpus as nat),
        r@.len() == num_cpus,
{
    let mut out = mask_prefix_of(hex, num_cpus);
    let ghost bits = mask_bits(hex@);
    assert(out@.len() <= bits.len());
    while out.len() < num_cpus
        invariant
            out@.len() <= num_cpus,
            bits == mask_bits(hex@),
            mask_prefix(hex@, num_cpus as nat).len() <= out@.len(),
            mask_prefix(hex@, num_cpus as nat).len() == bits.len() || mask_prefix(
                hex@,
                num_cpus as nat,
            ).len() == num_cpus,
            forall|i: int| 0 <= i < out@.len() ==> #[trigger] out@[i] == (i < bits.len() && bits[i]),
        decreases num_cpus - out.len(),
    {
        let ghost before = out@;
        assert(before.len() >= bits.len());
        out.push(false);
        assert(out@ == before.push(false));
        assert forall|i: int| 0 <= i < out@.len() implies out@[i] == (i < bits.len() && bits[i]) by {
            if i < before.len() {
                assert(out@[i] == before[i]);
                assert(before[i] == (i < bits.len() && bits[i]));
            } else {
                assert(i == before.len());
                assert(out@[i] == false);
                assert(!(i < bits.len()));
            }
        }
    }
    assert(out@ =~= affinity_of(hex@, num_cpus as nat));
    out
}

/// The mask's bits from the hexadecimal mask `hex`, at most `num_cpus` of them.
fn mask_prefix_of(hex: &str, num_cpus: usize) -> (r: Vec<bool>)
    ensures
        r@ == mask_prefix(hex@, num_cpus as nat),
        forall|i: int| 0 <= i < r@.len() ==> r@[i] == mask_bits(hex@)[i],
{
    let cs = chars_of(hex);
    let n = cs.len();
    let mut out: Vec<bool> = Vec::new();
    let mut i: usize = n;
    while i > 0
        invariant
            i <= n == cs@.len(),
            cs@ == hex@,
            out@ == mask_prefix(cs@.subrange(i as int, n as int), num_cpus as nat),
        decreases i,
    {
        let ghost suffix = cs@.subrange(i as int, n as int);
        let ghost longer = cs@.subrange(i - 1, n as int);
        assert(longer.drop_first() =~= suffix);
        assert(longer[0] == cs@[i - 1]);
        let ghost before = out@;
        match crate::text::digit_of(cs[i - 1], 16) {
            Some(nibble) => {
                let ghost bits = nibble_bits(nibble as nat);
                let ghost all = mask_bits(suffix) + bits;
                assert(mask_bits(longer) == all);
                let mut bit: u32 = 0;
                let mut rest: u32 = nibble;
                while bit < 4
                    invariant
                        bit <= 4,
                        nibble < 16,
                        bits == nibble_bits(nibble as nat),
                        all == mask_bits(suffix) + bits,
                        before == mask_prefix(suffix, num_cpus as nat),
                        rest as nat == (nibble as nat) / (if bit == 0 {
                            1nat
                        } else if bit == 1 {
                            2nat
                        } else if bit == 2 {
                            4nat
                        } else if bit == 3 {
                            8nat
                        } else {
                            16nat
                        }),
                        out@ == (if all.take(mask_bits(suffix).len() + bit).len() <= num_cpus {
                            all.take(mask_bits(suffix).len() + bit)
                        } else {
                            all.take(num_cpus as int)
                        }),
                    decreases 4 - bit,
                {
                    let ghost k = mask_bits(suffix).len() + bit;
                    assert(all.take(k + 1) =~= all.take(k).push(all[k]));
                    assert(all[k] == bits[bit as int]);
                    if out.len() < num_cpus {
                        out.push(rest % 2 == 1);
                    }
                    rest = rest / 2;
                    bit = bit + 1;
                }
                assert(all.take(mask_bits(suffix).len() + 4int) =~= all);
            },
            None => {
                assert(mask_bits(longer) == mask_bits(suffix));
            },
        }
        i = i - 1;
    }
    assert(cs@.subrange(0, n as int) =~= hex@);
    assert(forall|i: int| 0 <= i < out@.len() ==> out@[i] == mask_bits(hex@)[i]);
    out
}

/// Parse `Cpus_allowed` into a `Vec<bool>` of length `num_cpus`; without a
/// mask no CPU is set.
pub fn parse_affinity(status: &str, num_cpus: usize) -> (r: Vec<bool>)
    ensures
        r@ == affinity_of(
            match regex_group(AFFINITY_PATTERN@, status@, 1) {
                Some(c) => c,
                None => Seq::empty(),
            },
            num_cpus as nat,
        ),
{
    match capture_group(AFFINITY_PATTERN, status, 1) {
        Some(c) => affinity_from_mask(c.as_str(), num_cpus),
        None => {
            let r = affinity_from_mask("", num_cpus);
            proof {
                reveal_strlit("");
            }
            r
        },
    }
}

/// `v * 1024`, or `max` when that is larger.
pub open spec fn kb_to_bytes(v: nat, max: nat) -> nat {
    if v * 1024 <= max {
        v * 1024
    } else {
        max
    }
}

/// The size in bytes of a `... kB` line matched by `pattern`: 0 when there is
/// no such line or its number is not a `usize`.
pub open spec fn captured_kb_as_bytes(pattern: Seq<char>, text: Seq<char>) -> nat {
    kb_to_bytes(
        match captured_u64(pattern, text, usize::MAX as nat) {
            Some(v) => v,
            None => 0,
        },
        usize::MAX as nat,
    )
}

/// The size in bytes that a captured number of kB gives: 0 without a
/// capture or when it is not a `usize`, saturating at `usize::MAX`.
pub fn bytes_from_kb_capture(capture: Option<&str>) -> (r: usize)
    ensures
        r as nat == kb_to_bytes(
            match capture {
                Some(c) => match parse_unsigned_max(c@, usize::MAX as nat) {
                    Some(v) => v,
                    None => 0,
                },
                None => 0,
            },
            usize::MAX as nat,
        ),
{
    let kb: usize = match capture {
        Some(c) => {
            let cs = chars_of(c);
            assert(cs@.subrange(0, cs@.len() as int) =~= c@);
            match parse_unsigned_in(&cs, 0, cs.len(), usize::MAX as u64) {
                Some(v) => v as usize,
                None => 0,
            }
        },
        None => 0,
    };
    match kb.checked_mul(1024) {
        Some(v) => v,
        None => usize::MAX,
    }
}

fn parse_kb(status: &str, pattern: &str) -> (r: usize)
    ensures
        r as nat == captured_kb_as_bytes(pattern@, status@),
{
    match capture_group(pattern, status, 1) {
        Some(c) => bytes_from_kb_capture(Some(c.as_str())),
        None => bytes_from_kb_capture(None),
    }
}

/// Parse `VmRSS` in bytes (kB → bytes).
pub fn parse_memory_usage(status: &str) -> (r: usize)
    ensures
        r as nat == captured_kb_as_bytes(MEMORY_PATTERN@, status@),
{
    parse_kb(status, MEMORY_PATTERN)
}

/// Parse `VmSwap` in bytes (kB → bytes).
pub fn parse_swap_usage(status: &str) -> (r: usize)
    ensures
        r as nat == captured_kb_as_bytes(SWAP_PATTERN@, status@),
{
    parse_kb(status, SWAP_PATTERN)
}

/// The fields of a `/proc/<pid>/stat` text after the command name: the text
/// after the last `)` (all of it when there is none), split at spaces, without
/// the first (empty) piece.
pub open spec fn stat_fields(raw: Seq<char>) -> Seq<Seq<char>> {
    split_chars(split_chars(raw, seq![')']).last(), seq![' ']).drop_first()
}

/// The fields of `/proc/<pid>/stat` that follow the command name.
pub fn parse_stat(raw: &str) -> (r: Result<Vec<&str>, ProcfsError>)
    ensures
        r matches Ok(v) && v@.len() == stat_fields(raw@).len() && forall|i: int|
            0 <= i < v@.len() ==> #[trigger] v@[i]@ == stat_fields(raw@)[i],
{
    let cs = chars_of(raw);
    let parens: [char; 1] = [')'];
    assert(parens@ =~= seq![')']);
    let pieces = split_ranges(&cs, &parens);
    proof {
        crate::text::lemma_split_chars_nonempty(cs@, parens@);
    }
    if pieces.len() == 0 {
        return Err(ProcfsError::StatMissingParen);
    }
    let (start, end) = pieces[pieces.len() - 1];
    let after_comm = raw.substring_char(start, end);
    let tail = chars_of(after_comm);
    let spaces: [char; 1] = [' '];
    assert(spaces@ =~= seq![' ']);
    let ranges = split_ranges(&tail, &spaces);
    proof {
        crate::text::lemma_split_chars_nonempty(tail@, spaces@);
    }
    let mut out: Vec<&str> = Vec::new();
    let mut j: usize = 1;
    while j < ranges.len()
        invariant
            1 <= j <= ranges@.len(),
            ranges@.len() == split_chars(tail@, seq![' ']).len(),
            tail@ == after_comm@,
            after_comm@ == stat_fields_source(raw@),
            forall|k: int|
                #![trigger ranges@[k]]
                0 <= k < ranges@.len() ==> ranges@[k].0 <= ranges@[k].1 <= tail@.len()
                    && tail@.subrange(ranges@[k].0 as int, ranges@[k].1 as int) == split_chars(
                    tail@,
                    seq![' '],
                )[k],
            out@.len() == j - 1,
            forall|i: int|
                0 <= i < out@.len() ==> #[trigger] out@[i]@ == split_chars(tail@, seq![' '])[i
                    + 1],
        decreases ranges.len() - j,
    {
        let (a, b) = ranges[j];
        out.push(after_comm.substring_char(a, b));
        j = j + 1;
    }
    Ok(out)
}

/// The text after the last `)` of a stat text.
pub open spec fn stat_fields_source(raw: Seq<char>) -> Seq<char> {
    split_chars(raw, seq![')']).last()
}


/// The value of the hexadecimal digit byte `b`.
pub open spec fn hex_byte(b: u8) -> Option<u8> {
    if 48 <= b <= 57 {
        Some((b - 48) as u8)
    } else if 97 <= b <= 102 {
        Some((b - 87) as u8)
    } else if 65 <= b <= 70 {
        Some((b - 55) as u8)
    } else {
        None
    }
}

/// `b` with every `\xNN` escape (`NN` two hexadecimal digits) replaced by the
/// byte `0xNN`; `None` when a `\x` with three bytes after the backslash is
/// not followed by two hexadecimal digits.
pub open spec fn unescape(b: Seq<u8>) -> Option<Seq<u8>>
    decreases b.len(),
{
    if b.len() == 0 {
        Some(Seq::empty())
    } else if b[0] == 92 && b.len() > 3 && b[1] == 120 {
        match (hex_byte(b[2]), hex_byte(b[3])) {
            (Some(h), Some(l)) => match unescape(b.skip(4)) {
                Some(r) => Some(seq![(h * 16 + l) as u8] + r),
                None => None,
            },
            _ => None,
        }
    } else {
        match unescape(b.drop_first()) {
            Some(r) => Some(seq![b[0]] + r),
            None => None,
        }
    }
}

/// The text `s` with its `\xNN` escapes decoded, when the result is valid
/// UTF-8.
pub open spec fn unescaped_text(s: Seq<char>) -> Option<Seq<char>> {
    match unescape(encode_utf8(s)) {
        Some(o) => if valid_utf8(o) {
            Some(decode_utf8(o))
        } else {
            None
        },
        None => None,
    }
}

spec fn prefixed(p: Seq<u8>, o: Option<Seq<u8>>) -> Option<Seq<u8>> {
    match o {
        Some(r) => Some(p + r),
        None => None,
    }
}

fn from_hex(b: u8) -> (r: Option<u8>)
    ensures
        r == hex_byte(b),
{
    if 48 <= b && b <= 57 {
        Some(b - 48)
    } else if 97 <= b && b <= 102 {
        Some(b - 87)
    } else if 65 <= b && b <= 70 {
        Some(b - 55)
    } else {
        None
    }
}

/// Decode `\xNN` escape sequences embedded in cgroup names.
///
/// Some applications (e.g. Mullvad) use this encoding to include `-` in their
/// cgroup name even though that character is not normally valid there.
pub fn decode_hex_escapes(s: &str) -> (r: Result<String, ()>)
    ensures
        r is Ok <==> unescaped_text(s@) is Some,
        r matches Ok(t) ==> unescaped_text(s@) == Some(t@),
{
    let bytes = s.as_bytes();
    let ghost b = bytes@;
    assert(b == encode_utf8(s@));
    let mut out: Vec<u8> = Vec::new();
    let mut i: usize = 0;
    assert(b.skip(0) =~= b);
    assert(prefixed(out@, unescape(b.skip(0))) =~= unescape(b)) by {
        match unescape(b) {
            Some(r) => assert(Seq::<u8>::empty() + r =~= r),
            None => {},
        }
    }
    while i < bytes.len()
        invariant
            i <= b.len(),
            bytes@ == b,
            b == encode_utf8(s@),
            unescape(b) == prefixed(out@, unescape(b.skip(i as int))),
        decreases b.len() - i,
    {
        let ghost rest = b.skip(i as int);
        if bytes[i] == 92 && bytes.len() - i > 3 && bytes[i + 1] == 120 {
            assert(rest[0] == 92 && rest.len() > 3 && rest[1] == 120);
            assert(rest[2] == bytes@[i + 2] && rest[3] == bytes@[i + 3]);
            let hi = match from_hex(bytes[i + 2]) {
                Some(h) => h,
                None => {
                    assert(unescape(rest) is None);
                    assert(unescape(b) is None);
                    return Err(());
                },
            };
            let lo = match from_hex(bytes[i + 3]) {
                Some(l) => l,
                None => {
                    assert(unescape(rest) is None);
                    assert(unescape(b) is None);
                    return Err(());
                },
            };
            let val: u8 = hi * 16 + lo;
            assert(rest.skip(4) =~= b.skip(i + 4));
            let ghost before = out@;
            out.push(val);
            proof {
                match unescape(b.skip(i + 4)) {
                    Some(r2) => assert(before + (seq![val] + r2) =~= out@ + r2),
                    None => {},
                }
            }
            i = i + 4;
        } else {
            assert(rest.drop_first() =~= b.skip(i + 1));
            let ghost before = out@;
            out.push(bytes[i]);
            proof {
                match unescape(b.skip(i + 1)) {
                    Some(r2) => assert(before + (seq![b[i as int]] + r2) =~= out@ + r2),
                    None => {},
                }
            }
            i = i + 1;
        }
    }
    assert(b.skip(i as int) =~= Seq::<u8>::empty());
    assert(out@ + Seq::<u8>::empty() =~= out@);
    match String::from_utf8(out) {
        Ok(t) => Ok(t),
        Err(_) => Err(()),
    }
}


/// The UTF-8 encoding of a character other than `\` holds no `\` byte.
proof fn lemma_scalar_no_backslash(c: u32)
    requires
        is_scalar(c),
        c != 92,
    ensures
        !encode_scalar(c).contains(92u8),
{
    let e = encode_scalar(c);
    if has_width_1_encoding(c) {
        assert(((c & 0x7F) as u8) != 92u8) by (bit_vector)
            requires
                c <= 0x7F,
                c != 92,
        ;
        assert(e[0] != 92u8);
    } else {
        assert forall|x: u32| ((0x80u8 | (x & 0x3F) as u8) != 92u8) by {
            assert((0x80u8 | (x & 0x3F) as u8) != 92u8) by (bit_vector);
        }
        assert forall|x: u32| ((0x80u8 | ((x >> 6u32) & 0x3F) as u8) != 92u8) by {
            assert((0x80u8 | ((x >> 6u32) & 0x3F) as u8) != 92u8) by (bit_vector);
        }
        assert forall|x: u32| ((0x80u8 | ((x >> 12u32) & 0x3F) as u8) != 92u8) by {
            assert((0x80u8 | ((x >> 12u32) & 0x3F) as u8) != 92u8) by (bit_vector);
        }
        assert forall|x: u32| ((0xC0u8 | ((x >> 6u32) & 0x1F) as u8) != 92u8) by {
            assert((0xC0u8 | ((x >> 6u32) & 0x1F) as u8) != 92u8) by (bit_vector);
        }
        assert forall|x: u32| ((0xE0u8 | ((x >> 12u32) & 0x0F) as u8) != 92u8) by {
            assert((0xE0u8 | ((x >> 12u32) & 0x0F) as u8) != 92u8) by (bit_vector);
        }
        assert forall|x: u32| ((0xF0u8 | ((x >> 18u32) & 0x7) as u8) != 92u8) by {
            assert((0xF0u8 | ((x >> 18u32) & 0x7) as u8) != 92u8) by (bit_vector);
        }
        assert forall|i: int| 0 <= i < e.len() implies e[i] != 92u8 by {
            if has_width_2_encoding(c) {
            } else if has_width_3_encoding(c) {
            } else {
            }
        }
    }
}

/// The UTF-8 encoding of a text without `\` holds no `\` byte.
proof fn lemma_encode_no_backslash(s: Seq<char>)
    requires
        !s.contains('\\'),
    ensures
        !encode_utf8(s).contains(92u8),
    decreases s.len(),
{
    if s.len() > 0 {
        let rest = s.drop_first();
        assert(!rest.contains('\\')) by {
            if rest.contains('\\') {
                let i = choose|i: int| 0 <= i < rest.len() && rest[i] == '\\';
                assert(s[i + 1] == '\\');
            }
        }
        lemma_encode_no_backslash(rest);
        vstd::utf8::char_is_scalar(s[0]);
        assert(s[0] as u32 != 92) by {
            assert(s[0] != '\\');
            vstd::utf8::char_u32_cast(s[0], s[0] as u32);
        }
        lemma_scalar_no_backslash(s[0] as u32);
        let a = encode_scalar(s[0] as u32);
        let b = encode_utf8(rest);
        assert forall|i: int| 0 <= i < (a + b).len() implies (a + b)[i] != 92u8 by {
            if i < a.len() {
                assert((a + b)[i] == a[i]);
            } else {
                assert((a + b)[i] == b[i - a.len()]);
            }
        }
    }
}

/// Bytes without `\` hold no escape.
proof fn lemma_unescape_plain(b: Seq<u8>)
    requires
        !b.contains(92u8),
    ensures
        unescape(b) == Some(b),
    decreases b.len(),
{
    if b.len() > 0 {
        let rest = b.drop_first();
        assert(!rest.contains(92u8)) by {
            if rest.contains(92u8) {
                let i = choose|i: int| 0 <= i < rest.len() && rest[i] == 92u8;
                assert(b[i + 1] == 92u8);
            }
        }
        lemma_unescape_plain(rest);
        assert(b[0] != 92u8);
        assert(seq![b[0]] + rest =~= b);
    }
}

/// A name without backslashes is decoded to itself.
pub proof fn lemma_unescaped_plain_text(s: Seq<char>)
    requires
        !s.contains('\\'),
    ensures
        unescaped_text(s) == Some(s),
{
    lemma_encode_no_backslash(s);
    lemma_unescape_plain(encode_utf8(s));
    encode_utf8_valid_utf8(s);
    encode_utf8_decode_utf8(s);
}

/// The launcher or app part of a cgroup text: the named group of the cgroup
/// pattern, with its escapes decoded.
pub open spec fn cgroup_part(raw: Seq<char>, name: Seq<char>) -> Option<Seq<char>> {
    match regex_named_group(CGROUP_PATTERN@, raw, name) {
        Some(c) => unescaped_text(c),
        None => None,
    }
}

/// Extract `(launcher, app_id)` from the content of `/proc/<pid>/cgroup`.
///
/// Returns `(None, None)` if the cgroup doesn't match the expected format.
pub fn sanitize(raw: &str) -> (r: (Option<String>, Option<String>))
    ensures
        r.0 is Some <==> cgroup_part(raw@, "launcher"@) is Some,
        r.0 matches Some(t) ==> cgroup_part(raw@, "launcher"@) == Some(t@),
        r.1 is Some <==> cgroup_part(raw@, "cgroup"@) is Some,
        r.1 matches Some(t) ==> cgroup_part(raw@, "cgroup"@) == Some(t@),
{
    let launcher = match capture_named(CGROUP_PATTERN, raw, "launcher") {
        Some(c) => decode_hex_escapes(c.as_str()).ok(),
        None => None,
    };
    let cgroup = match capture_named(CGROUP_PATTERN, raw, "cgroup") {
        Some(c) => decode_hex_escapes(c.as_str()).ok(),
        None => None,
    };
    (launcher, cgroup)
}

} // verus!
