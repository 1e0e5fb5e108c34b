//! Character-level specifications and helpers shared by the parsers:
//! digit classes, the value of a run of digits, the integer syntax that
//! `str::parse` and `from_str_radix` accept, and separator splitting.

use vstd::prelude::*;

verus! {

/// Value of `c` read as a digit in bases up to 36 (`0-9`, then `a-z` or
/// `A-Z` for 10..35); 36 for every other character, which is a digit in no base.
pub open spec fn char_digit(c: char) -> nat {
    let u = c as u32;
    if 48 <= u <= 57 {
        (u - 48) as nat
    } else if 97 <= u <= 122 {
        (u - 97 + 10) as nat
    } else if 65 <= u <= 90 {
        (u - 65 + 10) as nat
    } else {
        36
    }
}

/// `c` is a digit of base `radix`.
pub open spec fn is_radix_digit(c: char, radix: nat) -> bool {
    char_digit(c) < radix
}

/// Every character of `s` is a digit of base `radix`.
pub open spec fn all_radix_digits(s: Seq<char>, radix: nat) -> bool {
    forall|i: int| 0 <= i < s.len() ==> #[trigger] is_radix_digit(s[i], radix)
}

/// Value of the digit string `s` in base `radix`, most significant digit first.
pub open spec fn digits_value(s: Seq<char>, radix: nat) -> nat
    decreases s.len(),
{
    if s.len() == 0 {
        0
    } else {
        digits_value(s.drop_last(), radix) * radix + char_digit(s.last())
    }
}

/// The digits of an unsigned number: `s` without one leading `+`.
pub open spec fn unsigned_body(s: Seq<char>) -> Seq<char> {
    if s.len() > 0 && s[0] == '+' {
        s.drop_first()
    } else {
        s
    }
}

/// What `from_str_radix` of an unsigned type reads from `s`, before its range
/// check: an optional `+` followed by one or more digits of base `radix`.
pub open spec fn parse_unsigned(s: Seq<char>, radix: nat) -> Option<nat> {
    let d = unsigned_body(s);
    if d.len() > 0 && all_radix_digits(d, radix) {
        Some(digits_value(d, radix))
    } else {
        None
    }
}

/// What `str::parse` of a signed integer type reads from `s`, before its range
/// check: an optional `+` or `-` followed by one or more decimal digits.
pub open spec fn parse_signed(s: Seq<char>) -> Option<int> {
    if s.len() > 0 && s[0] == '-' {
        let d = s.drop_first();
        if d.len() > 0 && all_radix_digits(d, 10) {
            Some(-(digits_value(d, 10) as int))
        } else {
            None
        }
    } else {
        match parse_unsigned(s, 10) {
            Some(v) => Some(v as int),
            None => None,
        }
    }
}

/// `str::parse::<T>()` for an unsigned `T` whose largest value is `max`.
pub open spec fn parse_unsigned_max(s: Seq<char>, max: nat) -> Option<nat> {
    match parse_unsigned(s, 10) {
        Some(v) => if v <= max { Some(v) } else { None },
        None => None,
    }
}

/// `str::parse::<T>()` for a signed `T` with range `min..=max`.
pub open spec fn parse_signed_range(s: Seq<char>, min: int, max: int) -> Option<int> {
    match parse_signed(s) {
        Some(v) => if min <= v <= max { Some(v) } else { None },
        None => None,
    }
}

/// A longer run of digits never has a smaller value.
pub proof fn lemma_digits_value_prefix(s: Seq<char>, radix: nat, i: int, j: int)
    requires
        0 <= i <= j <= s.len(),
        radix >= 1,
    ensures
        digits_value(s.take(i), radix) <= digits_value(s.take(j), radix),
    decreases j - i,
{
    if i < j {
        lemma_digits_value_prefix(s, radix, i, j - 1);
        assert(s.take(j).drop_last() =~= s.take(j - 1));
        let p = digits_value(s.take(j - 1), radix);
        assert(p <= p * radix) by (nonlinear_arith)
            requires
                radix >= 1,
        ;
    }
}

/// Copies the characters of `s` into a vector.
pub fn chars_of(s: &str) -> (r: Vec<char>)
    ensures
        r@ == s@,
{
    let mut out: Vec<char> = Vec::new();
    for c in it: s.chars()
        invariant
            out@ == it.seq().take(it.index() as int),
            it.seq() == s@,
    {
        out.push(c);
    }
    out
}

/// The digit value of `c` when it is a digit of base `radix` (at most 36).
pub fn digit_of(c: char, radix: u32) -> (r: Option<u32>)
    requires
        2 <= radix <= 36,
    ensures
        r == (if is_radix_digit(c, radix as nat) {
            Some(char_digit(c) as u32)
        } else {
            None
        }),
{
    let u: u32 = c as u32;
    let d: u32 = if 48 <= u && u <= 57 {
        u - 48
    } else if 97 <= u && u <= 122 {
        u - 97 + 10
    } else if 65 <= u && u <= 90 {
        u - 65 + 10
    } else {
        36
    };
    if d < radix {
        Some(d)
    } else {
        None
    }
}

/// Reads `cs[start..end]` as digits of base `radix`: the value, when the range
/// is non-empty, holds only such digits, and its value is at most `max`.
pub fn parse_digits(cs: &Vec<char>, start: usize, end: usize, radix: u32, max: u64) -> (r: Option<
    u64,
>)
    requires
        start <= end <= cs@.len(),
        2 <= radix <= 36,
    ensures
        ({
            let d = cs@.subrange(start as int, end as int);
            r == (if d.len() > 0 && all_radix_digits(d, radix as nat) && digits_value(
                d,
                radix as nat,
            ) <= max {
                Some(digits_value(d, radix as nat) as u64)
            } else {
                None
            })
        }),
{
    let ghost d = cs@.subrange(start as int, end as int);
    if start == end {
        return None;
    }
    let mut v: u64 = 0;
    let mut i: usize = start;
    while i < end
        invariant
            start <= i <= end <= cs@.len(),
            d == cs@.subrange(start as int, end as int),
            2 <= radix <= 36,
            all_radix_digits(d.take(i - start), radix as nat),
            v as nat == digits_value(d.take(i - start), radix as nat),
            v <= max,
        decreases end - i,
    {
        let k: usize = i - start;
        assert(d.take(k + 1).drop_last() =~= d.take(k as int));
        assert(d.take(k + 1).last() == cs@[i as int]);
        match digit_of(cs[i], radix) {
            None => {
                assert(!is_radix_digit(d[k as int], radix as nat));
                return None;
            },
            Some(dig) => {
                let next: Option<u64> = match v.checked_mul(radix as u64) {
                    Some(m) => m.checked_add(dig as u64),
                    None => None,
                };
                match next {
                    Some(n) if n <= max => {
                        v = n;
                        i = i + 1;
                        assert forall|j: int| 0 <= j < (i - start) implies #[trigger] is_radix_digit(
                            d.take(i - start)[j],
                            radix as nat,
                        ) by {
                            if j < k {
                                assert(d.take(i - start)[j] == d.take(k as int)[j]);
                            }
                        }
                    },
                    _ => {
                        proof {
                            assert(digits_value(d.take(k + 1), radix as nat) > max);
                            lemma_digits_value_prefix(d, radix as nat, k + 1, d.len() as int);
                            assert(d.take(d.len() as int) =~= d);
                        }
                        return None;
                    },
                }
            },
        }
    }
    assert(d.take(i - start) =~= d);
    Some(v)
}


/// `str::parse` of an unsigned integer whose largest value is `max`, applied
/// to `cs[start..end]`.
pub fn parse_unsigned_in(cs: &Vec<char>, start: usize, end: usize, max: u64) -> (r: Option<u64>)
    requires
        start <= end <= cs@.len(),
    ensures
        r == (match parse_unsigned_max(cs@.subrange(start as int, end as int), max as nat) {
            Some(v) => Some(v as u64),
            None => None,
        }),
{
    let ghost s = cs@.subrange(start as int, end as int);
    if start < end && cs[start] == '+' {
        let r = parse_digits(cs, start + 1, end, 10, max);
        assert(s.drop_first() =~= cs@.subrange(start + 1, end as int));
        r
    } else {
        parse_digits(cs, start, end, 10, max)
    }
}

/// `str::parse` of a signed integer with range `min..=max`, applied to
/// `cs[start..end]`.
pub fn parse_signed_in(cs: &Vec<char>, start: usize, end: usize, min: i64, max: i64) -> (r: Option<
    i64,
>)
    requires
        start <= end <= cs@.len(),
        min <= 0 <= max,
    ensures
        r == (match parse_signed_range(cs@.subrange(start as int, end as int), min as int, max as int) {
            Some(v) => Some(v as i64),
            None => None,
        }),
{
    let ghost s = cs@.subrange(start as int, end as int);
    if start < end && cs[start] == '-' {
        assert(s.drop_first() =~= cs@.subrange(start + 1, end as int));
        let bound: u64 = if min == i64::MIN {
            0x8000_0000_0000_0000u64
        } else {
            (-min) as u64
        };
        match parse_digits(cs, start + 1, end, 10, bound) {
            Some(m) => {
                if m == 0x8000_0000_0000_0000u64 {
                    Some(i64::MIN)
                } else {
                    Some(-(m as i64))
                }
            },
            None => {
                proof {
                    let d = s.drop_first();
                    if d.len() > 0 && all_radix_digits(d, 10) {
                        assert(digits_value(d, 10) > bound);
                    }
                }
                None
            },
        }
    } else {
        match parse_unsigned_in(cs, start, end, max as u64) {
            Some(v) => Some(v as i64),
            None => None,
        }
    }
}

/// `str::parse::<u64>()` of `s`.
pub fn parse_u64(s: &str) -> (r: Option<u64>)
    ensures
        r == (match parse_unsigned_max(s@, u64::MAX as nat) {
            Some(v) => Some(v as u64),
            None => None,
        }),
{
    let cs = chars_of(s);
    assert(cs@.subrange(0, cs@.len() as int) =~= s@);
    parse_unsigned_in(&cs, 0, cs.len(), u64::MAX)
}


/// The pieces of `s` between the characters listed in `seps`, as `str::split`
/// with a set of separator characters yields them: `k` separators give `k + 1`
/// pieces, empty ones included.
pub open spec fn split_chars(s: Seq<char>, seps: Seq<char>) -> Seq<Seq<char>>
    decreases s.len(),
{
    if s.len() == 0 {
        seq![Seq::<char>::empty()]
    } else {
        let rest = split_chars(s.drop_last(), seps);
        if seps.contains(s.last()) {
            rest.push(Seq::<char>::empty())
        } else {
            rest.update(rest.len() - 1, rest.last().push(s.last()))
        }
    }
}

/// There is always at least one piece.
pub proof fn lemma_split_chars_nonempty(s: Seq<char>, seps: Seq<char>)
    ensures
        split_chars(s, seps).len() >= 1,
    decreases s.len(),
{
    if s.len() > 0 {
        lemma_split_chars_nonempty(s.drop_last(), seps);
    }
}

/// `c` is one of `seps`.
pub fn is_one_of(c: char, seps: &[char]) -> (r: bool)
    ensures
        r == seps@.contains(c),
{
    let mut i: usize = 0;
    while i < seps.len()
        invariant
            i <= seps@.len(),
            forall|j: int| 0 <= j < i ==> seps@[j] != c,
        decreases seps.len() - i,
    {
        if seps[i] == c {
            assert(seps@[i as int] == c);
            return true;
        }
        i = i + 1;
    }
    false
}

/// The `(start, end)` character ranges of the pieces of `cs` between the
/// separators `seps`.
pub fn split_ranges(cs: &Vec<char>, seps: &[char]) -> (r: Vec<(usize, usize)>)
    ensures
        r@.len() == split_chars(cs@, seps@).len(),
        forall|j: int|
            #![trigger r@[j]]
            0 <= j < r@.len() ==> r@[j].0 <= r@[j].1 <= cs@.len() && cs@.subrange(
                r@[j].0 as int,
                r@[j].1 as int,
            ) == split_chars(cs@, seps@)[j],
{
    let mut r: Vec<(usize, usize)> = Vec::new();
    let mut st: usize = 0;
    let mut i: usize = 0;
    while i < cs.len()
        invariant
            st <= i <= cs@.len(),
            split_chars(cs@.take(i as int), seps@).len() == r@.len() + 1,
            forall|j: int|
                #![trigger r@[j]]
                0 <= j < r@.len() ==> r@[j].0 <= r@[j].1 <= i && cs@.subrange(
                    r@[j].0 as int,
                    r@[j].1 as int,
                ) == split_chars(cs@.take(i as int), seps@)[j],
            split_chars(cs@.take(i as int), seps@)[r@.len() as int] == cs@.subrange(
                st as int,
                i as int,
            ),
        decreases cs.len() - i,
    {
        let c = cs[i];
        assert(cs@.take(i + 1).drop_last() =~= cs@.take(i as int));
        assert(cs@.take(i + 1).last() == c);
        if is_one_of(c, seps) {
            r.push((st, i));
            st = i + 1;
            assert(cs@.subrange(st as int, (i + 1) as int) =~= Seq::<char>::empty());
        } else {
            assert(cs@.subrange(st as int, (i + 1) as int) =~= cs@.subrange(
                st as int,
                i as int,
            ).push(c));
        }
        i = i + 1;
    }
    r.push((st, i));
    assert(cs@.take(i as int) =~= cs@);
    r
}


/// `s` holds none of the characters of `seps`.
pub open spec fn free_of(s: Seq<char>, seps: Seq<char>) -> bool {
    forall|i: int| 0 <= i < s.len() ==> !seps.contains(#[trigger] s[i])
}

/// Appending text free of separators extends the last piece.
pub proof fn lemma_split_chars_append_plain(p: Seq<char>, t: Seq<char>, seps: Seq<char>)
    requires
        free_of(t, seps),
    ensures
        split_chars(p + t, seps) == ({
            let sp = split_chars(p, seps);
            sp.update(sp.len() - 1, sp.last() + t)
        }),
    decreases t.len(),
{
    lemma_split_chars_nonempty(p, seps);
    if t.len() == 0 {
        assert(p + t =~= p);
        let sp = split_chars(p, seps);
        assert(sp.last() + t =~= sp.last());
        assert(sp.update(sp.len() - 1, sp.last() + t) =~= sp);
    } else {
        let t0 = t.drop_last();
        assert(free_of(t0, seps)) by {
            assert forall|i: int| 0 <= i < t0.len() implies !seps.contains(#[trigger] t0[i]) by {
                assert(t0[i] == t[i]);
            }
        }
        lemma_split_chars_append_plain(p, t0, seps);
        assert((p + t).drop_last() =~= p + t0);
        assert((p + t).last() == t.last());
        assert(!seps.contains(t[t.len() - 1]));
        let sp = split_chars(p, seps);
        assert((sp.last() + t0).push(t.last()) =~= sp.last() + t);
        assert(split_chars(p + t, seps) =~= sp.update(sp.len() - 1, sp.last() + t));
    }
}

/// Appending one separator starts a new, empty piece.
pub proof fn lemma_split_chars_append_sep(p: Seq<char>, c: char, seps: Seq<char>)
    requires
        seps.contains(c),
    ensures
        split_chars(p.push(c), seps) == split_chars(p, seps).push(Seq::<char>::empty()),
{
    assert(p.push(c).drop_last() =~= p);
}


/// The decimal digit character for `d < 10`.
pub open spec fn dec_char(d: nat) -> char {
    (48 + d) as char
}

/// The decimal text of `n`, without sign or leading zeros (as `Display` writes
/// an unsigned integer).
pub open spec fn dec_text(n: nat) -> Seq<char>
    decreases n,
{
    if n < 10 {
        seq![dec_char(n)]
    } else {
        dec_text(n / 10).push(dec_char(n % 10))
    }
}

/// Appends the decimal text of `n` to `out`.
pub fn push_decimal(out: &mut String, n: u64)
    ensures
        final(out)@ == old(out)@ + dec_text(n as nat),
    decreases n,
{
    if n >= 10 {
        push_decimal(out, n / 10);
    }
    let d: u64 = n % 10;
    out.push(((48 + d) as u8) as char);
    assert(final(out)@ =~= old(out)@ + dec_text(n as nat));
}


/// `char::is_whitespace`: the Unicode `White_Space` characters.
pub open spec fn is_ws(c: char) -> bool {
    let u = c as u32;
    (9 <= u <= 13) || u == 32 || u == 0x85 || u == 0xA0 || u == 0x1680 || (0x2000 <= u <= 0x200A)
        || u == 0x2028 || u == 0x2029 || u == 0x202F || u == 0x205F || u == 0x3000
}

/// `s` without its leading whitespace (`str::trim_start`).
pub open spec fn trim_start(s: Seq<char>) -> Seq<char>
    decreases s.len(),
{
    if s.len() > 0 && is_ws(s[0]) {
        trim_start(s.drop_first())
    } else {
        s
    }
}

/// `s` without its trailing whitespace (`str::trim_end`).
pub open spec fn trim_end(s: Seq<char>) -> Seq<char>
    decreases s.len(),
{
    if s.len() > 0 && is_ws(s.last()) {
        trim_end(s.drop_last())
    } else {
        s
    }
}

/// `s` without leading and trailing whitespace (`str::trim`).
pub open spec fn trim(s: Seq<char>) -> Seq<char> {
    trim_end(trim_start(s))
}

/// Whether `c` is whitespace.
pub fn is_whitespace(c: char) -> (r: bool)
    ensures
        r == is_ws(c),
{
    let u: u32 = c as u32;
    (9 <= u && u <= 13) || u == 32 || u == 0x85 || u == 0xA0 || u == 0x1680 || (0x2000 <= u && u
        <= 0x200A) || u == 0x2028 || u == 0x2029 || u == 0x202F || u == 0x205F || u == 0x3000
}

/// The range `a..b` of `cs[start..end]` that `trim` keeps.
pub fn trim_range(cs: &Vec<char>, start: usize, end: usize) -> (r: (usize, usize))
    requires
        start <= end <= cs@.len(),
    ensures
        start <= r.0 <= r.1 <= end,
        cs@.subrange(r.0 as int, r.1 as int) == trim(cs@.subrange(start as int, end as int)),
{
    let ghost s = cs@.subrange(start as int, end as int);
    let mut a: usize = start;
    while a < end && is_whitespace(cs[a])
        invariant
            start <= a <= end <= cs@.len(),
            s == cs@.subrange(start as int, end as int),
            trim_start(s) == trim_start(cs@.subrange(a as int, end as int)),
        decreases end - a,
    {
        assert(cs@.subrange(a as int, end as int).drop_first() =~= cs@.subrange(
            a + 1,
            end as int,
        ));
        a = a + 1;
    }
    let mut b: usize = end;
    assert(trim_start(s) == cs@.subrange(a as int, end as int));
    while b > a && is_whitespace(cs[b - 1])
        invariant
            start <= a <= b <= end <= cs@.len(),
            trim(s) == trim_end(cs@.subrange(a as int, b as int)),
        decreases b - a,
    {
        assert(cs@.subrange(a as int, b as int).drop_last() =~= cs@.subrange(
            a as int,
            b - 1,
        ));
        b = b - 1;
    }
    (a, b)
}

/// Whether two texts are equal.
pub fn same_text(a: &str, b: &str) -> (r: bool)
    ensures
        r == (a@ == b@),
{
    let x = chars_of(a);
    let y = chars_of(b);
    if x.len() != y.len() {
        return false;
    }
    let mut i: usize = 0;
    while i < x.len()
        invariant
            i <= x@.len() == y@.len(),
            x@ == a@,
            y@ == b@,
            forall|j: int| 0 <= j < i ==> x@[j] == y@[j],
        decreases x.len() - i,
    {
        if x[i] != y[i] {
            return false;
        }
        i = i + 1;
    }
    assert(x@ =~= y@);
    true
}

/// The index of the first `c` in `cs[start..end]`.
pub fn find_char(cs: &Vec<char>, start: usize, end: usize, c: char) -> (r: Option<usize>)
    requires
        start <= end <= cs@.len(),
    ensures
        r matches Some(i) ==> start <= i < end && cs@[i as int] == c && forall|j: int|
            start <= j < i ==> cs@[j] != c,
        r is None ==> forall|j: int| start <= j < end ==> cs@[j] != c,
{
    let mut i: usize = start;
    while i < end
        invariant
            start <= i <= end <= cs@.len(),
            forall|j: int| start <= j < i ==> cs@[j] != c,
        decreases end - i,
    {
        if cs[i] == c {
            return Some(i);
        }
        i = i + 1;
    }
    None
}

/// `s` split at its first `c`, as `str::split_once` does.
pub open spec fn split_once(s: Seq<char>, c: char) -> Option<(Seq<char>, Seq<char>)> {
    if s.contains(c) {
        let i = choose|i: int| 0 <= i < s.len() && s[i] == c && forall|j: int| 0 <= j < i ==> s[j] != c;
        Some((s.take(i), s.skip(i + 1)))
    } else {
        None
    }
}

/// A first occurrence found by scanning is the one `split_once` picks.
pub proof fn lemma_split_once_at(s: Seq<char>, c: char, i: int)
    requires
        0 <= i < s.len(),
        s[i] == c,
        forall|j: int| 0 <= j < i ==> s[j] != c,
    ensures
        split_once(s, c) == Some((s.take(i), s.skip(i + 1))),
{
    assert(s.contains(c));
    let k = choose|k: int| 0 <= k < s.len() && s[k] == c && forall|j: int| 0 <= j < k ==> s[j] != c;
    if k < i {
        assert(s[k] != c);
    }
    if i < k {
        assert(s[i] != c);
    }
}


/// `pat` occurs in `s` at index `i`.
pub open spec fn occurs_at(s: Seq<char>, pat: Seq<char>, i: int) -> bool {
    0 <= i && i + pat.len() <= s.len() && s.subrange(i, i + pat.len()) == pat
}

/// The first index at which `pat` occurs in `s`.
pub open spec fn first_occurrence(s: Seq<char>, pat: Seq<char>) -> Option<int> {
    if exists|i: int| occurs_at(s, pat, i) {
        Some(
            choose|i: int|
                occurs_at(s, pat, i) && forall|j: int| 0 <= j < i ==> !occurs_at(s, pat, j),
        )
    } else {
        None
    }
}

/// The first occurrence is the least one.
pub proof fn lemma_first_occurrence(s: Seq<char>, pat: Seq<char>)
    ensures
        first_occurrence(s, pat) matches Some(i) ==> occurs_at(s, pat, i) && forall|j: int|
            0 <= j < i ==> !occurs_at(s, pat, j),
{
    if exists|i: int| occurs_at(s, pat, i) {
        let w = choose|i: int| occurs_at(s, pat, i);
        lemma_least_occurrence(s, pat, w);
    }
}

proof fn lemma_least_occurrence(s: Seq<char>, pat: Seq<char>, w: int)
    requires
        occurs_at(s, pat, w),
    ensures
        exists|i: int| occurs_at(s, pat, i) && forall|j: int| 0 <= j < i ==> !occurs_at(s, pat, j),
    decreases w,
{
    if exists|j: int| 0 <= j < w && occurs_at(s, pat, j) {
        let j = choose|j: int| 0 <= j < w && occurs_at(s, pat, j);
        lemma_least_occurrence(s, pat, j);
    }
}

/// The pieces of `s` between the non-overlapping occurrences of `pat`, found
/// from the left (`str::split` with a string pattern).
#[verifier::opaque]
pub open spec fn split_pattern(s: Seq<char>, pat: Seq<char>) -> Seq<Seq<char>>
    decreases s.len(),
{
    if pat.len() > 0 {
        match first_occurrence(s, pat) {
            Some(i) => if 0 <= i && i + pat.len() <= s.len() {
                seq![s.take(i)] + split_pattern(s.skip(i + pat.len()), pat)
            } else {
                seq![s]
            },
            None => seq![s],
        }
    } else {
        seq![s]
    }
}

/// Whether `pat` occurs in `cs` at `i`.
fn occurs_at_exec(cs: &Vec<char>, pat: &Vec<char>, i: usize) -> (r: bool)
    ensures
        r == occurs_at(cs@, pat@, i as int),
{
    if pat.len() > cs.len() || i > cs.len() - pat.len() {
        return false;
    }
    let mut k: usize = 0;
    while k < pat.len()
        invariant
            k <= pat@.len(),
            i + pat@.len() <= cs@.len() <= usize::MAX,
            forall|j: int| 0 <= j < k ==> cs@[i + j] == pat@[j],
        decreases pat.len() - k,
    {
        if cs[i + k] != pat[k] {
            assert(cs@.subrange(i as int, i + pat@.len())[k as int] != pat@[k as int]);
            return false;
        }
        k = k + 1;
    }
    assert(cs@.subrange(i as int, i + pat@.len()) =~= pat@);
    true
}

/// The first index `>= start` at which `pat` occurs in `cs`.
fn find_pattern(cs: &Vec<char>, pat: &Vec<char>, start: usize) -> (r: Option<usize>)
    requires
        start <= cs@.len(),
    ensures
        r matches Some(i) ==> start <= i && occurs_at(cs@, pat@, i as int) && forall|j: int|
            start <= j < i ==> !occurs_at(cs@, pat@, j),
        r is None ==> forall|j: int| start <= j ==> !occurs_at(cs@, pat@, j),
{
    let mut i: usize = start;
    while i < cs.len()
        invariant
            start <= i <= cs@.len(),
            forall|j: int| start <= j < i ==> !occurs_at(cs@, pat@, j),
        decreases cs.len() - i,
    {
        if occurs_at_exec(cs, pat, i) {
            return Some(i);
        }
        i = i + 1;
    }
    if occurs_at_exec(cs, pat, i) {
        return Some(i);
    }
    None
}

/// `pat` occurs somewhere in `s` (`str::contains` with a string pattern;
/// the empty pattern occurs everywhere).
pub open spec fn text_contains(s: Seq<char>, pat: Seq<char>) -> bool {
    exists|i: int| #[trigger] occurs_at(s, pat, i)
}

/// `true` exactly when `needle` occurs in `hay`.
pub fn contains_text(hay: &str, needle: &str) -> (r: bool)
    ensures
        r == text_contains(hay@, needle@),
{
    let cs = chars_of(hay);
    let pat = chars_of(needle);
    match find_pattern(&cs, &pat, 0) {
        Some(_) => true,
        None => false,
    }
}

proof fn lemma_occurs_shift(s: Seq<char>, pat: Seq<char>, pos: int, j: int)
    requires
        0 <= pos <= s.len(),
        0 <= j,
    ensures
        occurs_at(s.skip(pos), pat, j) == occurs_at(s, pat, pos + j),
{
    if occurs_at(s.skip(pos), pat, j) {
        assert(s.skip(pos).subrange(j, j + pat.len()) =~= s.subrange(pos + j, pos + j + pat.len()));
    }
    if occurs_at(s, pat, pos + j) {
        assert(s.skip(pos).subrange(j, j + pat.len()) =~= s.subrange(pos + j, pos + j + pat.len()));
    }
}

/// One step of splitting at the first occurrence at or after `pos`.
proof fn lemma_split_pattern_step(s: Seq<char>, pat: Seq<char>, pos: int, i: int)
    requires
        0 <= pos <= i,
        pat.len() > 0,
        occurs_at(s, pat, i),
        forall|j: int| pos <= j < i ==> !occurs_at(s, pat, j),
    ensures
        split_pattern(s.skip(pos), pat) == seq![s.subrange(pos, i)] + split_pattern(
            s.skip(i + pat.len()),
            pat,
        ),
{
    reveal(split_pattern);
    let rest = s.skip(pos);
    lemma_first_occurrence(rest, pat);
    lemma_occurs_shift(s, pat, pos, i - pos);
    assert forall|j: int| 0 <= j < i - pos implies !occurs_at(rest, pat, j) by {
        lemma_occurs_shift(s, pat, pos, j);
    }
    let k = first_occurrence(rest, pat)->0;
    lemma_occurs_shift(s, pat, pos, k);
    assert(k == i - pos);
    assert(rest.take(i - pos) =~= s.subrange(pos, i));
    assert(rest.skip(i - pos + pat.len()) =~= s.skip(i + pat.len()));
}

/// No occurrence at or after `pos` leaves the rest as one piece.
proof fn lemma_split_pattern_last(s: Seq<char>, pat: Seq<char>, pos: int)
    requires
        0 <= pos <= s.len(),
        pat.len() > 0,
        forall|j: int| pos <= j ==> !occurs_at(s, pat, j),
    ensures
        split_pattern(s.skip(pos), pat) == seq![s.subrange(pos, s.len() as int)],
{
    reveal(split_pattern);
    let rest = s.skip(pos);
    assert forall|j: int| 0 <= j implies !occurs_at(rest, pat, j) by {
        lemma_occurs_shift(s, pat, pos, j);
    }
    assert(rest =~= s.subrange(pos, s.len() as int));
}

/// The `(start, end)` ranges of the pieces of `cs` between the occurrences of
/// the non-empty pattern `pat`.
pub fn split_pattern_ranges(cs: &Vec<char>, pat: &Vec<char>) -> (r: Vec<(usize, usize)>)
    requires
        pat@.len() > 0,
    ensures
        r@.len() == split_pattern(cs@, pat@).len(),
        forall|j: int|
            #![trigger r@[j]]
            0 <= j < r@.len() ==> r@[j].0 <= r@[j].1 <= cs@.len() && cs@.subrange(
                r@[j].0 as int,
                r@[j].1 as int,
            ) == split_pattern(cs@, pat@)[j],
{
    let mut r: Vec<(usize, usize)> = Vec::new();
    let mut pos: usize = 0;
    let ghost mut done: Seq<Seq<char>> = Seq::empty();
    assert(cs@.skip(0) =~= cs@);
    assert(done + split_pattern(cs@.skip(0), pat@) =~= split_pattern(cs@, pat@));
    loop
        invariant
            pos <= cs@.len(),
            pat@.len() > 0,
            split_pattern(cs@, pat@) == done + split_pattern(cs@.skip(pos as int), pat@),
            done.len() == r@.len(),
            forall|j: int|
                #![trigger r@[j]]
                0 <= j < r@.len() ==> r@[j].0 <= r@[j].1 <= cs@.len() && cs@.subrange(
                    r@[j].0 as int,
                    r@[j].1 as int,
                ) == done[j],
        decreases cs@.len() - pos,
    {
        match find_pattern(cs, pat, pos) {
            Some(i) => {
                proof {
                    lemma_split_pattern_step(cs@, pat@, pos as int, i as int);
                    let piece = cs@.subrange(pos as int, i as int);
                    assert(done.push(piece) + split_pattern(cs@.skip(i + pat@.len()), pat@) =~= done
                        + (seq![piece] + split_pattern(cs@.skip(i + pat@.len()), pat@)));
                    done = done.push(piece);
                }
                let n: usize = cs.len();
                assert(occurs_at(cs@, pat@, i as int));
                assert(i + pat@.len() <= n);
                r.push((pos, i));
                pos = i + pat.len();
            },
            None => {
                proof {
                    lemma_split_pattern_last(cs@, pat@, pos as int);
                    done = done.push(cs@.subrange(pos as int, cs@.len() as int));
                }
                r.push((pos, cs.len()));
                return r;
            },
        }
    }
}


/// Splitting always yields at least one piece.
pub proof fn lemma_split_pattern_nonempty(s: Seq<char>, pat: Seq<char>)
    ensures
        split_pattern(s, pat).len() >= 1,
{
    reveal(split_pattern);
    if pat.len() > 0 {
        match first_occurrence(s, pat) {
            Some(i) => {},
            None => {},
        }
    }
}

/// A text in which `pat` does not occur is one piece.
pub proof fn lemma_split_pattern_absent(s: Seq<char>, pat: Seq<char>)
    requires
        forall|i: int| !occurs_at(s, pat, i),
    ensures
        split_pattern(s, pat) == seq![s],
{
    reveal(split_pattern);
}

} // verus!
