//! Display helpers for process priorities and column widths.

use vstd::prelude::*;

use crate::i18n::{no_nul, pi18n, Translations};
use crate::process::Niceness;

verus! {

/// The number of decimal digits of `n` (1 for every `n < 10`).
pub open spec fn digit_count(n: int) -> nat
    decreases n,
{
    if n < 10 {
        1
    } else {
        1 + digit_count(n / 10)
    }
}

/// The number of decimal digits of `n`; 1 for every `n < 10`, negative ones
/// included.
pub fn decimal_digits(n: i32) -> (r: u32)
    ensures
        r as nat == digit_count(n as int),
    decreases n,
{
    if n < 10 {
        1
    } else {
        proof {
            assert(pow10(10) == 10000000000) by {
                reveal_with_fuel(pow10, 11);
            }
            lemma_digit_count_le((n / 10) as int, 10);
        }
        1 + decimal_digits(n / 10)
    }
}

/// A number below `10^k` has at most `k` digits.
pub proof fn lemma_digit_count_le(n: int, k: nat)
    requires
        n < pow10(k),
        k >= 1,
    ensures
        digit_count(n) <= k,
    decreases k,
{
    if n >= 10 {
        if k == 1 {
            assert(pow10(1) == 10 * pow10(0));
        } else {
            let p = pow10((k - 1) as nat);
            assert(pow10(k) == 10 * p);
            assert(n / 10 < p) by (nonlinear_arith)
                requires
                    n < 10 * p,
                    n >= 10,
            ;
            lemma_digit_count_le(n / 10, (k - 1) as nat);
        }
    }
}

/// `10^k`.
pub open spec fn pow10(k: nat) -> nat
    decreases k,
{
    if k == 0 {
        1
    } else {
        10 * pow10((k - 1) as nat)
    }
}

/// A non-negative number has exactly as many digits as its decimal text:
/// `10^(d-1) <= n < 10^d` for `d` digits (and `n` positive).
pub proof fn lemma_digit_count_bounds(n: int)
    requires
        n >= 0,
    ensures
        n < pow10(digit_count(n)),
        n >= 1 ==> pow10((digit_count(n) - 1) as nat) <= n,
    decreases n,
{
    if n >= 10 {
        lemma_digit_count_bounds(n / 10);
        let d = digit_count(n / 10);
        assert(pow10(d + 1) == 10 * pow10(d));
        assert(n < 10 * pow10(d)) by (nonlinear_arith)
            requires
                n / 10 < pow10(d),
                n >= 0,
        ;
        if d >= 1 {
            assert(pow10(d) == 10 * pow10((d - 1) as nat));
            assert(10 * pow10((d - 1) as nat) <= n) by (nonlinear_arith)
                requires
                    pow10((d - 1) as nat) <= n / 10,
                    n >= 0,
            ;
        }
    } else {
        assert(pow10(1) == 10 * pow10(0));
    }
}

/// The priority class of a niceness: 0 "Very High" (-20..=-8), 1 "High"
/// (-7..=-3), 2 "Normal" (-2..=2), 3 "Low" (3..=6), 4 "Very Low" (7..=19).
pub open spec fn priority_class(nice: int) -> u32 {
    if nice <= -8 {
        0
    } else if nice <= -3 {
        1
    } else if nice <= 2 {
        2
    } else if nice <= 6 {
        3
    } else {
        4
    }
}

/// A higher niceness never has a higher priority (a smaller class).
pub proof fn lemma_priority_class_monotone(a: int, b: int)
    requires
        a <= b,
    ensures
        priority_class(a) <= priority_class(b),
{
}

/// The untranslated label of a priority class.
pub open spec fn priority_label(class: u32) -> Seq<char> {
    if class == 0 {
        "Very High"@
    } else if class == 1 {
        "High"@
    } else if class == 2 {
        "Normal"@
    } else if class == 3 {
        "Low"@
    } else {
        "Very Low"@
    }
}

/// The untranslated label and the priority class of a niceness.
pub fn nice_label_msgid(niceness: Niceness) -> (r: (&'static str, u32))
    ensures
        r.1 == priority_class(niceness.spec_value() as int),
        r.0@ == priority_label(r.1),
{
    let n = niceness.into_inner();
    if n <= -8 {
        ("Very High", 0)
    } else if n <= -3 {
        ("High", 1)
    } else if n <= 2 {
        ("Normal", 2)
    } else if n <= 6 {
        ("Low", 3)
    } else {
        ("Very Low", 4)
    }
}

/// The translated label (context "process priority") and the priority class
/// of a niceness.
pub fn nice_to_label(tr: &Translations, niceness: Niceness) -> (r: (String, u32))
    ensures
        r.1 == priority_class(niceness.spec_value() as int),
{
    let (msgid, class) = nice_label_msgid(niceness);
    proof {
        reveal_strlit("process priority");
        reveal_strlit("Very High");
        reveal_strlit("High");
        reveal_strlit("Normal");
        reveal_strlit("Low");
        reveal_strlit("Very Low");
        assert(no_nul(msgid@));
    }
    (pi18n(tr, "process priority", msgid), class)
}

} // verus!
