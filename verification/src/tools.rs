//! Decisions of the small privileged helpers: the signal a process is sent,
//! the argument syntax, exit codes, and the CPUs of an affinity mask.

use vstd::prelude::*;

use crate::text::{chars_of, parse_signed_in, parse_signed_range, same_text, trim, trim_range};

verus! {

/// Exit code when the arguments are missing or malformed.
pub const EXIT_USAGE: i32 = 255;

/// Exit code for a signal name that is not known.
pub const EXIT_UNKNOWN_SIGNAL: i32 = 254;

/// Exit code when sending the signal failed with an unknown error.
pub const EXIT_UNKNOWN_ERRNO: i32 = 253;

/// The signals a process can be sent.
#[derive(Debug, Clone, Copy, PartialEq, Eq, Structural)]
pub enum KillSignal {
    Stop,
    Cont,
    Term,
    Kill,
}

/// The signal that a name (`STOP`, `CONT`, `TERM` or `KILL`) stands for.
pub open spec fn signal_named(name: Seq<char>) -> Option<KillSignal> {
    if name == "STOP"@ {
        Some(KillSignal::Stop)
    } else if name == "CONT"@ {
        Some(KillSignal::Cont)
    } else if name == "TERM"@ {
        Some(KillSignal::Term)
    } else if name == "KILL"@ {
        Some(KillSignal::Kill)
    } else {
        None
    }
}

/// The name a signal is asked for by.
pub open spec fn name_of_signal(s: KillSignal) -> Seq<char> {
    match s {
        KillSignal::Stop => "STOP"@,
        KillSignal::Cont => "CONT"@,
        KillSignal::Term => "TERM"@,
        KillSignal::Kill => "KILL"@,
    }
}

/// Each signal is asked for by its own name and by no other: a name gives a
/// signal exactly when it is that signal's name, so distinct names give
/// distinct signals.
pub proof fn lemma_signal_names(name: Seq<char>, s: KillSignal)
    ensures
        (signal_named(name) == Some(s)) <==> (name == name_of_signal(s)),
        signal_named(name_of_signal(s)) == Some(s),
{
    reveal_strlit("STOP");
    reveal_strlit("CONT");
    reveal_strlit("TERM");
    reveal_strlit("KILL");
    assert("STOP"@ != "CONT"@) by { assert("STOP"@[0] != "CONT"@[0]); }
    assert("STOP"@ != "TERM"@) by { assert("STOP"@[0] != "TERM"@[0]); }
    assert("STOP"@ != "KILL"@) by { assert("STOP"@[0] != "KILL"@[0]); }
    assert("CONT"@ != "TERM"@) by { assert("CONT"@[0] != "TERM"@[0]); }
    assert("CONT"@ != "KILL"@) by { assert("CONT"@[0] != "KILL"@[0]); }
    assert("TERM"@ != "KILL"@) by { assert("TERM"@[0] != "KILL"@[0]); }
}

/// Distinct names never give the same signal.
pub proof fn lemma_signal_named_injective(a: Seq<char>, b: Seq<char>)
    ensures
        signal_named(a) is Some && signal_named(a) == signal_named(b) ==> a == b,
{
    if signal_named(a) is Some && signal_named(a) == signal_named(b) {
        let s = signal_named(a)->0;
        lemma_signal_names(a, s);
        lemma_signal_names(b, s);
    }
}

/// The signal that the argument `arg` names.
pub fn signal_from_name(arg: &str) -> (r: Option<KillSignal>)
    ensures
        r == signal_named(arg@),
{
    if same_text(arg, "STOP") {
        Some(KillSignal::Stop)
    } else if same_text(arg, "CONT") {
        Some(KillSignal::Cont)
    } else if same_text(arg, "TERM") {
        Some(KillSignal::Term)
    } else if same_text(arg, "KILL") {
        Some(KillSignal::Kill)
    } else {
        None
    }
}

/// A process or thread ID, or a niceness, given as an argument: the trimmed
/// text read as an `i32`.
pub fn parse_int_arg(s: &str) -> (r: Option<i32>)
    ensures
        r == (match parse_signed_range(trim(s@), i32::MIN as int, i32::MAX as int) {
            Some(v) => Some(v as i32),
            None => None,
        }),
{
    let cs = chars_of(s);
    let (a, b) = trim_range(&cs, 0, cs.len());
    assert(cs@.subrange(0, cs@.len() as int) =~= s@);
    match parse_signed_in(&cs, a, b, i32::MIN as i64, i32::MAX as i64) {
        Some(v) => Some(v as i32),
        None => None,
    }
}

/// The exit code for a failed `kill`: the error number, or
/// [`EXIT_UNKNOWN_ERRNO`] for the unknown error 0.
pub fn kill_exit_code(errno: i32) -> (r: i32)
    ensures
        r == if errno == 0 {
            EXIT_UNKNOWN_ERRNO
        } else {
            errno
        },
{
    if errno == 0 {
        EXIT_UNKNOWN_ERRNO
    } else {
        errno
    }
}

/// The CPUs that an affinity mask selects: the positions of its `1`
/// characters.
pub open spec fn mask_cpus(mask: Seq<char>) -> Seq<usize>
    decreases mask.len(),
{
    if mask.len() == 0 {
        Seq::empty()
    } else if mask.last() == '1' {
        mask_cpus(mask.drop_last()).push((mask.len() - 1) as usize)
    } else {
        mask_cpus(mask.drop_last())
    }
}

/// The CPUs selected by `mask`, in increasing order.
pub fn cpus_from_mask(mask: &str) -> (r: Vec<usize>)
    ensures
        r@ == mask_cpus(mask@),
{
    let cs = chars_of(mask);
    let mut out: Vec<usize> = Vec::new();
    let mut i: usize = 0;
    while i < cs.len()
        invariant
            i <= cs@.len(),
            cs@ == mask@,
            out@ == mask_cpus(cs@.take(i as int)),
        decreases cs.len() - i,
    {
        assert(cs@.take(i + 1).drop_last() =~= cs@.take(i as int));
        if cs[i] == '1' {
            out.push(i);
        }
        i = i + 1;
    }
    assert(cs@.take(i as int) =~= cs@);
    out
}

/// Every selected CPU is a position of the mask holding `1`, and the list is
/// strictly increasing.
pub proof fn lemma_mask_cpus_sound(mask: Seq<char>)
    requires
        mask.len() <= usize::MAX,
    ensures
        forall|k: int|
            0 <= k < mask_cpus(mask).len() ==> (mask_cpus(mask)[k] as int) < mask.len() && mask[mask_cpus(
                mask,
            )[k] as int] == '1',
        forall|a: int, b: int|
            0 <= a < b < mask_cpus(mask).len() ==> mask_cpus(mask)[a] < mask_cpus(mask)[b],
    decreases mask.len(),
{
    if mask.len() > 0 {
        let m0 = mask.drop_last();
        let c0 = mask_cpus(m0);
        let c = mask_cpus(mask);
        lemma_mask_cpus_sound(m0);
        assert forall|k: int| 0 <= k < c.len() implies (c[k] as int) < mask.len() && mask[c[k] as int]
            == '1' by {
            if k < c0.len() {
                assert(c[k] == c0[k]);
                assert(mask[c0[k] as int] == m0[c0[k] as int]);
            }
        }
        assert forall|a: int, b: int| 0 <= a < b < c.len() implies c[a] < c[b] by {
            if b < c0.len() {
                assert(c[a] == c0[a] && c[b] == c0[b]);
            } else {
                assert(c[a] == c0[a]);
            }
        }
    }
}

} // verus!
