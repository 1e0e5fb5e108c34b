//! Per-process GPU counters as read from DRM fdinfo or NVML.

use vstd::prelude::*;

use crate::pci_slot::{slot_text, PciSlot};
use crate::text::{dec_text, push_decimal};

verus! {

/// Why a value is not a valid [`IntegerPercentage`].
#[derive(Debug, Clone, Copy, PartialEq, Eq, Structural)]
pub enum IntegerPercentageError {
    /// The value was above 100.
    LessOrEqualViolated,
}

/// An integer percentage in `0..=100`.
#[derive(Debug, Clone, Copy, Hash, PartialEq, Eq, PartialOrd, Ord, Structural)]
pub struct IntegerPercentage {
    value: u8,
}

impl IntegerPercentage {
    #[verifier::type_invariant]
    spec fn valid(self) -> bool {
        self.value <= 100
    }

    /// The percentage.
    pub closed spec fn spec_value(self) -> u8 {
        self.value
    }

    /// Accepts `value` when it is at most 100.
    pub fn try_new(value: u8) -> (r: Result<Self, IntegerPercentageError>)
        ensures
            value <= 100 ==> (r matches Ok(p) && p.spec_value() == value),
            value > 100 ==> r == Err::<Self, IntegerPercentageError>(
                IntegerPercentageError::LessOrEqualViolated,
            ),
    {
        if value > 100 {
            Err(IntegerPercentageError::LessOrEqualViolated)
        } else {
            Ok(IntegerPercentage { value })
        }
    }

    /// The percentage as a plain integer.
    pub fn into_inner(self) -> (r: u8)
        ensures
            r == self.spec_value(),
            r <= 100,
    {
        proof {
            use_type_invariant(self);
        }
        self.value
    }

    /// The larger of two percentages.
    pub fn larger(self, other: Self) -> (r: Self)
        ensures
            r.spec_value() == if self.spec_value() >= other.spec_value() {
                self.spec_value()
            } else {
                other.spec_value()
            },
    {
        if self.value >= other.value {
            self
        } else {
            other
        }
    }
}

impl Default for IntegerPercentage {
    fn default() -> (r: Self)
        ensures
            r.spec_value() == 0,
    {
        IntegerPercentage { value: 0 }
    }
}

/// How a GPU is identified: by its PCI slot, or by its position when it has none.
#[derive(Debug, Clone, Copy, Hash, PartialEq, Eq, PartialOrd, Ord, Structural)]
pub enum GpuIdentifier {
    PciSlot(PciSlot),
    Enumerator(usize),
}

impl Default for GpuIdentifier {
    fn default() -> (r: Self)
        ensures
            r == GpuIdentifier::Enumerator(0),
    {
        Self::Enumerator(0)
    }
}

impl GpuIdentifier {
    /// The display text: the slot text, or the decimal enumerator.
    pub fn to_string(&self) -> (r: String)
        ensures
            r@ == match *self {
                GpuIdentifier::PciSlot(s) => slot_text(s@.0, s@.1, s@.2, s@.3),
                GpuIdentifier::Enumerator(n) => dec_text(n as nat),
            },
    {
        match self {
            GpuIdentifier::PciSlot(s) => s.to_string(),
            GpuIdentifier::Enumerator(n) => {
                let mut out = String::new();
                push_decimal(&mut out, *n as u64);
                assert(out@ =~= dec_text(*n as nat));
                out
            },
        }
    }
}

/// Raw counter snapshot for one GPU as seen by one process.
#[derive(Debug, Clone, Copy, Hash, PartialEq, Eq, PartialOrd, Ord, Structural)]
pub enum GpuUsageStats {
    AmdgpuStats { gfx_ns: u64, enc_ns: u64, dec_ns: u64, mem_bytes: u64 },
    I915Stats { gfx_ns: u64, video_ns: u64 },
    NvidiaStats {
        gfx_percentage: IntegerPercentage,
        enc_percentage: IntegerPercentage,
        dec_percentage: IntegerPercentage,
        mem_bytes: u64,
    },
    V3dStats { gfx_ns: u64, mem_bytes: u64 },
    XeStats {
        gfx_cycles: u64,
        gfx_total_cycles: u64,
        compute_cycles: u64,
        compute_total_cycles: u64,
        video_cycles: u64,
        video_total_cycles: u64,
        mem_bytes: u64,
    },
}

/// The larger of two counters.
pub open spec fn max_u64(a: u64, b: u64) -> u64 {
    if a >= b {
        a
    } else {
        b
    }
}

/// The larger of two percentages, by value.
pub open spec fn max_pct(a: IntegerPercentage, b: IntegerPercentage) -> IntegerPercentage {
    if a.spec_value() >= b.spec_value() {
        a
    } else {
        b
    }
}

/// `a` and `b` come from the same driver.
pub open spec fn same_variant(a: GpuUsageStats, b: GpuUsageStats) -> bool {
    match (a, b) {
        (GpuUsageStats::AmdgpuStats { .. }, GpuUsageStats::AmdgpuStats { .. }) => true,
        (GpuUsageStats::I915Stats { .. }, GpuUsageStats::I915Stats { .. }) => true,
        (GpuUsageStats::NvidiaStats { .. }, GpuUsageStats::NvidiaStats { .. }) => true,
        (GpuUsageStats::V3dStats { .. }, GpuUsageStats::V3dStats { .. }) => true,
        (GpuUsageStats::XeStats { .. }, GpuUsageStats::XeStats { .. }) => true,
        _ => false,
    }
}

/// The memory in bytes that `s` reports, if its driver reports one.
pub open spec fn spec_mem_bytes(s: GpuUsageStats) -> Option<u64> {
    match s {
        GpuUsageStats::AmdgpuStats { mem_bytes, .. } => Some(mem_bytes),
        GpuUsageStats::NvidiaStats { mem_bytes, .. } => Some(mem_bytes),
        GpuUsageStats::V3dStats { mem_bytes, .. } => Some(mem_bytes),
        GpuUsageStats::XeStats { mem_bytes, .. } => Some(mem_bytes),
        GpuUsageStats::I915Stats { .. } => None,
    }
}

/// Component-wise maximum of two snapshots of the same variant; `a` itself
/// when the variants differ.
pub open spec fn spec_greater(a: GpuUsageStats, b: GpuUsageStats) -> GpuUsageStats {
    match (a, b) {
        (
            GpuUsageStats::AmdgpuStats { gfx_ns: a0, enc_ns: a1, dec_ns: a2, mem_bytes: a3 },
            GpuUsageStats::AmdgpuStats { gfx_ns: b0, enc_ns: b1, dec_ns: b2, mem_bytes: b3 },
        ) => GpuUsageStats::AmdgpuStats {
            gfx_ns: max_u64(a0, b0),
            enc_ns: max_u64(a1, b1),
            dec_ns: max_u64(a2, b2),
            mem_bytes: max_u64(a3, b3),
        },
        (
            GpuUsageStats::I915Stats { gfx_ns: a0, video_ns: a1 },
            GpuUsageStats::I915Stats { gfx_ns: b0, video_ns: b1 },
        ) => GpuUsageStats::I915Stats { gfx_ns: max_u64(a0, b0), video_ns: max_u64(a1, b1) },
        (
            GpuUsageStats::NvidiaStats {
                gfx_percentage: a0,
                enc_percentage: a1,
                dec_percentage: a2,
                mem_bytes: a3,
            },
            GpuUsageStats::NvidiaStats {
                gfx_percentage: b0,
                enc_percentage: b1,
                dec_percentage: b2,
                mem_bytes: b3,
            },
        ) => GpuUsageStats::NvidiaStats {
            gfx_percentage: max_pct(a0, b0),
            enc_percentage: max_pct(a1, b1),
            dec_percentage: max_pct(a2, b2),
            mem_bytes: max_u64(a3, b3),
        },
        (
            GpuUsageStats::V3dStats { gfx_ns: a0, mem_bytes: a1 },
            GpuUsageStats::V3dStats { gfx_ns: b0, mem_bytes: b1 },
        ) => GpuUsageStats::V3dStats { gfx_ns: max_u64(a0, b0), mem_bytes: max_u64(a1, b1) },
        (
            GpuUsageStats::XeStats {
                gfx_cycles: a0,
                gfx_total_cycles: a1,
                compute_cycles: a2,
                compute_total_cycles: a3,
                video_cycles: a4,
                video_total_cycles: a5,
                mem_bytes: a6,
            },
            GpuUsageStats::XeStats {
                gfx_cycles: b0,
                gfx_total_cycles: b1,
                compute_cycles: b2,
                compute_total_cycles: b3,
                video_cycles: b4,
                video_total_cycles: b5,
                mem_bytes: b6,
            },
        ) => GpuUsageStats::XeStats {
            gfx_cycles: max_u64(a0, b0),
            gfx_total_cycles: max_u64(a1, b1),
            compute_cycles: max_u64(a2, b2),
            compute_total_cycles: max_u64(a3, b3),
            video_cycles: max_u64(a4, b4),
            video_total_cycles: max_u64(a5, b5),
            mem_bytes: max_u64(a6, b6),
        },
        _ => a,
    }
}

fn max_of(a: u64, b: u64) -> (r: u64)
    ensures
        r == max_u64(a, b),
{
    if a >= b {
        a
    } else {
        b
    }
}

impl GpuUsageStats {
    /// VRAM / GTT usage in bytes, or `None` if the driver doesn't report it.
    pub fn mem_bytes(&self) -> (r: Option<u64>)
        ensures
            r == spec_mem_bytes(*self),
    {
        match self {
            Self::AmdgpuStats { mem_bytes, .. }
            | Self::NvidiaStats { mem_bytes, .. }
            | Self::V3dStats { mem_bytes, .. }
            | Self::XeStats { mem_bytes, .. } => Some(*mem_bytes),
            Self::I915Stats { .. } => None,
        }
    }

    /// Component-wise maximum of two snapshots of the same variant.
    ///
    /// Returns `*self` unchanged if the variants differ (should not happen in practice).
    pub fn greater(&self, other: &Self) -> (r: Self)
        ensures
            r == spec_greater(*self, *other),
    {
        match (self, other) {
            (
                Self::AmdgpuStats { gfx_ns: a0, enc_ns: a1, dec_ns: a2, mem_bytes: a3 },
                Self::AmdgpuStats { gfx_ns: b0, enc_ns: b1, dec_ns: b2, mem_bytes: b3 },
            ) => Self::AmdgpuStats {
                gfx_ns: max_of(*a0, *b0),
                enc_ns: max_of(*a1, *b1),
                dec_ns: max_of(*a2, *b2),
                mem_bytes: max_of(*a3, *b3),
            },
            (
                Self::I915Stats { gfx_ns: a0, video_ns: a1 },
                Self::I915Stats { gfx_ns: b0, video_ns: b1 },
            ) => Self::I915Stats { gfx_ns: max_of(*a0, *b0), video_ns: max_of(*a1, *b1) },
            (
                Self::NvidiaStats {
                    gfx_percentage: a0,
                    enc_percentage: a1,
                    dec_percentage: a2,
                    mem_bytes: a3,
                },
                Self::NvidiaStats {
                    gfx_percentage: b0,
                    enc_percentage: b1,
                    dec_percentage: b2,
                    mem_bytes: b3,
                },
            ) => Self::NvidiaStats {
                gfx_percentage: a0.larger(*b0),
                enc_percentage: a1.larger(*b1),
                dec_percentage: a2.larger(*b2),
                mem_bytes: max_of(*a3, *b3),
            },
            (
                Self::V3dStats { gfx_ns: a0, mem_bytes: a1 },
                Self::V3dStats { gfx_ns: b0, mem_bytes: b1 },
            ) => Self::V3dStats { gfx_ns: max_of(*a0, *b0), mem_bytes: max_of(*a1, *b1) },
            (
                Self::XeStats {
                    gfx_cycles: a0,
                    gfx_total_cycles: a1,
                    compute_cycles: a2,
                    compute_total_cycles: a3,
                    video_cycles: a4,
                    video_total_cycles: a5,
                    mem_bytes: a6,
                },
                Self::XeStats {
                    gfx_cycles: b0,
                    gfx_total_cycles: b1,
                    compute_cycles: b2,
                    compute_total_cycles: b3,
                    video_cycles: b4,
                    video_total_cycles: b5,
                    mem_bytes: b6,
                },
            ) => Self::XeStats {
                gfx_cycles: max_of(*a0, *b0),
                gfx_total_cycles: max_of(*a1, *b1),
                compute_cycles: max_of(*a2, *b2),
                compute_total_cycles: max_of(*a3, *b3),
                video_cycles: max_of(*a4, *b4),
                video_total_cycles: max_of(*a5, *b5),
                mem_bytes: max_of(*a6, *b6),
            },
            _ => *self,
        }
    }
}


/// Merging two snapshots of the same driver does not depend on their order.
pub proof fn lemma_greater_commutative(a: GpuUsageStats, b: GpuUsageStats)
    requires
        same_variant(a, b),
    ensures
        spec_greater(a, b) == spec_greater(b, a),
{
    match (a, b) {
        (
            GpuUsageStats::NvidiaStats {
                gfx_percentage: a0,
                enc_percentage: a1,
                dec_percentage: a2,
                ..
            },
            GpuUsageStats::NvidiaStats {
                gfx_percentage: b0,
                enc_percentage: b1,
                dec_percentage: b2,
                ..
            },
        ) => {
            lemma_max_pct_commutative(a0, b0);
            lemma_max_pct_commutative(a1, b1);
            lemma_max_pct_commutative(a2, b2);
        },
        _ => {},
    }
}

proof fn lemma_max_pct_commutative(a: IntegerPercentage, b: IntegerPercentage)
    ensures
        max_pct(a, b) == max_pct(b, a),
{
}

/// Merging a snapshot with itself gives it back.
pub proof fn lemma_greater_idempotent(a: GpuUsageStats)
    ensures
        spec_greater(a, a) == a,
{
}

/// Merging is associative on snapshots of one driver, so the order in which
/// the snapshots of one GPU are folded together does not matter.
pub proof fn lemma_greater_associative(a: GpuUsageStats, b: GpuUsageStats, c: GpuUsageStats)
    requires
        same_variant(a, b),
        same_variant(b, c),
    ensures
        spec_greater(spec_greater(a, b), c) == spec_greater(a, spec_greater(b, c)),
{
}

/// The merge keeps the driver and is at least each input in every counter;
/// its memory is the larger of the two memories.
pub proof fn lemma_greater_upper_bound(a: GpuUsageStats, b: GpuUsageStats)
    requires
        same_variant(a, b),
    ensures
        same_variant(spec_greater(a, b), a),
        spec_mem_bytes(a) matches Some(ma) ==> spec_mem_bytes(b) matches Some(mb)
            && spec_mem_bytes(spec_greater(a, b)) == Some(max_u64(ma, mb)),
{
}

/// Snapshots of different drivers are not merged: the first one is kept.
pub proof fn lemma_greater_mismatch(a: GpuUsageStats, b: GpuUsageStats)
    requires
        !same_variant(a, b),
    ensures
        spec_greater(a, b) == a,
{
}


/// What an engine's utilisation between two snapshots is computed from; the
/// utilisation is the largest of the fractions a list of these gives.
#[derive(Debug, Clone, Copy, PartialEq, Eq, Structural)]
pub enum UsageDelta {
    /// `busy_ns` nanoseconds of engine time during `elapsed_ms` milliseconds
    /// (`elapsed_ms > 0`, `busy_ns <= elapsed_ms * 10^6`): the fraction
    /// `busy_ns / (elapsed_ms * 10^6)`, in `[0, 1]`.
    Nanos { busy_ns: u64, elapsed_ms: u64 },
    /// A percentage the driver reports itself: the fraction `percentage / 100`.
    Percent(IntegerPercentage),
    /// `busy` of `total` engine cycles (`0 < total`, `busy <= total`): the
    /// fraction `busy / total`, in `[0, 1]`.
    Cycles { busy: u64, total: u64 },
}

/// `a - b`, or 0 when `b` is larger.
pub open spec fn sat_sub(a: u64, b: u64) -> u64 {
    if a >= b {
        (a - b) as u64
    } else {
        0
    }
}

/// `busy`, or the span of `ms` milliseconds in nanoseconds when it is longer.
pub open spec fn busy_within_span(busy: u64, ms: u64) -> u64 {
    if busy as int <= ms as int * 1_000_000 {
        busy
    } else {
        (ms as int * 1_000_000) as u64
    }
}

/// `busy`, or `total` when it is larger.
pub open spec fn busy_within_total(busy: u64, total: u64) -> u64 {
    if busy <= total {
        busy
    } else {
        total
    }
}

/// Busy time over a time span, no longer than the span: nothing for an empty
/// span.
pub open spec fn nanos_delta(new: u64, old: u64, time_delta_ms: u64) -> Seq<UsageDelta> {
    if time_delta_ms == 0 {
        Seq::empty()
    } else {
        seq![
            UsageDelta::Nanos {
                busy_ns: busy_within_span(sat_sub(new, old), time_delta_ms),
                elapsed_ms: time_delta_ms,
            },
        ]
    }
}

/// Busy cycles over total cycles, no more than the total: nothing when the
/// total did not advance.
pub open spec fn cycles_delta(new: u64, old: u64, new_total: u64, old_total: u64) -> Seq<
    UsageDelta,
> {
    if sat_sub(new_total, old_total) == 0 {
        Seq::empty()
    } else {
        seq![
            UsageDelta::Cycles {
                busy: busy_within_total(sat_sub(new, old), sat_sub(new_total, old_total)),
                total: sat_sub(new_total, old_total),
            },
        ]
    }
}

/// The deltas of the graphics engine between `new` and `old`; xe counts
/// render and compute cycles separately, and the larger counts.
pub open spec fn gfx_deltas(new: GpuUsageStats, old: GpuUsageStats, ms: u64) -> Seq<UsageDelta> {
    match (new, old) {
        (GpuUsageStats::AmdgpuStats { gfx_ns: a, .. }, GpuUsageStats::AmdgpuStats { gfx_ns: b, .. }) => nanos_delta(a, b, ms),
        (GpuUsageStats::I915Stats { gfx_ns: a, .. }, GpuUsageStats::I915Stats { gfx_ns: b, .. }) => nanos_delta(a, b, ms),
        (GpuUsageStats::V3dStats { gfx_ns: a, .. }, GpuUsageStats::V3dStats { gfx_ns: b, .. }) => nanos_delta(a, b, ms),
        (GpuUsageStats::NvidiaStats { gfx_percentage: p, .. }, GpuUsageStats::NvidiaStats { .. }) => seq![UsageDelta::Percent(p)],
        (
            GpuUsageStats::XeStats {
                gfx_cycles: a,
                gfx_total_cycles: at,
                compute_cycles: c,
                compute_total_cycles: ct,
                ..
            },
            GpuUsageStats::XeStats {
                gfx_cycles: b,
                gfx_total_cycles: bt,
                compute_cycles: d,
                compute_total_cycles: dt,
                ..
            },
        ) => cycles_delta(a, b, at, bt) + cycles_delta(c, d, ct, dt),
        _ => Seq::empty(),
    }
}

/// The deltas of the video-encode engine between `new` and `old`.
pub open spec fn enc_deltas(new: GpuUsageStats, old: GpuUsageStats, ms: u64) -> Seq<UsageDelta> {
    match (new, old) {
        (GpuUsageStats::AmdgpuStats { enc_ns: a, .. }, GpuUsageStats::AmdgpuStats { enc_ns: b, .. }) => nanos_delta(a, b, ms),
        (GpuUsageStats::I915Stats { video_ns: a, .. }, GpuUsageStats::I915Stats { video_ns: b, .. }) => nanos_delta(a, b, ms),
        (GpuUsageStats::NvidiaStats { enc_percentage: p, .. }, GpuUsageStats::NvidiaStats { .. }) => seq![UsageDelta::Percent(p)],
        (
            GpuUsageStats::XeStats { video_cycles: a, video_total_cycles: at, .. },
            GpuUsageStats::XeStats { video_cycles: b, video_total_cycles: bt, .. },
        ) => cycles_delta(a, b, at, bt),
        _ => Seq::empty(),
    }
}

/// The deltas of the video-decode engine between `new` and `old`; i915 and
/// xe have one video engine for encoding and decoding.
pub open spec fn dec_deltas(new: GpuUsageStats, old: GpuUsageStats, ms: u64) -> Seq<UsageDelta> {
    match (new, old) {
        (GpuUsageStats::AmdgpuStats { dec_ns: a, .. }, GpuUsageStats::AmdgpuStats { dec_ns: b, .. }) => nanos_delta(a, b, ms),
        (GpuUsageStats::I915Stats { video_ns: a, .. }, GpuUsageStats::I915Stats { video_ns: b, .. }) => nanos_delta(a, b, ms),
        (GpuUsageStats::NvidiaStats { dec_percentage: p, .. }, GpuUsageStats::NvidiaStats { .. }) => seq![UsageDelta::Percent(p)],
        (
            GpuUsageStats::XeStats { video_cycles: a, video_total_cycles: at, .. },
            GpuUsageStats::XeStats { video_cycles: b, video_total_cycles: bt, .. },
        ) => cycles_delta(a, b, at, bt),
        _ => Seq::empty(),
    }
}

fn saturating_sub(a: u64, b: u64) -> (r: u64)
    ensures
        r == sat_sub(a, b),
{
    if a >= b {
        a - b
    } else {
        0
    }
}

/// The busy time, no longer than a span of `ms` milliseconds.
pub fn clamp_to_span(busy: u64, ms: u64) -> (r: u64)
    ensures
        r == busy_within_span(busy, ms),
{
    if ms > u64::MAX / 1_000_000 {
        busy
    } else {
        let span = ms * 1_000_000;
        if busy <= span {
            busy
        } else {
            span
        }
    }
}

/// Pushes the busy-time delta, if the span is not empty.
pub(crate) fn push_nanos(out: &mut Vec<UsageDelta>, current: u64, previous: u64, time_delta_ms: u64)
    ensures
        final(out)@ == old(out)@ + nanos_delta(current, previous, time_delta_ms),
{
    if time_delta_ms != 0 {
        out.push(
            UsageDelta::Nanos {
                busy_ns: clamp_to_span(saturating_sub(current, previous), time_delta_ms),
                elapsed_ms: time_delta_ms,
            },
        );
    }
    assert(final(out)@ =~= old(out)@ + nanos_delta(current, previous, time_delta_ms));
}

fn push_cycles(
    out: &mut Vec<UsageDelta>,
    current: u64,
    previous: u64,
    current_total: u64,
    previous_total: u64,
)
    ensures
        final(out)@ == old(out)@ + cycles_delta(current, previous, current_total, previous_total),
{
    let total = saturating_sub(current_total, previous_total);
    if total != 0 {
        let busy = saturating_sub(current, previous);
        let busy = if busy <= total {
            busy
        } else {
            total
        };
        out.push(UsageDelta::Cycles { busy, total });
    }
    assert(final(out)@ =~= old(out)@ + cycles_delta(current, previous, current_total, previous_total));
}

impl GpuUsageStats {
    /// What the graphics engine utilisation relative to `old` is computed
    /// from; empty when it cannot be computed.
    pub fn gfx_usage(&self, old: &Self, time_delta_ms: u64) -> (r: Vec<UsageDelta>)
        ensures
            r@ == gfx_deltas(*self, *old, time_delta_ms),
    {
        let mut out: Vec<UsageDelta> = Vec::new();
        match (self, old) {
            (Self::AmdgpuStats { gfx_ns: a, .. }, Self::AmdgpuStats { gfx_ns: b, .. })
            | (Self::I915Stats { gfx_ns: a, .. }, Self::I915Stats { gfx_ns: b, .. })
            | (Self::V3dStats { gfx_ns: a, .. }, Self::V3dStats { gfx_ns: b, .. }) => {
                push_nanos(&mut out, *a, *b, time_delta_ms);
            },
            (Self::NvidiaStats { gfx_percentage, .. }, Self::NvidiaStats { .. }) => {
                out.push(UsageDelta::Percent(*gfx_percentage));
            },
            (
                Self::XeStats {
                    gfx_cycles: a_gfx,
                    gfx_total_cycles: a_gfx_total,
                    compute_cycles: a_cmp,
                    compute_total_cycles: a_cmp_total,
                    ..
                },
                Self::XeStats {
                    gfx_cycles: b_gfx,
                    gfx_total_cycles: b_gfx_total,
                    compute_cycles: b_cmp,
                    compute_total_cycles: b_cmp_total,
                    ..
                },
            ) => {
                push_cycles(&mut out, *a_gfx, *b_gfx, *a_gfx_total, *b_gfx_total);
                push_cycles(&mut out, *a_cmp, *b_cmp, *a_cmp_total, *b_cmp_total);
            },
            _ => {},
        }
        assert(out@ =~= gfx_deltas(*self, *old, time_delta_ms));
        out
    }

    /// What the video-encode engine utilisation relative to `old` is
    /// computed from; empty when it cannot be computed.
    pub fn enc_usage(&self, old: &Self, time_delta_ms: u64) -> (r: Vec<UsageDelta>)
        ensures
            r@ == enc_deltas(*self, *old, time_delta_ms),
    {
        let mut out: Vec<UsageDelta> = Vec::new();
        match (self, old) {
            (Self::AmdgpuStats { enc_ns: a, .. }, Self::AmdgpuStats { enc_ns: b, .. })
            | (Self::I915Stats { video_ns: a, .. }, Self::I915Stats { video_ns: b, .. }) => {
                push_nanos(&mut out, *a, *b, time_delta_ms);
            },
            (Self::NvidiaStats { enc_percentage, .. }, Self::NvidiaStats { .. }) => {
                out.push(UsageDelta::Percent(*enc_percentage));
            },
            (
                Self::XeStats { video_cycles: a, video_total_cycles: a_total, .. },
                Self::XeStats { video_cycles: b, video_total_cycles: b_total, .. },
            ) => {
                push_cycles(&mut out, *a, *b, *a_total, *b_total);
            },
            _ => {},
        }
        assert(out@ =~= enc_deltas(*self, *old, time_delta_ms));
        out
    }

    /// What the video-decode engine utilisation relative to `old` is
    /// computed from; empty when it cannot be computed.
    pub fn dec_usage(&self, old: &Self, time_delta_ms: u64) -> (r: Vec<UsageDelta>)
        ensures
            r@ == dec_deltas(*self, *old, time_delta_ms),
    {
        let mut out: Vec<UsageDelta> = Vec::new();
        match (self, old) {
            (Self::AmdgpuStats { dec_ns: a, .. }, Self::AmdgpuStats { dec_ns: b, .. })
            | (Self::I915Stats { video_ns: a, .. }, Self::I915Stats { video_ns: b, .. }) => {
                push_nanos(&mut out, *a, *b, time_delta_ms);
            },
            (Self::NvidiaStats { dec_percentage, .. }, Self::NvidiaStats { .. }) => {
                out.push(UsageDelta::Percent(*dec_percentage));
            },
            (
                Self::XeStats { video_cycles: a, video_total_cycles: a_total, .. },
                Self::XeStats { video_cycles: b, video_total_cycles: b_total, .. },
            ) => {
                push_cycles(&mut out, *a, *b, *a_total, *b_total);
            },
            _ => {},
        }
        assert(out@ =~= dec_deltas(*self, *old, time_delta_ms));
        out
    }
}

/// Snapshots of different drivers give no utilisation.
pub proof fn lemma_no_usage_across_drivers(new: GpuUsageStats, old: GpuUsageStats, ms: u64)
    requires
        !same_variant(new, old),
    ensures
        gfx_deltas(new, old, ms).len() == 0,
        enc_deltas(new, old, ms).len() == 0,
        dec_deltas(new, old, ms).len() == 0,
{
}

/// A delta whose fraction lies in `[0, 1]`: a non-empty span with no more
/// busy time than its length, or a non-zero total with no more busy cycles
/// than it. A percentage is at most 100 by the type's invariant.
pub open spec fn within_range(d: UsageDelta) -> bool {
    match d {
        UsageDelta::Nanos { busy_ns, elapsed_ms } => elapsed_ms > 0 && busy_ns as int
            <= elapsed_ms as int * 1_000_000,
        UsageDelta::Percent(_) => true,
        UsageDelta::Cycles { busy, total } => 0 < total && busy <= total,
    }
}

/// Every engine utilisation lies in `[0, 1]`: no delta counts more busy time
/// than its span or more busy cycles than their total.
pub proof fn lemma_usage_within_range(new: GpuUsageStats, old: GpuUsageStats, ms: u64)
    ensures
        forall|i: int| 0 <= i < gfx_deltas(new, old, ms).len() ==> within_range(#[trigger] gfx_deltas(new, old, ms)[i]),
        forall|i: int| 0 <= i < enc_deltas(new, old, ms).len() ==> within_range(#[trigger] enc_deltas(new, old, ms)[i]),
        forall|i: int| 0 <= i < dec_deltas(new, old, ms).len() ==> within_range(#[trigger] dec_deltas(new, old, ms)[i]),
{
}

/// On GPUs whose one video engine both encodes and decodes (i915 and xe),
/// the decode utilisation is the encode utilisation.
pub proof fn lemma_unified_media_engine(new: GpuUsageStats, old: GpuUsageStats, ms: u64)
    requires
        (new is I915Stats && old is I915Stats) || (new is XeStats && old is XeStats),
    ensures
        dec_deltas(new, old, ms) == enc_deltas(new, old, ms),
{
}

/// Every counter of a snapshot, in field order; percentages by their value.
pub open spec fn counters(s: GpuUsageStats) -> Seq<int> {
    match s {
        GpuUsageStats::AmdgpuStats { gfx_ns, enc_ns, dec_ns, mem_bytes } => seq![
            gfx_ns as int,
            enc_ns as int,
            dec_ns as int,
            mem_bytes as int,
        ],
        GpuUsageStats::I915Stats { gfx_ns, video_ns } => seq![gfx_ns as int, video_ns as int],
        GpuUsageStats::NvidiaStats { gfx_percentage, enc_percentage, dec_percentage, mem_bytes } =>
            seq![
            gfx_percentage.spec_value() as int,
            enc_percentage.spec_value() as int,
            dec_percentage.spec_value() as int,
            mem_bytes as int,
        ],
        GpuUsageStats::V3dStats { gfx_ns, mem_bytes } => seq![gfx_ns as int, mem_bytes as int],
        GpuUsageStats::XeStats {
            gfx_cycles,
            gfx_total_cycles,
            compute_cycles,
            compute_total_cycles,
            video_cycles,
            video_total_cycles,
            mem_bytes,
        } => seq![
            gfx_cycles as int,
            gfx_total_cycles as int,
            compute_cycles as int,
            compute_total_cycles as int,
            video_cycles as int,
            video_total_cycles as int,
            mem_bytes as int,
        ],
    }
}

/// Merging two snapshots of one driver takes, in every counter, the larger
/// of the two: each counter of the merge is at least that of either input
/// and is one of them.
pub proof fn lemma_greater_counterwise_max(a: GpuUsageStats, b: GpuUsageStats)
    requires
        same_variant(a, b),
    ensures
        same_variant(spec_greater(a, b), a),
        counters(spec_greater(a, b)).len() == counters(a).len(),
        counters(a).len() == counters(b).len(),
        forall|i: int|
            0 <= i < counters(a).len() ==> {
                &&& #[trigger] counters(spec_greater(a, b))[i] >= counters(a)[i]
                &&& counters(spec_greater(a, b))[i] >= counters(b)[i]
                &&& (counters(spec_greater(a, b))[i] == counters(a)[i] || counters(
                    spec_greater(a, b),
                )[i] == counters(b)[i])
            },
{
}

/// The engine deltas of the drivers that count busy nanoseconds: each engine
/// gives, over a non-empty span, its busy time (new minus old, or 0 when the
/// counter went back) capped at the span, and nothing over an empty span.
/// amdgpu reads graphics, encode and decode from their own counters; i915
/// reads graphics from its render counter and both video directions from its
/// video counter; v3d has graphics only.
pub proof fn lemma_nanosecond_engines(new: GpuUsageStats, old: GpuUsageStats, ms: u64)
    ensures
        match (new, old) {
            (
                GpuUsageStats::AmdgpuStats { gfx_ns: g1, enc_ns: e1, dec_ns: d1, .. },
                GpuUsageStats::AmdgpuStats { gfx_ns: g0, enc_ns: e0, dec_ns: d0, .. },
            ) => {
                &&& gfx_deltas(new, old, ms) == busy_over_span(g1, g0, ms)
                &&& enc_deltas(new, old, ms) == busy_over_span(e1, e0, ms)
                &&& dec_deltas(new, old, ms) == busy_over_span(d1, d0, ms)
            },
            (
                GpuUsageStats::I915Stats { gfx_ns: g1, video_ns: v1 },
                GpuUsageStats::I915Stats { gfx_ns: g0, video_ns: v0 },
            ) => {
                &&& gfx_deltas(new, old, ms) == busy_over_span(g1, g0, ms)
                &&& enc_deltas(new, old, ms) == busy_over_span(v1, v0, ms)
                &&& dec_deltas(new, old, ms) == busy_over_span(v1, v0, ms)
            },
            (
                GpuUsageStats::V3dStats { gfx_ns: g1, .. },
                GpuUsageStats::V3dStats { gfx_ns: g0, .. },
            ) => {
                &&& gfx_deltas(new, old, ms) == busy_over_span(g1, g0, ms)
                &&& enc_deltas(new, old, ms).len() == 0
                &&& dec_deltas(new, old, ms).len() == 0
            },
            (
                GpuUsageStats::NvidiaStats { gfx_percentage: g, enc_percentage: e, dec_percentage: d, .. },
                GpuUsageStats::NvidiaStats { .. },
            ) => {
                &&& gfx_deltas(new, old, ms) == seq![UsageDelta::Percent(g)]
                &&& enc_deltas(new, old, ms) == seq![UsageDelta::Percent(e)]
                &&& dec_deltas(new, old, ms) == seq![UsageDelta::Percent(d)]
            },
            _ => true,
        },
{
}

/// Busy nanoseconds between two readings over `ms` milliseconds, capped at
/// the span, written out: empty for an empty span.
pub open spec fn busy_over_span(new: u64, old: u64, ms: u64) -> Seq<UsageDelta> {
    let busy: int = if new >= old { new - old } else { 0 };
    let span: int = ms as int * 1_000_000;
    if ms == 0 {
        Seq::empty()
    } else {
        seq![UsageDelta::Nanos { busy_ns: (if busy <= span { busy } else { span }) as u64, elapsed_ms: ms }]
    }
}

/// Busy cycles between two readings against the cycles that passed, capped
/// at them, written out: empty when no cycles passed.
pub open spec fn busy_over_total(new: u64, old: u64, new_total: u64, old_total: u64) -> Seq<UsageDelta> {
    let busy: int = if new >= old { new - old } else { 0 };
    let total: int = if new_total >= old_total { new_total - old_total } else { 0 };
    if total == 0 {
        Seq::empty()
    } else {
        seq![UsageDelta::Cycles { busy: (if busy <= total { busy } else { total }) as u64, total: total as u64 }]
    }
}

/// xe counts render and compute cycles separately, and both count as
/// graphics: the graphics deltas are those of the render engine, then those
/// of the compute engine, so a process busy only on compute still shows
/// graphics utilisation. Encode and decode both read the video engine.
pub proof fn lemma_xe_engines(new: GpuUsageStats, old: GpuUsageStats, ms: u64)
    ensures
        match (new, old) {
            (
                GpuUsageStats::XeStats {
                    gfx_cycles: r1,
                    gfx_total_cycles: rt1,
                    compute_cycles: c1,
                    compute_total_cycles: ct1,
                    video_cycles: v1,
                    video_total_cycles: vt1,
                    ..
                },
                GpuUsageStats::XeStats {
                    gfx_cycles: r0,
                    gfx_total_cycles: rt0,
                    compute_cycles: c0,
                    compute_total_cycles: ct0,
                    video_cycles: v0,
                    video_total_cycles: vt0,
                    ..
                },
            ) => {
                &&& gfx_deltas(new, old, ms) == busy_over_total(r1, r0, rt1, rt0) + busy_over_total(
                    c1,
                    c0,
                    ct1,
                    ct0,
                )
                &&& ct1 > ct0 ==> gfx_deltas(new, old, ms).len() >= 1
                &&& enc_deltas(new, old, ms) == busy_over_total(v1, v0, vt1, vt0)
                &&& dec_deltas(new, old, ms) == busy_over_total(v1, v0, vt1, vt0)
            },
            _ => true,
        },
{
}

} // verus!
