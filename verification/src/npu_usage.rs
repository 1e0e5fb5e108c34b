//! Per-process NPU counters as read from DRM fdinfo.

use vstd::prelude::*;

use crate::gpu_usage::{max_u64, nanos_delta, push_nanos, UsageDelta};

verus! {

/// Raw counter snapshot for one NPU as seen by one process.
#[derive(Debug, Clone, Copy, Hash, PartialEq, Eq, Structural)]
pub enum NpuUsageStats {
    AmdxdnaStats { usage_ns: u64, mem_bytes: u64 },
}

/// Component-wise maximum of two snapshots.
pub open spec fn spec_npu_greater(a: NpuUsageStats, b: NpuUsageStats) -> NpuUsageStats {
    match (a, b) {
        (
            NpuUsageStats::AmdxdnaStats { usage_ns: a0, mem_bytes: a1 },
            NpuUsageStats::AmdxdnaStats { usage_ns: b0, mem_bytes: b1 },
        ) => NpuUsageStats::AmdxdnaStats { usage_ns: max_u64(a0, b0), mem_bytes: max_u64(a1, b1) },
    }
}

/// The memory in bytes that `s` reports.
pub open spec fn spec_npu_mem_bytes(s: NpuUsageStats) -> Option<u64> {
    match s {
        NpuUsageStats::AmdxdnaStats { mem_bytes, .. } => Some(mem_bytes),
    }
}

impl NpuUsageStats {
    /// Memory usage in bytes, or `None` if unavailable
    pub fn mem_bytes(&self) -> (r: Option<u64>)
        ensures
            r == spec_npu_mem_bytes(*self),
    {
        match self {
            Self::AmdxdnaStats { mem_bytes, .. } => Some(*mem_bytes),
        }
    }

    /// Component-wise maximum of two snapshots of the same variant
    pub fn greater(&self, other: &Self) -> (r: Self)
        ensures
            r == spec_npu_greater(*self, *other),
    {
        match (self, other) {
            (
                Self::AmdxdnaStats { usage_ns: a_ns, mem_bytes: a_mem_bytes },
                Self::AmdxdnaStats { usage_ns: b_ns, mem_bytes: b_mem_bytes },
            ) => Self::AmdxdnaStats {
                usage_ns: if *a_ns >= *b_ns {
                    *a_ns
                } else {
                    *b_ns
                },
                mem_bytes: if *a_mem_bytes >= *b_mem_bytes {
                    *a_mem_bytes
                } else {
                    *b_mem_bytes
                },
            },
        }
    }
}


impl NpuUsageStats {
    /// What the NPU engine utilisation relative to `old` is computed from;
    /// empty for an empty time span.
    pub fn usage(&self, old: &Self, time_delta_ms: u64) -> (r: Vec<UsageDelta>)
        ensures
            r@ == match (*self, *old) {
                (
                    NpuUsageStats::AmdxdnaStats { usage_ns: a, .. },
                    NpuUsageStats::AmdxdnaStats { usage_ns: b, .. },
                ) => nanos_delta(a, b, time_delta_ms),
            },
    {
        let mut out: Vec<UsageDelta> = Vec::new();
        match (self, old) {
            (Self::AmdxdnaStats { usage_ns: a, .. }, Self::AmdxdnaStats { usage_ns: b, .. }) => {
                push_nanos(&mut out, *a, *b, time_delta_ms);
            },
        }
        assert(out@ =~= match (*self, *old) {
            (
                NpuUsageStats::AmdxdnaStats { usage_ns: a, .. },
                NpuUsageStats::AmdxdnaStats { usage_ns: b, .. },
            ) => nanos_delta(a, b, time_delta_ms),
        });
        out
    }
}

/// Merging NPU snapshots is commutative, associative and idempotent.
pub proof fn lemma_npu_greater_laws(a: NpuUsageStats, b: NpuUsageStats, c: NpuUsageStats)
    ensures
        spec_npu_greater(a, b) == spec_npu_greater(b, a),
        spec_npu_greater(spec_npu_greater(a, b), c) == spec_npu_greater(a, spec_npu_greater(b, c)),
        spec_npu_greater(a, a) == a,
{
}

/// Merging two NPU snapshots takes the larger of the two in each counter:
/// each counter of the merge is at least that of either input and is one of
/// them.
pub proof fn lemma_npu_greater_counterwise_max(a: NpuUsageStats, b: NpuUsageStats)
    ensures
        match (a, b, spec_npu_greater(a, b)) {
            (
                NpuUsageStats::AmdxdnaStats { usage_ns: a0, mem_bytes: a1 },
                NpuUsageStats::AmdxdnaStats { usage_ns: b0, mem_bytes: b1 },
                NpuUsageStats::AmdxdnaStats { usage_ns: m0, mem_bytes: m1 },
            ) => {
                &&& m0 >= a0 && m0 >= b0 && (m0 == a0 || m0 == b0)
                &&& m1 >= a1 && m1 >= b1 && (m1 == a1 || m1 == b1)
            },
        },
{
}

} // verus!
