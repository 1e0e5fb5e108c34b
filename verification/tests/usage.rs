use resources::gpu_usage::{
    clamp_to_span, GpuIdentifier, GpuUsageStats, IntegerPercentage, IntegerPercentageError, UsageDelta,
};
use resources::npu_usage::NpuUsageStats;
use resources::pci_slot::PciSlot;

fn pct(v: u8) -> IntegerPercentage {
    IntegerPercentage::try_new(v).unwrap()
}

#[test]
fn percentage_bounds() {
    assert_eq!(
        IntegerPercentage::try_new(101),
        Err(IntegerPercentageError::LessOrEqualViolated)
    );
    assert_eq!(pct(100).into_inner(), 100);
    assert_eq!(IntegerPercentage::default().into_inner(), 0);
    assert_eq!(pct(3).larger(pct(70)).into_inner(), 70);
}

#[test]
fn greater_is_componentwise_max() {
    let a = GpuUsageStats::AmdgpuStats {
        gfx_ns: 1,
        enc_ns: 9,
        dec_ns: 2,
        mem_bytes: 100,
    };
    let b = GpuUsageStats::AmdgpuStats {
        gfx_ns: 5,
        enc_ns: 3,
        dec_ns: 2,
        mem_bytes: 50,
    };
    let m = GpuUsageStats::AmdgpuStats {
        gfx_ns: 5,
        enc_ns: 9,
        dec_ns: 2,
        mem_bytes: 100,
    };
    assert_eq!(a.greater(&b), m);
    assert_eq!(b.greater(&a), m);
    assert_eq!(a.greater(&a), a);
}

#[test]
fn greater_of_nvidia_percentages() {
    let a = GpuUsageStats::NvidiaStats {
        gfx_percentage: pct(10),
        enc_percentage: pct(50),
        dec_percentage: pct(0),
        mem_bytes: 7,
    };
    let b = GpuUsageStats::NvidiaStats {
        gfx_percentage: pct(20),
        enc_percentage: pct(5),
        dec_percentage: pct(1),
        mem_bytes: 3,
    };
    assert_eq!(
        a.greater(&b),
        GpuUsageStats::NvidiaStats {
            gfx_percentage: pct(20),
            enc_percentage: pct(50),
            dec_percentage: pct(1),
            mem_bytes: 7,
        }
    );
}

#[test]
fn greater_of_different_drivers_keeps_self() {
    let a = GpuUsageStats::I915Stats {
        gfx_ns: 1,
        video_ns: 2,
    };
    let b = GpuUsageStats::V3dStats {
        gfx_ns: 10,
        mem_bytes: 20,
    };
    assert_eq!(a.greater(&b), a);
    assert_eq!(b.greater(&a), b);
}

#[test]
fn memory_per_driver() {
    assert_eq!(
        GpuUsageStats::I915Stats {
            gfx_ns: 1,
            video_ns: 2
        }
        .mem_bytes(),
        None
    );
    assert_eq!(
        GpuUsageStats::V3dStats {
            gfx_ns: 1,
            mem_bytes: 2
        }
        .mem_bytes(),
        Some(2)
    );
    assert_eq!(
        NpuUsageStats::AmdxdnaStats {
            usage_ns: 1,
            mem_bytes: 4
        }
        .mem_bytes(),
        Some(4)
    );
}

#[test]
fn npu_greater() {
    let a = NpuUsageStats::AmdxdnaStats {
        usage_ns: 1,
        mem_bytes: 4,
    };
    let b = NpuUsageStats::AmdxdnaStats {
        usage_ns: 3,
        mem_bytes: 2,
    };
    assert_eq!(
        a.greater(&b),
        NpuUsageStats::AmdxdnaStats {
            usage_ns: 3,
            mem_bytes: 4
        }
    );
}

#[test]
fn identifier_text_and_default() {
    assert_eq!(GpuIdentifier::default(), GpuIdentifier::Enumerator(0));
    assert_eq!(GpuIdentifier::Enumerator(12).to_string(), "12");
    assert_eq!(
        GpuIdentifier::PciSlot(PciSlot::try_new(0, 0x2b, 0, 0).unwrap()).to_string(),
        "0000:2b:00.0"
    );
}

#[test]
fn busy_time_never_exceeds_the_span() {
    let new = GpuUsageStats::AmdgpuStats { gfx_ns: 3_000_000, enc_ns: 0, dec_ns: 0, mem_bytes: 0 };
    let old = GpuUsageStats::AmdgpuStats { gfx_ns: 1_000_000, enc_ns: 0, dec_ns: 0, mem_bytes: 0 };
    assert_eq!(
        new.gfx_usage(&old, 1),
        vec![UsageDelta::Nanos { busy_ns: 1_000_000, elapsed_ms: 1 }]
    );
    assert_eq!(
        new.gfx_usage(&old, 4),
        vec![UsageDelta::Nanos { busy_ns: 2_000_000, elapsed_ms: 4 }]
    );
    assert!(new.gfx_usage(&old, 0).is_empty());
}

#[test]
fn busy_cycles_never_exceed_the_total() {
    let xe = |c: u64, t: u64| GpuUsageStats::XeStats {
        gfx_cycles: 0,
        gfx_total_cycles: 0,
        compute_cycles: 0,
        compute_total_cycles: 0,
        video_cycles: c,
        video_total_cycles: t,
        mem_bytes: 0,
    };
    assert_eq!(xe(500, 100).enc_usage(&xe(0, 0), 10), vec![UsageDelta::Cycles { busy: 100, total: 100 }]);
    assert_eq!(xe(50, 100).enc_usage(&xe(0, 0), 10), vec![UsageDelta::Cycles { busy: 50, total: 100 }]);
}

#[test]
fn i915_decode_is_encode() {
    let new = GpuUsageStats::I915Stats { gfx_ns: 0, video_ns: 700_000 };
    let old = GpuUsageStats::I915Stats { gfx_ns: 0, video_ns: 200_000 };
    assert_eq!(
        new.dec_usage(&old, 2),
        vec![UsageDelta::Nanos { busy_ns: 500_000, elapsed_ms: 2 }]
    );
    assert_eq!(new.dec_usage(&old, 2), new.enc_usage(&old, 2));
}

#[test]
fn span_clamp() {
    assert_eq!(clamp_to_span(5_000_000, 2), 2_000_000);
    assert_eq!(clamp_to_span(5, 2), 5);
    assert_eq!(clamp_to_span(u64::MAX, u64::MAX), u64::MAX);
}
