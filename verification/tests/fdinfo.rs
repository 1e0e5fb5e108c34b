use resources::fdinfo::{extract_gpu_usage, extract_npu_usage, Fdinfo, FdinfoError};
use resources::gpu_usage::{GpuIdentifier, GpuUsageStats};
use resources::npu_usage::NpuUsageStats;
use resources::pci_slot::PciSlot;

const AMD: &str = "pos:\t0\nflags:\t02100002\ndrm-driver:\tamdgpu\ndrm-pdev:\t0000:03:00.0\ndrm-engine-gfx:\t1000 ns\ndrm-engine-compute:\t500 ns\ndrm-engine-enc:\t7 ns\ndrm-memory-vram:\t2048 KiB\ndrm-memory-gtt:\t16 KiB\n";

#[test]
fn fields_are_trimmed_pairs() {
    let f = Fdinfo::parse(7, 3, "a:  1 \n no colon\nb:c:d\n\n");
    assert_eq!(f.pid, 7);
    assert_eq!(f.fd_num, 3);
    assert_eq!(
        f.fields,
        vec![
            ("a".to_string(), "1".to_string()),
            ("b".to_string(), "c:d".to_string())
        ]
    );
}

#[test]
fn last_value_of_a_key_wins() {
    let f = Fdinfo::parse(1, 1, "k: 1\nk: 2\n");
    assert_eq!(f.get("k").map(|s| s.as_str()), Some("2"));
    assert_eq!(f.get("missing"), None);
}

#[test]
fn amdgpu_counters() {
    let f = Fdinfo::parse(1, 4, AMD);
    let (id, stats) = extract_gpu_usage(&f).unwrap();
    assert_eq!(
        id,
        GpuIdentifier::PciSlot(PciSlot::try_new(0, 3, 0, 0).unwrap())
    );
    assert_eq!(
        stats,
        GpuUsageStats::AmdgpuStats {
            gfx_ns: 1500,
            enc_ns: 7,
            dec_ns: 0,
            mem_bytes: 2064 * 1024
        }
    );
}

#[test]
fn i915_without_pdev_is_enumerator_zero() {
    let f = Fdinfo::parse(1, 4, "drm-driver: i915\ndrm-engine-render: 10 ns\ndrm-engine-video: 5 ns\n");
    assert_eq!(
        extract_gpu_usage(&f).unwrap(),
        (
            GpuIdentifier::Enumerator(0),
            GpuUsageStats::I915Stats {
                gfx_ns: 10,
                video_ns: 5
            }
        )
    );
}

#[test]
fn xe_counts_cycles() {
    let f = Fdinfo::parse(
        1,
        4,
        "drm-driver: xe\ndrm-cycles-rcs: 30\ndrm-total-cycles-rcs: 100\ndrm-total-gtt: 1 KiB\ndrm-total-vram0: 2 KiB\n",
    );
    assert_eq!(
        extract_gpu_usage(&f).unwrap().1,
        GpuUsageStats::XeStats {
            gfx_cycles: 30,
            gfx_total_cycles: 100,
            compute_cycles: 0,
            compute_total_cycles: 0,
            video_cycles: 0,
            video_total_cycles: 0,
            mem_bytes: 3072
        }
    );
}

#[test]
fn unsupported_gpu_driver() {
    let f = Fdinfo::parse(1, 4, "drm-driver: nouveau\n");
    assert_eq!(
        extract_gpu_usage(&f),
        Err(FdinfoError::UnsupportedGpuDriver("nouveau".to_string()))
    );
}

#[test]
fn no_driver_field() {
    let f = Fdinfo::parse(1, 4, "pos: 0\n");
    assert_eq!(extract_gpu_usage(&f), Err(FdinfoError::NoDriverField));
    assert_eq!(extract_npu_usage(&f), Err(FdinfoError::NoDriverField));
}

#[test]
fn amdxdna_npu_counters() {
    let f = Fdinfo::parse(
        1,
        4,
        "drm-driver: amdxdna_accel_driver\ndrm-pdev: 0000:c6:00.1\ndrm-engine-npu-amdxdna: 99 ns\ndrm-total-memory: 4 KiB\n",
    );
    assert_eq!(
        extract_npu_usage(&f).unwrap(),
        (
            PciSlot::try_new(0, 0xc6, 0, 1).unwrap(),
            NpuUsageStats::AmdxdnaStats {
                usage_ns: 99,
                mem_bytes: 4096
            }
        )
    );
}

#[test]
fn gpu_driver_is_not_an_npu() {
    let f = Fdinfo::parse(1, 4, AMD);
    assert_eq!(
        extract_npu_usage(&f),
        Err(FdinfoError::UnsupportedNpuDriver("amdgpu".to_string()))
    );
}

#[test]
fn unparsable_amounts_count_as_zero() {
    let f = Fdinfo::parse(1, 4, "drm-driver: v3d\ndrm-engine-render: lots ns\ndrm-total-memory: 1 KiB\n");
    assert_eq!(
        extract_gpu_usage(&f).unwrap().1,
        GpuUsageStats::V3dStats {
            gfx_ns: 0,
            mem_bytes: 1024
        }
    );
}
