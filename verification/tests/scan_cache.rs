use resources::cache::ProcessDataCache;
use resources::gpu_usage::{GpuIdentifier, GpuUsageStats, IntegerPercentage, IntegerPercentageError};
use resources::nvidia::{
    stats_for_pid, utilization_since, NvidiaReading, NvidiaState, ProcessMemory, UtilSample,
};
use resources::pci_slot::PciSlot;
use resources::process::{is_process_dir, pid_from_name};
use resources::scan::{
    contains_bytes, fd_number, is_device_target, path_key_of, same_path, FdAction, FdScan, FdStage,
};

fn sample(pid: u32, sm: u32, enc: u32, dec: u32) -> UtilSample {
    UtilSample {
        pid,
        sm_util: sm,
        enc_util: enc,
        dec_util: dec,
    }
}

fn pct(v: u8) -> IntegerPercentage {
    IntegerPercentage::try_new(v).unwrap()
}

#[test]
fn nvidia_stats_are_summed_per_pid() {
    let samples = vec![sample(7, 30, 2, 0), sample(7, 20, 1, 3), sample(8, 90, 0, 0)];
    let procs = vec![
        ProcessMemory { pid: 7, used_bytes: Some(100) },
        ProcessMemory { pid: 7, used_bytes: None },
        ProcessMemory { pid: 7, used_bytes: Some(24) },
        ProcessMemory { pid: 9, used_bytes: Some(5000) },
    ];
    assert_eq!(
        stats_for_pid(7, &samples, &procs),
        Ok(GpuUsageStats::NvidiaStats {
            gfx_percentage: pct(50),
            enc_percentage: pct(3),
            dec_percentage: pct(3),
            mem_bytes: 124,
        })
    );
    assert_eq!(
        stats_for_pid(1, &samples, &procs),
        Ok(GpuUsageStats::NvidiaStats {
            gfx_percentage: pct(0),
            enc_percentage: pct(0),
            dec_percentage: pct(0),
            mem_bytes: 0,
        })
    );
}

#[test]
fn nvidia_percentage_from_low_byte() {
    // 356 = 256 + 100: the low byte is 100, a valid percentage
    let samples = vec![sample(3, 200, 0, 0), sample(3, 156, 0, 0)];
    assert_eq!(
        stats_for_pid(3, &samples, &Vec::new()),
        Ok(GpuUsageStats::NvidiaStats {
            gfx_percentage: pct(100),
            enc_percentage: pct(0),
            dec_percentage: pct(0),
            mem_bytes: 0,
        })
    );
    let too_much = vec![sample(3, 150, 0, 0)];
    assert_eq!(
        stats_for_pid(3, &too_much, &Vec::new()),
        Err(IntegerPercentageError::LessOrEqualViolated)
    );
}

#[test]
fn nvidia_window_is_five_seconds_back() {
    assert_eq!(utilization_since(10_000), 5_000_000);
    assert_eq!(utilization_since(1), 0);
    assert_eq!(utilization_since(u64::MAX), u64::MAX - 5_000_000);
}

#[test]
fn nvidia_state_reports_valid_gpus() {
    let mut state = NvidiaState::default();
    assert!(state.per_process_stats(7).is_empty());
    let a = PciSlot::try_new(0, 1, 0, 0).unwrap();
    let b = PciSlot::try_new(0, 2, 0, 0).unwrap();
    state.refresh(vec![
        NvidiaReading {
            slot: a,
            samples: vec![sample(7, 10, 0, 0)],
            processes: vec![ProcessMemory { pid: 7, used_bytes: Some(4096) }],
        },
        NvidiaReading {
            slot: b,
            samples: vec![sample(7, 101, 0, 0)],
            processes: Vec::new(),
        },
    ]);
    let stats = state.per_process_stats(7);
    assert_eq!(stats.len(), 1);
    assert_eq!(stats[0].0, GpuIdentifier::PciSlot(a));
    assert_eq!(stats[0].1.mem_bytes(), Some(4096));
}

#[test]
fn cache_marks_and_links() {
    let mut cache = ProcessDataCache::new();
    assert!(!cache.non_gpu_fdinfos_contains(10, 3));
    assert!(cache.non_gpu_fdinfos_insert(10, 3));
    assert!(!cache.non_gpu_fdinfos_insert(10, 3));
    assert!(cache.non_gpu_fdinfos_contains(10, 3));
    assert!(!cache.non_gpu_fdinfos_contains(3, 10));
    assert!(!cache.non_npu_fdinfos_contains(10, 3));
    assert!(cache.non_npu_fdinfos_insert(-1, usize::MAX));
    assert!(cache.non_npu_fdinfos_contains(-1, usize::MAX));
    assert!(cache.non_gpu_fdinfos_remove(10, 3));
    assert!(!cache.non_gpu_fdinfos_remove(10, 3));
    assert!(!cache.non_gpu_fdinfos_contains(10, 3));
    assert!(cache.non_npu_fdinfos_remove(-1, usize::MAX));

    assert_eq!(cache.symlink_cache_get(10, 3), None);
    assert_eq!(cache.symlink_cache_insert(10, 3, b"/dev/null".to_vec()), None);
    assert_eq!(cache.symlink_cache_get(10, 3), Some(&b"/dev/null".to_vec()));
    assert_eq!(
        cache.symlink_cache_insert(10, 3, b"/dev/zero".to_vec()),
        Some(b"/dev/null".to_vec())
    );
    assert_eq!(cache.symlink_cache_get(10, 4), None);
}

#[test]
fn cache_switched_off() {
    let mut cache = ProcessDataCache::new_no_fdinfo_cache();
    assert!(cache.non_gpu_fdinfos_insert(1, 1));
    assert!(cache.non_gpu_fdinfos_insert(1, 1));
    assert!(!cache.non_gpu_fdinfos_contains(1, 1));
    assert!(!cache.non_npu_fdinfos_remove(1, 1));
    assert_eq!(cache.symlink_cache_insert(1, 1, b"x".to_vec()), None);
    assert_eq!(cache.symlink_cache_get(1, 1), None);
    assert!(cache.nvidia_get(1).is_empty());
}

#[test]
fn scan_reads_each_target_once() {
    let mut cache = ProcessDataCache::new();
    let mut scan = FdScan::new(42);

    assert_eq!(scan.begin(&mut cache, 5), FdAction::ReadLink(FdStage::Dedupe));
    let action = scan.link_read(&mut cache, 5, FdStage::Dedupe, Some(b"/dev/dri/renderD128".to_vec()));
    assert_eq!(action, FdAction::ReadContent);
    scan.content_read(&mut cache, 5, Some("drm-driver:\tamdgpu\ndrm-pdev: 0000:03:00.0\n".to_owned()));

    // same target, other fd: left out
    assert_eq!(scan.begin(&mut cache, 6), FdAction::ReadLink(FdStage::Dedupe));
    let action = scan.link_read(&mut cache, 6, FdStage::Dedupe, Some(b"/dev/dri/renderD128".to_vec()));
    assert_eq!(action, FdAction::Skip);

    // the link of fd 5 is cached now
    assert_eq!(cache.symlink_cache_get(42, 5), Some(&b"/dev/dri/renderD128".to_vec()));

    // no link at all: read
    assert_eq!(scan.begin(&mut cache, 7), FdAction::ReadLink(FdStage::Dedupe));
    assert_eq!(scan.link_read(&mut cache, 7, FdStage::Dedupe, None), FdAction::ReadContent);
    scan.content_read(&mut cache, 7, None);
    assert!(cache.non_gpu_fdinfos_contains(42, 7));
    assert!(cache.non_npu_fdinfos_contains(42, 7));

    let fdinfos = scan.finish();
    assert_eq!(fdinfos.len(), 1);
    assert_eq!(fdinfos[0].pid, 42);
    assert_eq!(fdinfos[0].fd_num, 5);
    assert_eq!(fdinfos[0].get("drm-driver"), Some(&"amdgpu".to_owned()));
}

#[test]
fn scan_rechecks_marked_fds() {
    let mut cache = ProcessDataCache::new();
    cache.non_gpu_fdinfos_insert(9, 1);
    cache.non_npu_fdinfos_insert(9, 1);
    cache.non_gpu_fdinfos_insert(9, 2);
    cache.non_npu_fdinfos_insert(9, 2);
    cache.non_gpu_fdinfos_insert(9, 3);

    let mut scan = FdScan::new(9);
    // marked and not a device: left out
    assert_eq!(scan.begin(&mut cache, 1), FdAction::ReadLink(FdStage::Recheck));
    assert_eq!(
        scan.link_read(&mut cache, 1, FdStage::Recheck, Some(b"socket:[1234]".to_vec())),
        FdAction::Skip
    );
    assert!(cache.non_gpu_fdinfos_contains(9, 1));
    // on the next scan its link comes from the cache
    let mut next = FdScan::new(9);
    assert_eq!(next.begin(&mut cache, 1), FdAction::Skip);

    // marked, now an accelerator: unmarked and read
    assert_eq!(scan.begin(&mut cache, 2), FdAction::ReadLink(FdStage::Recheck));
    assert_eq!(
        scan.link_read(&mut cache, 2, FdStage::Recheck, Some(b"/dev/accel/accel0".to_vec())),
        FdAction::ReadContent
    );
    assert!(!cache.non_gpu_fdinfos_contains(9, 2));
    assert!(!cache.non_npu_fdinfos_contains(9, 2));

    // marked only as not GPU-related: looked at
    assert_eq!(scan.begin(&mut cache, 3), FdAction::ReadLink(FdStage::Dedupe));

    // marked but without a link: left out
    cache.non_npu_fdinfos_insert(9, 3);
    let mut other = FdScan::new(9);
    assert_eq!(other.begin(&mut cache, 3), FdAction::ReadLink(FdStage::Recheck));
    assert_eq!(other.link_read(&mut cache, 3, FdStage::Recheck, None), FdAction::Skip);
}

#[test]
fn scan_without_cache_reads_link_twice() {
    let mut cache = ProcessDataCache::new_no_fdinfo_cache();
    let mut scan = FdScan::new(1);
    assert_eq!(scan.begin(&mut cache, 4), FdAction::ReadLink(FdStage::Dedupe));
    assert_eq!(
        scan.link_read(&mut cache, 4, FdStage::Dedupe, Some(b"/dev/dri/card0".to_vec())),
        FdAction::ReadContent
    );
    // nothing is cached, so the link is asked for again
    assert_eq!(scan.begin(&mut cache, 4), FdAction::ReadLink(FdStage::Dedupe));
    assert_eq!(
        scan.link_read(&mut cache, 4, FdStage::Dedupe, Some(b"/dev/dri/card0".to_vec())),
        FdAction::Skip
    );
}

#[test]
fn device_targets() {
    assert!(is_device_target(&b"/dev/dri/renderD128".to_vec()));
    assert!(is_device_target(&b"/dev/accel/accel0".to_vec()));
    assert!(!is_device_target(&b"/dev/dri".to_vec()));
    assert!(!is_device_target(&b"pipe:[77]".to_vec()));
    assert!(contains_bytes(b"abcabd", b"abd"));
    assert!(!contains_bytes(b"ab", b"abc"));
    assert!(contains_bytes(b"", b""));
}

#[test]
fn fd_and_pid_names() {
    assert_eq!(fd_number("12"), 12);
    assert_eq!(fd_number("+3"), 3);
    assert_eq!(fd_number("x"), 0);
    assert_eq!(fd_number(""), 0);
    assert!(is_process_dir("123"));
    assert!(!is_process_dir("self"));
    assert!(!is_process_dir("4294967296"));
    assert_eq!(pid_from_name("42"), Some(42));
    assert_eq!(pid_from_name("-1"), Some(-1));
    assert_eq!(pid_from_name("abc"), None);
}

#[test]
fn link_targets_compare_as_paths() {
    let p = |s: &str| s.as_bytes().to_vec();
    assert!(same_path(&p("/dev/dri//renderD128"), &p("/dev/dri/renderD128")));
    assert!(same_path(&p("/dev/./dri/renderD128"), &p("/dev/dri/renderD128")));
    assert!(same_path(&p("/dev/dri/renderD128/"), &p("/dev/dri/renderD128")));
    assert!(!same_path(&p("./a"), &p("a")));
    assert!(same_path(&p("./a"), &p(".//a/.")));
    assert!(!same_path(&p("/a"), &p("a")));
    assert!(!same_path(&p("a/../b"), &p("b")));
    assert!(!same_path(&p("/dev/dri/card0"), &p("/dev/dri/card1")));
    let k = path_key_of(&p("//dev/./dri/"));
    assert!(k.rooted);
    assert!(!k.leading_cur);
    assert_eq!(k.parts, vec![p("dev"), p("dri")]);
}

#[test]
fn scan_skips_the_same_path_spelled_otherwise() {
    let mut cache = ProcessDataCache::new();
    let mut scan = FdScan::new(3);
    assert_eq!(scan.begin(&mut cache, 1), FdAction::ReadLink(FdStage::Dedupe));
    assert_eq!(
        scan.link_read(&mut cache, 1, FdStage::Dedupe, Some(b"/dev/dri/renderD128".to_vec())),
        FdAction::ReadContent
    );
    assert_eq!(scan.begin(&mut cache, 2), FdAction::ReadLink(FdStage::Dedupe));
    assert_eq!(
        scan.link_read(&mut cache, 2, FdStage::Dedupe, Some(b"/dev//dri/./renderD128/".to_vec())),
        FdAction::Skip
    );
}
