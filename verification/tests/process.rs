use std::collections::HashMap;

use resources::fdinfo::Fdinfo;
use resources::gpu_usage::{GpuIdentifier, GpuUsageStats, IntegerPercentage};
use resources::npu_usage::NpuUsageStats;
use resources::pci_slot::PciSlot;
use resources::process::{
    accumulate_gpu_stats, accumulate_npu_stats, detect_containerization, environ_get,
    extend_gpu_stats, parse_stat_field, Containerization, Niceness, NicenessError, ProcFiles,
    ProcessData, ProcessError, StatFieldError, SystemInfo,
};

const STAT: &str = "42 (my proc) S 1 42 42 0 -1 4194304 100 0 0 0 7 3 0 0 20 -5 1 0 5000 1000 200\n";

fn files(stat: &str) -> ProcFiles {
    ProcFiles {
        stat: stat.to_string(),
        status: "Name:\tmy proc\nUid:\t1000\t1000\t1000\t1000\nVmRSS:\t 10 kB\nVmSwap:\t 0 kB\nCpus_allowed:\tf\n".to_string(),
        comm: "my\nproc\n".to_string(),
        cmdline: "/usr/bin/myproc\u{0}--flag\n".to_string(),
        io: Some("read_bytes: 11\nwrite_bytes: 22\n".to_string()),
        cgroup: Some("0::/user.slice/app.slice/app-flatpak-org.example.App-99.scope\n".to_string()),
        environ: "HOME=/home/u\u{0}APPIMAGE=/tmp/x.AppImage\u{0}".to_string(),
        portable_marker: false,
        flatpak_info: false,
        fdinfos: vec![],
        nvidia: vec![],
    }
}

fn system() -> SystemInfo {
    let mut users = HashMap::new();
    users.insert(1000u32, "alice".to_string());
    SystemInfo {
        users,
        num_cpus: 2,
        timestamp: 123,
    }
}

#[test]
fn process_data_from_files() {
    let g = ProcessData::from_proc_files(42, &files(STAT), &system()).unwrap();
    let d = g.data;
    assert_eq!(d.pid, 42);
    assert_eq!(d.parent_pid, 1);
    assert_eq!(d.user, "alice");
    assert_eq!(d.comm, "myproc");
    assert_eq!(d.commandline, "/usr/bin/myproc\u{0}--flag");
    assert_eq!(d.user_cpu_time, 7);
    assert_eq!(d.system_cpu_time, 3);
    assert_eq!(d.niceness.into_inner(), -5);
    assert_eq!(d.starttime, 5000);
    assert_eq!(d.affinity, vec![true, true]);
    assert_eq!(d.memory_usage, 10240);
    assert_eq!(d.swap_usage, 0);
    assert_eq!(d.cgroup, Some("org.example.App".to_string()));
    assert_eq!(d.containerization, Containerization::Flatpak);
    assert_eq!(d.read_bytes, Some(11));
    assert_eq!(d.write_bytes, Some(22));
    assert_eq!(d.timestamp, 123);
    assert_eq!(d.appimage_path, Some("/tmp/x.AppImage".to_string()));
    assert!(d.gpu_usage_stats.is_empty());
    assert!(d.npu_usage_stats.is_empty());
}

#[test]
fn unknown_user_is_root() {
    let mut sys = system();
    sys.users.clear();
    let g = ProcessData::from_proc_files(42, &files(STAT), &sys).unwrap();
    assert_eq!(g.data.user, "root");
}

#[test]
fn short_stat_is_an_error() {
    let r = ProcessData::from_proc_files(42, &files("42 (x) S 1 2"), &system());
    assert!(matches!(
        r,
        Err(ProcessError::StatField(StatFieldError::Missing { .. }))
    ));
}

#[test]
fn niceness_out_of_range_is_an_error() {
    let stat = "42 (x) S 1 42 42 0 -1 4194304 100 0 0 0 7 3 0 0 20 25 1 0 5000\n";
    let r = ProcessData::from_proc_files(42, &files(stat), &system());
    assert!(matches!(
        r,
        Err(ProcessError::StatField(StatFieldError::Invalid { .. }))
    ));
}

#[test]
fn stat_field_parsing() {
    let fields = ["S", "1", "-3", "x"];
    assert_eq!(parse_stat_field::<i32>(&fields, 1, "ppid"), Ok(1));
    assert_eq!(parse_stat_field::<u64>(&fields, 1, "time"), Ok(1));
    assert_eq!(
        parse_stat_field::<u64>(&fields, 2, "time"),
        Err(StatFieldError::Invalid {
            name: "time".to_string()
        })
    );
    assert_eq!(
        parse_stat_field::<u64>(&fields, 9, "start"),
        Err(StatFieldError::Missing {
            name: "start".to_string(),
            index: 9
        })
    );
    assert_eq!(
        parse_stat_field::<Niceness>(&fields, 2, "nice").map(|n| n.into_inner()),
        Ok(-3)
    );
}

#[test]
fn niceness_bounds() {
    assert_eq!(Niceness::try_new(20), Err(NicenessError::LessOrEqualViolated));
    assert_eq!(Niceness::try_new(-21), Err(NicenessError::GreaterOrEqualViolated));
    assert_eq!(Niceness::try_new(19).map(|n| n.into_inner()), Ok(19));
    assert_eq!(Niceness::default().into_inner(), 0);
    assert_eq!(Niceness::parse_str("+7").map(|n| n.into_inner()), Some(7));
    assert_eq!(Niceness::parse_str("-20").map(|n| n.into_inner()), Some(-20));
    assert!(Niceness::parse_str("100").is_none());
}

#[test]
fn containerization_order() {
    assert_eq!(
        detect_containerization("/snap/bin/x", Some("flatpak"), true, true, true),
        Containerization::Snap
    );
    assert_eq!(
        detect_containerization("/usr/bin/x", Some("portable"), true, false, true),
        Containerization::Portable
    );
    assert_eq!(
        detect_containerization("/usr/bin/x", None, true, false, true),
        Containerization::Flatpak
    );
    assert_eq!(
        detect_containerization("/usr/bin/x", None, true, false, false),
        Containerization::AppImage
    );
    assert_eq!(
        detect_containerization("/usr/bin/x", Some("gnome"), false, false, false),
        Containerization::NoContainer
    );
    assert_eq!(Containerization::default(), Containerization::NoContainer);
}

#[test]
fn environment_lookup_last_wins() {
    assert_eq!(
        environ_get("A=1\u{0}B\u{0}A=2=3\u{0}", "A"),
        Some("2=3".to_string())
    );
    assert_eq!(environ_get("A=1", "B"), None);
}

fn amd(pid: i32, fd: usize, gfx: u64, mem_kib: u64) -> Fdinfo {
    Fdinfo::parse(
        pid,
        fd,
        &format!(
            "drm-driver: amdgpu\ndrm-pdev: 0000:03:00.0\ndrm-engine-gfx: {gfx} ns\ndrm-memory-vram: {mem_kib} KiB\n"
        ),
    )
}

#[test]
fn gpu_stats_merge_per_gpu() {
    let infos = vec![
        amd(5, 1, 100, 4),
        Fdinfo::parse(5, 2, "pos: 0\n"),
        amd(5, 3, 50, 8),
    ];
    let (map, skipped) = accumulate_gpu_stats(&infos);
    let slot = PciSlot::try_new(0, 3, 0, 0).unwrap();
    assert_eq!(
        map,
        vec![(
            GpuIdentifier::PciSlot(slot),
            GpuUsageStats::AmdgpuStats {
                gfx_ns: 100,
                enc_ns: 0,
                dec_ns: 0,
                mem_bytes: 8192
            }
        )]
    );
    assert_eq!(skipped, vec![(5, 2)]);
    let (npus, not_npu) = accumulate_npu_stats(&infos);
    assert!(npus.is_empty());
    assert_eq!(not_npu, vec![(5, 1), (5, 2), (5, 3)]);
}

#[test]
fn npu_stats_merge_per_slot() {
    let text = |ns: u64| {
        format!("drm-driver: amdxdna_accel_driver\ndrm-engine-npu-amdxdna: {ns} ns\ndrm-total-memory: 1 KiB\n")
    };
    let infos = vec![Fdinfo::parse(1, 1, &text(3)), Fdinfo::parse(1, 2, &text(9))];
    let (map, skipped) = accumulate_npu_stats(&infos);
    assert_eq!(
        map,
        vec![(
            PciSlot::default(),
            NpuUsageStats::AmdxdnaStats {
                usage_ns: 9,
                mem_bytes: 1024
            }
        )]
    );
    assert!(skipped.is_empty());
}

#[test]
fn nvidia_stats_replace_fdinfo_stats() {
    let slot = PciSlot::try_new(0, 1, 0, 0).unwrap();
    let pct = |v| IntegerPercentage::try_new(v).unwrap();
    let nv = GpuUsageStats::NvidiaStats {
        gfx_percentage: pct(10),
        enc_percentage: pct(0),
        dec_percentage: pct(0),
        mem_bytes: 5,
    };
    let mut map = vec![(
        GpuIdentifier::PciSlot(slot),
        GpuUsageStats::V3dStats {
            gfx_ns: 1,
            mem_bytes: 1,
        },
    )];
    extend_gpu_stats(
        &mut map,
        &vec![
            (GpuIdentifier::PciSlot(slot), nv),
            (GpuIdentifier::Enumerator(1), nv),
        ],
    );
    assert_eq!(
        map,
        vec![
            (GpuIdentifier::PciSlot(slot), nv),
            (GpuIdentifier::Enumerator(1), nv)
        ]
    );
}
