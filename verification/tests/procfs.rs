use resources::procfs::{
    bytes_from_kb_capture, count_from_capture, uid_from_capture,
    decode_hex_escapes, parse_affinity, parse_memory_usage, parse_read_bytes, parse_stat,
    parse_swap_usage, parse_uid, parse_write_bytes, sanitize, ProcfsError,
};

const STATUS: &str = "Name:\tbash\nUmask:\t0022\nState:\tS (sleeping)\nUid:\t1000\t1000\t1000\t1000\nGid:\t1000\t1000\t1000\t1000\nVmRSS:\t    5120 kB\nVmSwap:\t       3 kB\nCpus_allowed:\t12\n";

#[test]
fn uid_is_read_from_status() {
    assert_eq!(parse_uid(STATUS), Ok(1000));
}

#[test]
fn missing_uid_is_root() {
    assert_eq!(parse_uid("Name:\tbash\n"), Ok(0));
}

#[test]
fn uid_out_of_range_is_an_error() {
    assert_eq!(parse_uid("Uid:\t99999999999\n"), Err(ProcfsError::UidParse));
}

#[test]
fn memory_and_swap_in_bytes() {
    assert_eq!(parse_memory_usage(STATUS), 5120 * 1024);
    assert_eq!(parse_swap_usage(STATUS), 3 * 1024);
}

#[test]
fn missing_memory_is_zero() {
    assert_eq!(parse_memory_usage("Name:\tx\n"), 0);
    assert_eq!(parse_swap_usage("VmSwap:\t  kB\n"), 0);
}

#[test]
fn memory_saturates() {
    assert_eq!(parse_memory_usage("VmRSS:\t18446744073709551615 kB\n"), usize::MAX);
}

#[test]
fn affinity_bits_lowest_first() {
    assert_eq!(
        parse_affinity(STATUS, 8),
        vec![false, true, false, false, true, false, false, false]
    );
}

#[test]
fn affinity_cut_to_cpu_count() {
    assert_eq!(parse_affinity("Cpus_allowed:\tff\n", 3), vec![true, true, true]);
}

#[test]
fn affinity_padded_to_cpu_count() {
    let mut expected = vec![true, false, true, false];
    expected.extend(vec![false; 12]);
    assert_eq!(parse_affinity("Cpus_allowed:\t5\n", 16), expected);
    assert_eq!(parse_affinity("Cpus_allowed:\tf\n", 8).len(), 8);
}

#[test]
fn affinity_missing_sets_no_cpu() {
    assert_eq!(parse_affinity("Name:\tx\n", 4), vec![false; 4]);
}

#[test]
fn affinity_reads_every_word() {
    let expected: Vec<bool> = (0..64).map(|i| i < 8).collect();
    assert_eq!(parse_affinity("Cpus_allowed:\t00000000,000000ff\n", 64), expected);
    let high: Vec<bool> = (0..40).map(|i| i == 32).collect();
    assert_eq!(parse_affinity("Cpus_allowed:\t01,00000000\n", 40), high);
}

#[test]
fn io_counters() {
    let io = "rchar: 100\nwchar: 200\nread_bytes: 4096\nwrite_bytes: 8192\n";
    assert_eq!(parse_read_bytes(io), Some(4096));
    assert_eq!(parse_write_bytes(io), Some(8192));
    assert_eq!(parse_read_bytes("rchar: 1\n"), None);
}

#[test]
fn stat_fields_after_command_name() {
    let fields = parse_stat("1234 (my (odd) proc) S 1 1234 1234 0").unwrap();
    assert_eq!(fields, vec!["S", "1", "1234", "1234", "0"]);
}

#[test]
fn stat_without_parenthesis_splits_everything() {
    let fields = parse_stat("a b c").unwrap();
    assert_eq!(fields, vec!["b", "c"]);
}

#[test]
fn hex_escapes_are_decoded() {
    assert_eq!(decode_hex_escapes("mullvad\\x2dvpn"), Ok("mullvad-vpn".to_string()));
    assert_eq!(decode_hex_escapes("plain"), Ok("plain".to_string()));
}

#[test]
fn invalid_hex_escape_is_an_error() {
    assert_eq!(decode_hex_escapes("bad\\xzz"), Err(()));
}

#[test]
fn short_escape_is_kept() {
    assert_eq!(decode_hex_escapes("end\\x2"), Ok("end\\x2".to_string()));
}

#[test]
fn escape_giving_invalid_utf8_is_an_error() {
    assert_eq!(decode_hex_escapes("\\xff"), Err(()));
}

#[test]
fn cgroup_of_app_scope() {
    let raw = "0::/user.slice/user-1000.slice/user@1000.service/app.slice/app-gnome-org.gnome.Nautilus-12345.scope";
    assert_eq!(
        sanitize(raw),
        (Some("gnome".to_string()), Some("org.gnome.Nautilus".to_string()))
    );
}

#[test]
fn cgroup_without_app_slice() {
    assert_eq!(sanitize("0::/init.scope"), (None, None));
}

#[test]
fn captured_numbers() {
    assert_eq!(count_from_capture(Some("42")), Some(42));
    assert_eq!(count_from_capture(Some("18446744073709551616")), None);
    assert_eq!(count_from_capture(None), None);
    assert_eq!(uid_from_capture(None), Ok(0));
    assert_eq!(uid_from_capture(Some("1000")), Ok(1000));
    assert_eq!(uid_from_capture(Some("4294967296")), Err(ProcfsError::UidParse));
    assert_eq!(bytes_from_kb_capture(Some("3")), 3072);
    assert_eq!(bytes_from_kb_capture(Some("x")), 0);
    assert_eq!(bytes_from_kb_capture(None), 0);
}
