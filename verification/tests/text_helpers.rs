use resources::backend::CairoError;
use resources::dmi::ram_info;
use resources::gui::Args;
use resources::i18n::{freplace, i18n_f, i18n_k, kreplace, Translations};

fn tr() -> Translations {
    Translations::setup("resources-tests", "/nonexistent/locale").unwrap()
}
use resources::priority::{decimal_digits, nice_label_msgid, nice_to_label};
use resources::process::Niceness;
use resources::time::{millis_as_u64, unix_as_millis};
use resources::tools::{
    cpus_from_mask, kill_exit_code, parse_int_arg, signal_from_name, KillSignal,
};

#[test]
fn placeholders_filled_in_order() {
    assert_eq!(
        freplace("Hello {}, you have {} messages".to_string(), &["Ann", "3"]),
        "Hello Ann, you have 3 messages"
    );
}

#[test]
fn missing_arguments_drop_the_rest() {
    assert_eq!(freplace("a{}b{}c".to_string(), &["X"]), "aXb");
    assert_eq!(freplace("a{}b".to_string(), &[]), "a");
    assert_eq!(freplace("no placeholder".to_string(), &["X"]), "no placeholder");
}

#[test]
fn extra_arguments_are_ignored() {
    assert_eq!(freplace("{}".to_string(), &["1", "2"]), "1");
}

#[test]
fn keyword_placeholders() {
    assert_eq!(
        kreplace("Hi {name}, {name}! {other}".to_string(), &[("name", "Bob")]),
        "Hi Bob, Bob! {other}"
    );
    assert_eq!(kreplace("x".to_string(), &[]), "x");
}

#[test]
fn untranslated_messages_are_filled() {
    assert_eq!(i18n_f(&tr(), "{} items", &["5"]), "5 items");
    assert_eq!(i18n_k(&tr(), "{n} items", &[("n", "6")]), "6 items");
}

#[test]
fn digit_counts() {
    assert_eq!(decimal_digits(0), 1);
    assert_eq!(decimal_digits(9), 1);
    assert_eq!(decimal_digits(10), 2);
    assert_eq!(decimal_digits(-42), 1);
    assert_eq!(decimal_digits(i32::MAX), 10);
}

#[test]
fn priority_classes() {
    let n = |v| Niceness::try_new(v).unwrap();
    assert_eq!(nice_label_msgid(n(-20)), ("Very High", 0));
    assert_eq!(nice_label_msgid(n(-8)), ("Very High", 0));
    assert_eq!(nice_label_msgid(n(-7)), ("High", 1));
    assert_eq!(nice_label_msgid(n(0)), ("Normal", 2));
    assert_eq!(nice_label_msgid(n(6)), ("Low", 3));
    assert_eq!(nice_label_msgid(n(19)), ("Very Low", 4));
    assert_eq!(nice_to_label(&tr(), n(3)).1, 3);
}

#[test]
fn kill_arguments() {
    assert_eq!(signal_from_name("STOP"), Some(KillSignal::Stop));
    assert_eq!(signal_from_name("KILL"), Some(KillSignal::Kill));
    assert_eq!(signal_from_name("kill"), None);
    assert_eq!(parse_int_arg(" 42\n"), Some(42));
    assert_eq!(parse_int_arg("-5"), Some(-5));
    assert_eq!(parse_int_arg("4x"), None);
    assert_eq!(kill_exit_code(0), 253);
    assert_eq!(kill_exit_code(3), 3);
}

#[test]
fn mask_to_cpus() {
    assert_eq!(cpus_from_mask("1011"), vec![0, 2, 3]);
    assert_eq!(cpus_from_mask(""), Vec::<usize>::new());
}

const DMI: &str = "Memory Device\n\tArray Handle: 0x0011\n\tSize: 8 GB\n\tForm Factor: SODIMM\n\tLocator: ChannelA-DIMM0\n\tBank Locator: BANK 0\n\tType: DDR4\n\tType Detail: Synchronous Unbuffered (Unregistered)\n\tSpeed: 2667 MT/s\n\tManufacturer: Samsung\n\nMemory Device\n\tArray Handle: 0x0011\n\tSize: No Module Installed\n\tForm Factor: Unknown\n";

#[test]
fn installed_modules_only() {
    let records = ram_info(DMI.as_bytes().to_vec());
    assert_eq!(records.len(), 1);
    let pairs: Vec<(&str, &str)> = records[0]
        .iter()
        .map(|(k, v)| (k.as_str(), v.as_str()))
        .collect();
    assert_eq!(
        pairs,
        vec![
            ("Bank Locator", "BANK 0"),
            ("Form Factor", "SODIMM"),
            ("Locator", "ChannelA-DIMM0"),
            ("Manufacturer", "Samsung"),
            ("Size", "8 GB"),
            ("Speed", "2667 MT/s"),
            ("Type", "DDR4"),
            ("Type Detail", "Synchronous Unbuffered (Unregistered)"),
        ]
    );
}

#[test]
fn no_output_no_modules() {
    assert!(ram_info(Vec::new()).is_empty());
    assert!(ram_info(vec![0xff, 0xfe]).is_empty());
}

#[test]
fn clock_is_after_epoch() {
    assert!(unix_as_millis().unwrap() > 1_600_000_000_000);
}

#[test]
fn millis_cut_to_64_bits() {
    assert_eq!(millis_as_u64(Some(1_700_000_000_000)), Some(1_700_000_000_000));
    assert_eq!(millis_as_u64(Some((1u128 << 64) + 5)), Some(5));
    assert_eq!(millis_as_u64(None), None);
}

#[test]
fn default_args_monitor_everything() {
    let a = Args::default();
    assert!(!a.disable_gpu_monitoring && !a.disable_process_monitoring);
    assert_eq!(a.open_tab_id, None);
}

#[test]
fn cairo_error_text() {
    assert_eq!(CairoError.to_string(), "CairoError");
}
