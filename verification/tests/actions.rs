use resources::actions::{
    get_action_failure, get_action_success, get_named_action_failure, get_processes_success,
    app_description_msgid, app_warning_msgid, get_action_description, get_action_name,
    get_action_name_multiple, get_action_warning, get_app_action_name, get_app_action_warning,
    plural_number, process_title_msgid, process_titles_multiple_msgids, ProcessAction,
};
use resources::i18n::Translations;

fn tr() -> Translations {
    Translations::setup("resources-tests", "/nonexistent/locale").unwrap()
}

#[test]
fn plural_number_is_the_count() {
    assert_eq!(plural_number(12), 12);
    assert_eq!(plural_number(1), 1);
}

#[test]
fn process_titles() {
    assert_eq!(process_title_msgid(ProcessAction::TERM), ("End {}?", true));
    assert_eq!(process_title_msgid(ProcessAction::LOGOUT), ("Logout?", false));
    assert_eq!(get_action_name(&tr(), ProcessAction::TERM, "firefox"), "End firefox?");
    assert_eq!(get_action_name(&tr(), ProcessAction::CONT, "vim"), "Continue vim?");
    assert_eq!(get_action_name(&tr(), ProcessAction::REBOOT, "vim"), "Reboot?");
}

#[test]
fn process_titles_for_several() {
    assert_eq!(
        process_titles_multiple_msgids(ProcessAction::STOP),
        Some(("Halt process?", "Halt {} processes?"))
    );
    // continuing asks as killing does
    assert_eq!(
        process_titles_multiple_msgids(ProcessAction::CONT),
        Some(("Kill process?", "Kill {} processes?"))
    );
    assert_eq!(process_titles_multiple_msgids(ProcessAction::SHUTDOWN), None);
    assert_eq!(get_action_name_multiple(&tr(), ProcessAction::KILL, 12), "Kill 12 processes?");
    assert_eq!(get_action_name_multiple(&tr(), ProcessAction::TERM, 1), "End process?");
    assert_eq!(get_action_name_multiple(&tr(), ProcessAction::KILLWINDOW, 5), "Kill a Window?");
}

#[test]
fn process_warnings_and_labels() {
    assert_eq!(get_action_warning(&tr(), ProcessAction::CONT), "");
    assert_eq!(get_action_warning(&tr(), ProcessAction::TERM), "Unsaved work might be lost.");
    assert_eq!(
        get_action_warning(&tr(), ProcessAction::REBOOT),
        "This action will be executed without checking for unsaved files."
    );
    assert_eq!(get_action_description(&tr(), ProcessAction::STOP), "Halt Process");
    assert_eq!(get_action_description(&tr(), ProcessAction::KILLWINDOW), "Kill Window");
}

#[test]
fn app_texts() {
    assert_eq!(get_app_action_name(&tr(), ProcessAction::KILL, "Files"), "Kill Files?");
    assert_eq!(app_warning_msgid(ProcessAction::TERM), Some("Unsaved work might be lost"));
    assert_eq!(app_warning_msgid(ProcessAction::CONT), None);
    assert_eq!(get_app_action_warning(&tr(), ProcessAction::CONT), "");
    assert_eq!(app_description_msgid(ProcessAction::STOP), "Halt App");
}

#[test]
fn outcome_messages() {
    assert_eq!(get_action_success(&tr(), ProcessAction::STOP, "top"), "Successfully halted top");
    assert_eq!(get_processes_success(&tr(), ProcessAction::TERM, 1), "Successfully ended the process");
    assert_eq!(get_processes_success(&tr(), ProcessAction::CONT, 4), "Successfully continued 4 processes");
    assert_eq!(
        get_action_failure(&tr(), ProcessAction::KILL, 2),
        "There were problems killing 2 processes"
    );
    assert_eq!(
        get_named_action_failure(&tr(), ProcessAction::TERM, "top"),
        "There was a problem ending top"
    );
}
