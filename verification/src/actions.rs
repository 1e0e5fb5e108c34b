//! The texts of the confirmation dialogs for actions on processes and apps:
//! which message each action shows, then its translation.

use vstd::prelude::*;

use crate::i18n::{arg_views, freplace_text, i18n, i18n_f, ni18n_f, no_nul, Translations};
use crate::text::{dec_text, push_decimal};

verus! {

/// An action that can be taken on a process, an app or the session.
#[allow(non_camel_case_types)]
#[derive(Debug, Clone, Copy, PartialEq, Eq, Structural)]
pub enum ProcessAction {
    TERM,
    STOP,
    KILL,
    CONT,
    KILLWINDOW,
    LOGOUT,
    REBOOT,
    SHUTDOWN,
}

/// The action sends a signal to processes.
pub open spec fn is_signal(action: ProcessAction) -> bool {
    ||| action == ProcessAction::TERM
    ||| action == ProcessAction::STOP
    ||| action == ProcessAction::KILL
    ||| action == ProcessAction::CONT
}

/// The title asking to confirm `action` on one process; for a signal its `{}`
/// takes the process's name.
pub open spec fn process_title(action: ProcessAction) -> Seq<char> {
    match action {
        ProcessAction::TERM => "End {}?"@,
        ProcessAction::STOP => "Halt {}?"@,
        ProcessAction::KILL => "Kill {}?"@,
        ProcessAction::CONT => "Continue {}?"@,
        ProcessAction::KILLWINDOW => "Kill a Window?"@,
        ProcessAction::LOGOUT => "Logout?"@,
        ProcessAction::REBOOT => "Reboot?"@,
        ProcessAction::SHUTDOWN => "Shutdown?"@,
    }
}

/// The singular and plural titles asking to confirm a signal on several
/// processes (`{}` takes their number); continuing asks as killing does.
pub open spec fn process_titles_multiple(action: ProcessAction) -> (Seq<char>, Seq<char>) {
    match action {
        ProcessAction::TERM => ("End process?"@, "End {} processes?"@),
        ProcessAction::STOP => ("Halt process?"@, "Halt {} processes?"@),
        _ => ("Kill process?"@, "Kill {} processes?"@),
    }
}

/// The warning shown before `action` on processes; none before continuing.
pub open spec fn process_warning(action: ProcessAction) -> Option<Seq<char>> {
    match action {
        ProcessAction::TERM => Some("Unsaved work might be lost."@),
        ProcessAction::STOP => Some(
            "Halting a process can come with serious risks such as losing data and security implications. Use with caution."@,
        ),
        ProcessAction::KILL => Some(
            "Killing a process can come with serious risks such as losing data and security implications. Use with caution."@,
        ),
        ProcessAction::CONT => None,
        ProcessAction::KILLWINDOW => Some("Click on a window to kill it."@),
        _ => Some("This action will be executed without checking for unsaved files."@),
    }
}

/// The label of the button that confirms `action` on processes.
pub open spec fn process_description(action: ProcessAction) -> Seq<char> {
    match action {
        ProcessAction::TERM => "End Process"@,
        ProcessAction::STOP => "Halt Process"@,
        ProcessAction::KILL => "Kill Process"@,
        ProcessAction::CONT => "Continue Process"@,
        ProcessAction::KILLWINDOW => "Kill Window"@,
        ProcessAction::LOGOUT => "Logout"@,
        ProcessAction::REBOOT => "Reboot"@,
        ProcessAction::SHUTDOWN => "Shutdown"@,
    }
}

/// The warning shown before a signal to an app; none before continuing.
pub open spec fn app_warning(action: ProcessAction) -> Option<Seq<char>> {
    match action {
        ProcessAction::TERM => Some("Unsaved work might be lost"@),
        ProcessAction::STOP => Some(
            "Halting an app can come with serious risks such as losing data and security implications. Use with caution."@,
        ),
        ProcessAction::KILL => Some(
            "Killing an app can come with serious risks such as losing data and security implications. Use with caution."@,
        ),
        _ => None,
    }
}

/// The label of the button that confirms a signal to an app.
pub open spec fn app_description(action: ProcessAction) -> Seq<char> {
    match action {
        ProcessAction::TERM => "End App"@,
        ProcessAction::STOP => "Halt App"@,
        ProcessAction::KILL => "Kill App"@,
        _ => "Continue App"@,
    }
}

proof fn lemma_process_title_no_nul(a: ProcessAction)
    ensures
        no_nul(process_title(a)),
{
    match a {
        ProcessAction::TERM => {
            reveal_strlit("End {}?");
        },
        ProcessAction::STOP => {
            reveal_strlit("Halt {}?");
        },
        ProcessAction::KILL => {
            reveal_strlit("Kill {}?");
        },
        ProcessAction::CONT => {
            reveal_strlit("Continue {}?");
        },
        ProcessAction::KILLWINDOW => {
            reveal_strlit("Kill a Window?");
        },
        ProcessAction::LOGOUT => {
            reveal_strlit("Logout?");
        },
        ProcessAction::REBOOT => {
            reveal_strlit("Reboot?");
        },
        ProcessAction::SHUTDOWN => {
            reveal_strlit("Shutdown?");
        },
    }
}

proof fn lemma_process_titles_multiple_no_nul(a: ProcessAction)
    ensures
        no_nul(process_titles_multiple(a).0),
        no_nul(process_titles_multiple(a).1),
{
    match a {
        ProcessAction::TERM => {
            reveal_strlit("End process?");
            reveal_strlit("End {} processes?");
        },
        ProcessAction::STOP => {
            reveal_strlit("Halt process?");
            reveal_strlit("Halt {} processes?");
        },
        ProcessAction::KILL => {
            reveal_strlit("Kill process?");
            reveal_strlit("Kill {} processes?");
        },
        ProcessAction::CONT => {
            reveal_strlit("Kill process?");
            reveal_strlit("Kill {} processes?");
        },
        ProcessAction::KILLWINDOW => {
            reveal_strlit("Kill process?");
            reveal_strlit("Kill {} processes?");
        },
        ProcessAction::LOGOUT => {
            reveal_strlit("Kill process?");
            reveal_strlit("Kill {} processes?");
        },
        ProcessAction::REBOOT => {
            reveal_strlit("Kill process?");
            reveal_strlit("Kill {} processes?");
        },
        ProcessAction::SHUTDOWN => {
            reveal_strlit("Kill process?");
            reveal_strlit("Kill {} processes?");
        },
    }
}

proof fn lemma_process_warning_no_nul(a: ProcessAction)
    ensures
        process_warning(a) matches Some(w) ==> no_nul(w),
{
    match a {
        ProcessAction::TERM => {
            reveal_strlit("Unsaved work might be lost.");
        },
        ProcessAction::STOP => {
            reveal_strlit("Halting a process can come with serious risks such as losing data and security implications. Use with caution.");
        },
        ProcessAction::KILL => {
            reveal_strlit("Killing a process can come with serious risks such as losing data and security implications. Use with caution.");
        },
        ProcessAction::CONT => {
        },
        ProcessAction::KILLWINDOW => {
            reveal_strlit("Click on a window to kill it.");
        },
        ProcessAction::LOGOUT => {
            reveal_strlit("This action will be executed without checking for unsaved files.");
        },
        ProcessAction::REBOOT => {
            reveal_strlit("This action will be executed without checking for unsaved files.");
        },
        ProcessAction::SHUTDOWN => {
            reveal_strlit("This action will be executed without checking for unsaved files.");
        },
    }
}

proof fn lemma_process_description_no_nul(a: ProcessAction)
    ensures
        no_nul(process_description(a)),
{
    match a {
        ProcessAction::TERM => {
            reveal_strlit("End Process");
        },
        ProcessAction::STOP => {
            reveal_strlit("Halt Process");
        },
        ProcessAction::KILL => {
            reveal_strlit("Kill Process");
        },
        ProcessAction::CONT => {
            reveal_strlit("Continue Process");
        },
        ProcessAction::KILLWINDOW => {
            reveal_strlit("Kill Window");
        },
        ProcessAction::LOGOUT => {
            reveal_strlit("Logout");
        },
        ProcessAction::REBOOT => {
            reveal_strlit("Reboot");
        },
        ProcessAction::SHUTDOWN => {
            reveal_strlit("Shutdown");
        },
    }
}

proof fn lemma_app_warning_no_nul(a: ProcessAction)
    ensures
        app_warning(a) matches Some(w) ==> no_nul(w),
{
    match a {
        ProcessAction::TERM => {
            reveal_strlit("Unsaved work might be lost");
        },
        ProcessAction::STOP => {
            reveal_strlit("Halting an app can come with serious risks such as losing data and security implications. Use with caution.");
        },
        ProcessAction::KILL => {
            reveal_strlit("Killing an app can come with serious risks such as losing data and security implications. Use with caution.");
        },
        ProcessAction::CONT => {
        },
        ProcessAction::KILLWINDOW => {
        },
        ProcessAction::LOGOUT => {
        },
        ProcessAction::REBOOT => {
        },
        ProcessAction::SHUTDOWN => {
        },
    }
}

proof fn lemma_app_description_no_nul(a: ProcessAction)
    ensures
        no_nul(app_description(a)),
{
    match a {
        ProcessAction::TERM => {
            reveal_strlit("End App");
        },
        ProcessAction::STOP => {
            reveal_strlit("Halt App");
        },
        ProcessAction::KILL => {
            reveal_strlit("Kill App");
        },
        ProcessAction::CONT => {
            reveal_strlit("Continue App");
        },
        ProcessAction::KILLWINDOW => {
            reveal_strlit("Continue App");
        },
        ProcessAction::LOGOUT => {
            reveal_strlit("Continue App");
        },
        ProcessAction::REBOOT => {
            reveal_strlit("Continue App");
        },
        ProcessAction::SHUTDOWN => {
            reveal_strlit("Continue App");
        },
    }
}

proof fn lemma_success_named_no_nul(a: ProcessAction)
    ensures
        no_nul(success_named(a)),
{
    match a {
        ProcessAction::TERM => {
            reveal_strlit("Successfully ended {}");
        },
        ProcessAction::STOP => {
            reveal_strlit("Successfully halted {}");
        },
        ProcessAction::KILL => {
            reveal_strlit("Successfully killed {}");
        },
        ProcessAction::CONT => {
            reveal_strlit("Successfully continued {}");
        },
        ProcessAction::KILLWINDOW => {
            reveal_strlit("Successfully continued {}");
        },
        ProcessAction::LOGOUT => {
            reveal_strlit("Successfully continued {}");
        },
        ProcessAction::REBOOT => {
            reveal_strlit("Successfully continued {}");
        },
        ProcessAction::SHUTDOWN => {
            reveal_strlit("Successfully continued {}");
        },
    }
}

proof fn lemma_success_counted_no_nul(a: ProcessAction)
    ensures
        no_nul(success_counted(a).0),
        no_nul(success_counted(a).1),
{
    match a {
        ProcessAction::TERM => {
            reveal_strlit("Successfully ended the process");
            reveal_strlit("Successfully ended {} processes");
        },
        ProcessAction::STOP => {
            reveal_strlit("Successfully halted the process");
            reveal_strlit("Successfully halted {} processes");
        },
        ProcessAction::KILL => {
            reveal_strlit("Successfully killed the process");
            reveal_strlit("Successfully killed {} processes");
        },
        ProcessAction::CONT => {
            reveal_strlit("Successfully continued the process");
            reveal_strlit("Successfully continued {} processes");
        },
        ProcessAction::KILLWINDOW => {
            reveal_strlit("Successfully continued the process");
            reveal_strlit("Successfully continued {} processes");
        },
        ProcessAction::LOGOUT => {
            reveal_strlit("Successfully continued the process");
            reveal_strlit("Successfully continued {} processes");
        },
        ProcessAction::REBOOT => {
            reveal_strlit("Successfully continued the process");
            reveal_strlit("Successfully continued {} processes");
        },
        ProcessAction::SHUTDOWN => {
            reveal_strlit("Successfully continued the process");
            reveal_strlit("Successfully continued {} processes");
        },
    }
}

proof fn lemma_failure_counted_no_nul(a: ProcessAction)
    ensures
        no_nul(failure_counted(a).0),
        no_nul(failure_counted(a).1),
{
    match a {
        ProcessAction::TERM => {
            reveal_strlit("There was a problem ending a process");
            reveal_strlit("There were problems ending {} processes");
        },
        ProcessAction::STOP => {
            reveal_strlit("There was a problem halting a process");
            reveal_strlit("There were problems halting {} processes");
        },
        ProcessAction::KILL => {
            reveal_strlit("There was a problem killing a process");
            reveal_strlit("There were problems killing {} processes");
        },
        ProcessAction::CONT => {
            reveal_strlit("There was a problem continuing a process");
            reveal_strlit("There were problems continuing {} processes");
        },
        ProcessAction::KILLWINDOW => {
            reveal_strlit("There was a problem continuing a process");
            reveal_strlit("There were problems continuing {} processes");
        },
        ProcessAction::LOGOUT => {
            reveal_strlit("There was a problem continuing a process");
            reveal_strlit("There were problems continuing {} processes");
        },
        ProcessAction::REBOOT => {
            reveal_strlit("There was a problem continuing a process");
            reveal_strlit("There were problems continuing {} processes");
        },
        ProcessAction::SHUTDOWN => {
            reveal_strlit("There was a problem continuing a process");
            reveal_strlit("There were problems continuing {} processes");
        },
    }
}

proof fn lemma_failure_named_no_nul(a: ProcessAction)
    ensures
        no_nul(failure_named(a)),
{
    match a {
        ProcessAction::TERM => {
            reveal_strlit("There was a problem ending {}");
        },
        ProcessAction::STOP => {
            reveal_strlit("There was a problem halting {}");
        },
        ProcessAction::KILL => {
            reveal_strlit("There was a problem killing {}");
        },
        ProcessAction::CONT => {
            reveal_strlit("There was a problem continuing {}");
        },
        ProcessAction::KILLWINDOW => {
            reveal_strlit("There was a problem continuing {}");
        },
        ProcessAction::LOGOUT => {
            reveal_strlit("There was a problem continuing {}");
        },
        ProcessAction::REBOOT => {
            reveal_strlit("There was a problem continuing {}");
        },
        ProcessAction::SHUTDOWN => {
            reveal_strlit("There was a problem continuing {}");
        },
    }
}

/// The untranslated title asking to confirm `action` on one process, and
/// whether its `{}` takes the process's name.
pub fn process_title_msgid(action: ProcessAction) -> (r: (&'static str, bool))
    ensures
        r.0@ == process_title(action),
        r.1 == is_signal(action),
{
    match action {
        ProcessAction::TERM => ("End {}?", true),
        ProcessAction::STOP => ("Halt {}?", true),
        ProcessAction::KILL => ("Kill {}?", true),
        ProcessAction::CONT => ("Continue {}?", true),
        ProcessAction::KILLWINDOW => ("Kill a Window?", false),
        ProcessAction::LOGOUT => ("Logout?", false),
        ProcessAction::REBOOT => ("Reboot?", false),
        ProcessAction::SHUTDOWN => ("Shutdown?", false),
    }
}

/// The translated title asking to confirm `action` on the process `name`.
pub fn get_action_name(tr: &Translations, action: ProcessAction, name: &str) -> (r: String)
    ensures
        is_signal(action) ==> exists|t: Seq<char>| r@ == freplace_text(t, seq![name@]),
        !is_signal(action) ==> no_nul(r@),
{
    let (msgid, named) = process_title_msgid(action);
    proof {
        lemma_process_title_no_nul(action);
    }
    if named {
        translated_with_name(tr, msgid, name)
    } else {
        i18n(tr, msgid)
    }
}

/// The untranslated singular and plural titles asking to confirm a signal on
/// several processes; `None` for the other actions, whose title does not
/// depend on the number.
pub fn process_titles_multiple_msgids(action: ProcessAction) -> (r: Option<
    (&'static str, &'static str),
>)
    ensures
        is_signal(action) ==> (r matches Some(m) && m.0@ == process_titles_multiple(action).0
            && m.1@ == process_titles_multiple(action).1),
        !is_signal(action) ==> r is None,
{
    match action {
        ProcessAction::TERM => Some(("End process?", "End {} processes?")),
        ProcessAction::STOP => Some(("Halt process?", "Halt {} processes?")),
        ProcessAction::KILL => Some(("Kill process?", "Kill {} processes?")),
        ProcessAction::CONT => Some(("Kill process?", "Kill {} processes?")),
        _ => None,
    }
}

/// The translated title asking to confirm `action` on `count` processes; for
/// a signal its `{}` takes the decimal count.
pub fn get_action_name_multiple(tr: &Translations, action: ProcessAction, count: usize) -> (r: String)
    ensures
        is_signal(action) ==> exists|t: Seq<char>| r@ == freplace_text(t, seq![dec_text(count as nat)]),
        !is_signal(action) ==> no_nul(r@),
{
    proof {
        lemma_process_titles_multiple_no_nul(action);
        lemma_process_title_no_nul(action);
    }
    match process_titles_multiple_msgids(action) {
        Some((single, multiple)) => translated_with_count(tr, single, multiple, count),
        None => {
            let (msgid, _) = process_title_msgid(action);
            i18n(tr, msgid)
        },
    }
}

/// The untranslated warning shown before `action` on processes.
pub fn process_warning_msgid(action: ProcessAction) -> (r: Option<&'static str>)
    ensures
        match process_warning(action) {
            Some(w) => r matches Some(m) && m@ == w,
            None => r is None,
        },
{
    match action {
        ProcessAction::TERM => Some("Unsaved work might be lost."),
        ProcessAction::STOP => Some(
            "Halting a process can come with serious risks such as losing data and security implications. Use with caution.",
        ),
        ProcessAction::KILL => Some(
            "Killing a process can come with serious risks such as losing data and security implications. Use with caution.",
        ),
        ProcessAction::CONT => None,
        ProcessAction::KILLWINDOW => Some("Click on a window to kill it."),
        ProcessAction::LOGOUT => Some("This action will be executed without checking for unsaved files."),
        ProcessAction::REBOOT => Some("This action will be executed without checking for unsaved files."),
        ProcessAction::SHUTDOWN => Some("This action will be executed without checking for unsaved files."),
    }
}

/// The translated warning shown before `action` on processes; empty before
/// continuing.
pub fn get_action_warning(tr: &Translations, action: ProcessAction) -> (r: String)
    ensures
        process_warning(action) is None ==> r@ == Seq::<char>::empty(),
        process_warning(action) is Some ==> no_nul(r@),
{
    proof {
        lemma_process_warning_no_nul(action);
    }
    match process_warning_msgid(action) {
        Some(msgid) => i18n(tr, msgid),
        None => String::new(),
    }
}

/// The untranslated label of the button that confirms `action` on processes.
pub fn process_description_msgid(action: ProcessAction) -> (r: &'static str)
    ensures
        r@ == process_description(action),
{
    match action {
        ProcessAction::TERM => "End Process",
        ProcessAction::STOP => "Halt Process",
        ProcessAction::KILL => "Kill Process",
        ProcessAction::CONT => "Continue Process",
        ProcessAction::KILLWINDOW => "Kill Window",
        ProcessAction::LOGOUT => "Logout",
        ProcessAction::REBOOT => "Reboot",
        ProcessAction::SHUTDOWN => "Shutdown",
    }
}

/// The translated label of the button that confirms `action` on processes.
pub fn get_action_description(tr: &Translations, action: ProcessAction) -> (r: String)
    ensures
        no_nul(r@),
{
    proof {
        lemma_process_description_no_nul(action);
    }
    i18n(tr, process_description_msgid(action))
}

/// The translated title asking to confirm a signal to the app `name`.
pub fn get_app_action_name(tr: &Translations, action: ProcessAction, name: &str) -> (r: String)
    requires
        is_signal(action),
    ensures
        exists|t: Seq<char>| r@ == freplace_text(t, seq![name@]),
{
    get_action_name(tr, action, name)
}

/// The untranslated warning shown before a signal to an app.
pub fn app_warning_msgid(action: ProcessAction) -> (r: Option<&'static str>)
    requires
        is_signal(action),
    ensures
        match app_warning(action) {
            Some(w) => r matches Some(m) && m@ == w,
            None => r is None,
        },
{
    match action {
        ProcessAction::TERM => Some("Unsaved work might be lost"),
        ProcessAction::STOP => Some(
            "Halting an app can come with serious risks such as losing data and security implications. Use with caution.",
        ),
        ProcessAction::KILL => Some(
            "Killing an app can come with serious risks such as losing data and security implications. Use with caution.",
        ),
        _ => None,
    }
}

/// The translated warning shown before a signal to an app; empty before
/// continuing.
pub fn get_app_action_warning(tr: &Translations, action: ProcessAction) -> (r: String)
    requires
        is_signal(action),
    ensures
        app_warning(action) is None ==> r@ == Seq::<char>::empty(),
        app_warning(action) is Some ==> no_nul(r@),
{
    proof {
        lemma_app_warning_no_nul(action);
    }
    match app_warning_msgid(action) {
        Some(msgid) => i18n(tr, msgid),
        None => String::new(),
    }
}

/// The untranslated label of the button that confirms a signal to an app.
pub fn app_description_msgid(action: ProcessAction) -> (r: &'static str)
    requires
        is_signal(action),
    ensures
        r@ == app_description(action),
{
    match action {
        ProcessAction::TERM => "End App",
        ProcessAction::STOP => "Halt App",
        ProcessAction::KILL => "Kill App",
        _ => "Continue App",
    }
}

/// The translated label of the button that confirms a signal to an app.
pub fn get_app_action_description(tr: &Translations, action: ProcessAction) -> (r: String)
    requires
        is_signal(action),
    ensures
        no_nul(r@),
{
    proof {
        lemma_app_description_no_nul(action);
    }
    i18n(tr, app_description_msgid(action))
}

/// The message that a signal to the process `{}` succeeded.
pub open spec fn success_named(action: ProcessAction) -> Seq<char> {
    match action {
        ProcessAction::TERM => "Successfully ended {}"@,
        ProcessAction::STOP => "Successfully halted {}"@,
        ProcessAction::KILL => "Successfully killed {}"@,
        _ => "Successfully continued {}"@,
    }
}

/// The singular and plural messages that a signal to `{}` processes
/// succeeded.
pub open spec fn success_counted(action: ProcessAction) -> (Seq<char>, Seq<char>) {
    match action {
        ProcessAction::TERM => ("Successfully ended the process"@, "Successfully ended {} processes"@),
        ProcessAction::STOP => ("Successfully halted the process"@, "Successfully halted {} processes"@),
        ProcessAction::KILL => ("Successfully killed the process"@, "Successfully killed {} processes"@),
        _ => ("Successfully continued the process"@, "Successfully continued {} processes"@),
    }
}

/// The singular and plural messages that a signal to `{}` processes failed.
pub open spec fn failure_counted(action: ProcessAction) -> (Seq<char>, Seq<char>) {
    match action {
        ProcessAction::TERM => (
            "There was a problem ending a process"@,
            "There were problems ending {} processes"@,
        ),
        ProcessAction::STOP => (
            "There was a problem halting a process"@,
            "There were problems halting {} processes"@,
        ),
        ProcessAction::KILL => (
            "There was a problem killing a process"@,
            "There were problems killing {} processes"@,
        ),
        _ => (
            "There was a problem continuing a process"@,
            "There were problems continuing {} processes"@,
        ),
    }
}

/// The message that a signal to the process `{}` failed.
pub open spec fn failure_named(action: ProcessAction) -> Seq<char> {
    match action {
        ProcessAction::TERM => "There was a problem ending {}"@,
        ProcessAction::STOP => "There was a problem halting {}"@,
        ProcessAction::KILL => "There was a problem killing {}"@,
        _ => "There was a problem continuing {}"@,
    }
}

/// The untranslated message that a signal to one named process succeeded.
pub fn success_named_msgid(action: ProcessAction) -> (r: &'static str)
    requires
        is_signal(action),
    ensures
        r@ == success_named(action),
{
    match action {
        ProcessAction::TERM => "Successfully ended {}",
        ProcessAction::STOP => "Successfully halted {}",
        ProcessAction::KILL => "Successfully killed {}",
        _ => "Successfully continued {}",
    }
}

/// The untranslated singular and plural messages that a signal to several
/// processes succeeded.
pub fn success_counted_msgids(action: ProcessAction) -> (r: (&'static str, &'static str))
    requires
        is_signal(action),
    ensures
        r.0@ == success_counted(action).0,
        r.1@ == success_counted(action).1,
{
    match action {
        ProcessAction::TERM => ("Successfully ended the process", "Successfully ended {} processes"),
        ProcessAction::STOP => ("Successfully halted the process", "Successfully halted {} processes"),
        ProcessAction::KILL => ("Successfully killed the process", "Successfully killed {} processes"),
        _ => ("Successfully continued the process", "Successfully continued {} processes"),
    }
}

/// The untranslated singular and plural messages that a signal to several
/// processes failed.
pub fn failure_counted_msgids(action: ProcessAction) -> (r: (&'static str, &'static str))
    requires
        is_signal(action),
    ensures
        r.0@ == failure_counted(action).0,
        r.1@ == failure_counted(action).1,
{
    match action {
        ProcessAction::TERM => (
            "There was a problem ending a process",
            "There were problems ending {} processes",
        ),
        ProcessAction::STOP => (
            "There was a problem halting a process",
            "There were problems halting {} processes",
        ),
        ProcessAction::KILL => (
            "There was a problem killing a process",
            "There were problems killing {} processes",
        ),
        _ => (
            "There was a problem continuing a process",
            "There were problems continuing {} processes",
        ),
    }
}

/// The untranslated message that a signal to one named process failed.
pub fn failure_named_msgid(action: ProcessAction) -> (r: &'static str)
    requires
        is_signal(action),
    ensures
        r@ == failure_named(action),
{
    match action {
        ProcessAction::TERM => "There was a problem ending {}",
        ProcessAction::STOP => "There was a problem halting {}",
        ProcessAction::KILL => "There was a problem killing {}",
        _ => "There was a problem continuing {}",
    }
}

/// The number that gettext chooses the plural form by: the count, cut to 32
/// bits (as `as u32` does).
pub fn plural_number(count: usize) -> (r: u32)
    ensures
        r == count as u32,
{
    count as u32
}

fn translated_with_count(tr: &Translations, single: &str, multiple: &str, count: usize) -> (r: String)
    requires
        no_nul(single@),
        no_nul(multiple@),
    ensures
        exists|t: Seq<char>| r@ == freplace_text(t, seq![dec_text(count as nat)]),
{
    let mut number = String::new();
    push_decimal(&mut number, count as u64);
    assert(number@ =~= dec_text(count as nat));
    let args: [&str; 1] = [number.as_str()];
    let r = ni18n_f(tr, single, multiple, plural_number(count), &args);
    assert(arg_views(args@) =~= seq![dec_text(count as nat)]);
    r
}

fn translated_with_name(tr: &Translations, msgid: &str, name: &str) -> (r: String)
    requires
        no_nul(msgid@),
    ensures
        exists|t: Seq<char>| r@ == freplace_text(t, seq![name@]),
{
    let args: [&str; 1] = [name];
    let r = i18n_f(tr, msgid, &args);
    assert(arg_views(args@) =~= seq![name@]);
    r
}

/// The translated message that a signal to the process `name` succeeded.
pub fn get_action_success(tr: &Translations, action: ProcessAction, name: &str) -> (r: String)
    requires
        is_signal(action),
    ensures
        exists|t: Seq<char>| r@ == freplace_text(t, seq![name@]),
{
    proof {
        lemma_success_named_no_nul(action);
    }
    translated_with_name(tr, success_named_msgid(action), name)
}

/// The translated message that a signal to `count` processes succeeded.
pub fn get_processes_success(tr: &Translations, action: ProcessAction, count: usize) -> (r: String)
    requires
        is_signal(action),
    ensures
        exists|t: Seq<char>| r@ == freplace_text(t, seq![dec_text(count as nat)]),
{
    proof {
        lemma_success_counted_no_nul(action);
    }
    let (single, multiple) = success_counted_msgids(action);
    translated_with_count(tr, single, multiple, count)
}

/// The translated message that a signal to `count` processes failed.
pub fn get_action_failure(tr: &Translations, action: ProcessAction, count: usize) -> (r: String)
    requires
        is_signal(action),
    ensures
        exists|t: Seq<char>| r@ == freplace_text(t, seq![dec_text(count as nat)]),
{
    proof {
        lemma_failure_counted_no_nul(action);
    }
    let (single, multiple) = failure_counted_msgids(action);
    translated_with_count(tr, single, multiple, count)
}

/// The translated message that a signal to the process `name` failed.
pub fn get_named_action_failure(tr: &Translations, action: ProcessAction, name: &str) -> (r: String)
    requires
        is_signal(action),
    ensures
        exists|t: Seq<char>| r@ == freplace_text(t, seq![name@]),
{
    proof {
        lemma_failure_named_no_nul(action);
    }
    translated_with_name(tr, failure_named_msgid(action), name)
}

} // verus!
