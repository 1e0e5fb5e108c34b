use resources::search::{
    app_search_filter, app_shown_lowered, process_search_filter, process_shown_lowered,
};
use resources::text::contains_text;

#[test]
fn text_containment() {
    assert!(contains_text("firefox", "fox"));
    assert!(contains_text("firefox", ""));
    assert!(contains_text("", ""));
    assert!(!contains_text("fire", "firefox"));
    assert!(!contains_text("Firefox", "fire"));
}

#[test]
fn process_rows() {
    assert!(process_shown_lowered(false, "zzz", "bash", "/bin/bash"));
    assert!(process_shown_lowered(true, "bas", "bash", ""));
    assert!(process_shown_lowered(true, "bin/", "bash", "/bin/bash"));
    assert!(!process_shown_lowered(true, "zsh", "bash", "/bin/bash"));
    // the query and the texts are lowercased before comparing
    assert!(process_search_filter(true, "FIRE", "firefox", ""));
    assert!(process_search_filter(true, "fire", "Firefox", ""));
    assert!(process_search_filter(true, "USR", "x", "/Usr/bin/x"));
    assert!(!process_search_filter(true, "chrome", "Firefox", "/usr/lib/firefox"));
    assert!(process_search_filter(false, "chrome", "Firefox", ""));
}

#[test]
fn app_rows() {
    assert!(app_shown_lowered(true, "nautilus", "files", Some("org.gnome.nautilus"), ""));
    assert!(!app_shown_lowered(true, "nautilus", "files", None, ""));
    assert!(app_shown_lowered(true, "browse", "files", None, "browse files"));
    assert!(app_search_filter(true, "NAUTILUS", "Files", Some("org.gnome.Nautilus"), None));
    assert!(app_search_filter(true, "manager", "Files", None, Some("File Manager")));
    assert!(!app_search_filter(true, "web", "Files", None, None));
    // an empty query matches every row
    assert!(app_search_filter(true, "", "Files", None, None));
}
