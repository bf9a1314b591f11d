use lan_mouse::sync_lock::{str_contains, ScreenLockWatch, LOCK_DEBOUNCE_NS};

#[test]
fn session_locked_signal_reports_once_per_debounce_window() {
    let mut watch = ScreenLockWatch::new();
    let line = "signal time=1 sender=:1.2 -> destination=(null destination) path=/org/freedesktop/ScreenSaver; interface=org.freedesktop.ScreenSaver; member=SessionLocked";
    assert!(watch.observe_line(line, 0));
    assert!(!watch.observe_line(line, LOCK_DEBOUNCE_NS));
    assert!(watch.observe_line(line, LOCK_DEBOUNCE_NS + 1));
}

#[test]
fn active_changed_true_reports_and_false_disarms() {
    let mut watch = ScreenLockWatch::new();
    assert!(!watch.observe_line("   boolean true", 0));
    assert!(!watch.observe_line("member=ActiveChanged", 0));
    assert!(watch.active_changed);
    assert!(!watch.observe_line("   boolean false", 10));
    assert!(!watch.active_changed);
    assert!(!watch.observe_line("   boolean true", 20));
    assert!(!watch.observe_line("member=ActiveChanged", 30));
    assert!(watch.observe_line("   boolean true", 40));
    assert_eq!(watch.last_report_ns, Some(40));
    assert!(!watch.active_changed);
}

#[test]
fn substring_search() {
    assert!(str_contains("abcabd", "abd"));
    assert!(!str_contains("abcab", "abd"));
    assert!(str_contains("abc", ""));
    assert!(!str_contains("", "a"));
    assert!(str_contains("héllo", "é"));
}
