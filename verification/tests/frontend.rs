use lan_mouse::frontend::{
    capture_emulation_status, client_index, client_row_request, decimal_string, desktop_autostart_entry,
    desktop_entry_hidden, desktop_exec_path, diagnostics, enabled_label, escape_text,
    launch_agent_entry, permission_warning_text, port_change_request, port_from_text,
    position_from_index, startup_script, switch_updates, xml_escape, ClientRowSignal,
    ClientSummary, DiagnosticsLine, DiagnosticsSnapshot, Escape, FrontendRequest, StatusRows,
    DEFAULT_PORT,
};
use lan_mouse::proto::Position;

#[test]
fn hidden_desktop_entries_are_detected() {
    assert!(desktop_entry_hidden("[Desktop Entry]\nHidden=true\n"));
    assert!(desktop_entry_hidden("[Desktop Entry]\n  hidden=TRUE \r\nName=x"));
    assert!(desktop_entry_hidden("Hidden=true"));
    assert!(!desktop_entry_hidden("[Desktop Entry]\nHidden=false\n"));
    assert!(!desktop_entry_hidden("X-Hidden=true\n"));
    assert!(!desktop_entry_hidden(""));
    assert!(!desktop_entry_hidden("Hidden = true"));
}

#[test]
fn exec_paths_are_quoted_only_with_whitespace() {
    assert_eq!(desktop_exec_path("/usr/bin/lan-mouse"), "/usr/bin/lan-mouse");
    assert_eq!(
        desktop_exec_path("/opt/Lan Mouse/bin\\x\"y"),
        "\"/opt/Lan Mouse/bin\\\\x\\\"y\""
    );
    assert_eq!(desktop_exec_path("/a\u{3000}b"), "\"/a\u{3000}b\"");
}

#[test]
fn escaping_styles() {
    assert_eq!(xml_escape("a&b<c>d\"e'f"), "a&amp;b&lt;c&gt;d&quot;e&apos;f");
    assert_eq!(escape_text(Escape::Cmd, "C:\\a\"b"), "C:\\a\"\"b");
    assert_eq!(escape_text(Escape::DesktopExec, "plain"), "plain");
}

#[test]
fn autostart_entries() {
    assert_eq!(
        desktop_autostart_entry("/usr/bin/lan-mouse"),
        "[Desktop Entry]\nType=Application\nName=Lan Mouse Ex\nComment=Mouse & Keyboard sharing via LAN\nExec=/usr/bin/lan-mouse\nTryExec=/usr/bin/lan-mouse\nIcon=de.feschber.LanMouse\nTerminal=false\nStartupNotify=true\nX-GNOME-Autostart-enabled=true\n"
    );
    let plist = launch_agent_entry("/Applications/A&B.app");
    assert!(plist.contains("<string>/Applications/A&amp;B.app</string>"));
    assert!(plist.starts_with("<?xml version=\"1.0\" encoding=\"UTF-8\"?>\n"));
    assert_eq!(
        startup_script("C:\\Lan \"Mouse\".exe"),
        "@echo off\r\nstart \"Lan Mouse Ex\" \"C:\\Lan \"\"Mouse\"\".exe\"\r\n"
    );
}

#[test]
fn port_text_parsing() {
    assert_eq!(port_from_text("4243"), 4243);
    assert_eq!(port_from_text("+80"), 80);
    assert_eq!(port_from_text("0065535"), 65535);
    assert_eq!(port_from_text("65536"), DEFAULT_PORT);
    assert_eq!(port_from_text("99999999999999999999"), DEFAULT_PORT);
    assert_eq!(port_from_text(""), DEFAULT_PORT);
    assert_eq!(port_from_text("+"), DEFAULT_PORT);
    assert_eq!(port_from_text("-1"), DEFAULT_PORT);
    assert_eq!(port_from_text("12a"), DEFAULT_PORT);
    assert_eq!(port_from_text(" 12"), DEFAULT_PORT);
    for text in ["0", "1", "+7", "65535", "x", "", "70000"] {
        assert_eq!(
            port_from_text(text),
            text.parse::<u16>().unwrap_or(DEFAULT_PORT)
        );
    }
    assert_eq!(port_change_request("5000"), FrontendRequest::ChangePort(5000));
}

#[test]
fn decimal_formatting() {
    for n in [0u64, 7, 10, 42, 4242, u64::MAX] {
        assert_eq!(decimal_string(n), n.to_string());
    }
}

#[test]
fn diagnostics_lines_list_settings_and_peers() {
    let clients = (0..7u64)
        .map(|handle| ClientSummary {
            handle,
            hostname: if handle == 1 {
                Some("desk".to_owned())
            } else if handle == 2 {
                Some(String::new())
            } else {
                None
            },
            ips: if handle == 1 {
                vec!["10.0.0.1".to_owned(), "fe80::1".to_owned()]
            } else {
                vec![]
            },
            active: handle == 1,
            position: "left".to_owned(),
        })
        .collect();
    let snapshot = DiagnosticsSnapshot {
        capture_active: true,
        emulation_active: false,
        clipboard_sharing: true,
        autostart: false,
        swap_option_command: false,
        sync_lock: true,
        port: 4242,
        clients,
        authorized_count: 3,
        last_event: String::new(),
    };
    let lines = diagnostics(&snapshot);
    let rows: Vec<Option<(String, String)>> = lines
        .into_iter()
        .map(|l| match l {
            DiagnosticsLine::Row(a, b) => Some((a, b)),
            DiagnosticsLine::Separator => None,
        })
        .collect();
    let row = |a: &str, b: &str| Some((a.to_owned(), b.to_owned()));
    assert_eq!(
        rows,
        vec![
            row("Capture", "enabled"),
            row("Emulation", "disabled"),
            row("Clipboard", "enabled"),
            row("Autostart", "disabled"),
            row("Option/Command swap", "disabled"),
            row("Sync Lock", "enabled"),
            row("Port", "4242"),
            None,
            row("Configured peers", "7"),
            row("client 0", "inactive, left, unresolved"),
            row("desk", "active, left, 10.0.0.1, fe80::1"),
            row("client 2", "inactive, left, unresolved"),
            row("client 3", "inactive, left, unresolved"),
            row("client 4", "inactive, left, unresolved"),
            row("Authorized peers", "3"),
            row("Last event", "none"),
        ]
    );
}

#[test]
fn status_rows_and_switches() {
    assert_eq!(
        capture_emulation_status(true, false, false),
        StatusRows {
            capture_row_visible: false,
            emulation_row_visible: true,
            group_visible: true
        }
    );
    assert_eq!(
        capture_emulation_status(true, false, true),
        StatusRows {
            capture_row_visible: true,
            emulation_row_visible: false,
            group_visible: true
        }
    );
    assert_eq!(
        capture_emulation_status(true, true, true),
        StatusRows {
            capture_row_visible: false,
            emulation_row_visible: false,
            group_visible: false
        }
    );
    assert_eq!(switch_updates(true, false, true), (false, true));
    assert_eq!(permission_warning_text(false).2, "Grant");
    assert_eq!(permission_warning_text(true).0, "relaunch required");
    assert_eq!(enabled_label(true), "enabled");
}

#[test]
fn client_row_signals_become_requests() {
    assert_eq!(
        client_row_request(3, ClientRowSignal::HostnameChange(String::new())),
        FrontendRequest::UpdateHostname(3, None)
    );
    assert_eq!(
        client_row_request(3, ClientRowSignal::HostnameChange("pc".to_owned())),
        FrontendRequest::UpdateHostname(3, Some("pc".to_owned()))
    );
    assert_eq!(
        client_row_request(4, ClientRowSignal::PortChange(70000)),
        FrontendRequest::UpdatePort(4, 70000u32 as u16)
    );
    assert_eq!(
        client_row_request(5, ClientRowSignal::PositionChange(9)),
        FrontendRequest::UpdatePosition(5, Position::Bottom)
    );
    assert_eq!(position_from_index(2), Position::Top);
    assert_eq!(
        client_row_request(6, ClientRowSignal::Dns),
        FrontendRequest::ResolveDns(6)
    );
}

#[test]
fn client_rows_are_found_by_handle() {
    assert_eq!(client_index(&[4, 7, 7], 7), Some(1));
    assert_eq!(client_index(&[4, 7], 5), None);
    assert_eq!(client_index(&[], 5), None);
}
