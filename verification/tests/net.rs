use nodeinnet::apps::order_installed_apps;
use nodeinnet::i18n::Catalog;
use nodeinnet::net::{
    entry_for_pick, fallback_entry, pick_entry, parse_desktop_entry, refusal_key, wants_desktop_text, refusal_text, remove_all_chars, NetworkState, RemoteApp, RemoteApps,
    RemotePane, RemoteSession, RowAction,
};

fn answer() -> RemoteApps {
    RemoteApps {
        refused: None,
        apps: vec![
            RemoteApp { id: "ff".into(), name: "Firefox".into(), icon_name: Some("firefox".into()) },
            RemoteApp { id: "vlc".into(), name: "VLC".into(), icon_name: None },
        ],
        sessions: vec![RemoteSession { app_id: "vlc".into(), session_id: 7 }],
    }
}

#[test]
fn desktop_files_give_name_command_and_icon() {
    let text = "[Desktop Entry]\nName=Firefox\nName=Other\nExec=firefox %u --new %U\nIcon=firefox\n";
    let e = parse_desktop_entry(text).unwrap();
    assert_eq!(e.name, "Firefox");
    assert_eq!(e.command, "firefox  --new");
    assert_eq!(e.icon.as_deref(), Some("firefox"));
}

#[test]
fn hidden_or_incomplete_desktop_files_give_nothing() {
    assert!(parse_desktop_entry("Name=A\nExec=a\nNoDisplay=true\n").is_none());
    assert!(parse_desktop_entry("Name=A\n").is_none());
    assert!(parse_desktop_entry("").is_none());
    let e = parse_desktop_entry("  Name=B \r\nExec= b %F \r\n").unwrap();
    assert_eq!(e.name, "B");
    assert_eq!(e.command, "b");
    assert!(e.icon.is_none());
}

#[test]
fn field_codes_are_removed_left_to_right() {
    let s: Vec<char> = "a%%uu".chars().collect();
    let p: Vec<char> = "%u".chars().collect();
    assert_eq!(remove_all_chars(&s, &p).iter().collect::<String>(), "a%u");
}

#[test]
fn refusals_have_messages() {
    assert_eq!(refusal_key("too_many"), "net.remote_too_many");
    assert_eq!(refusal_key("??"), "net.remote_unknown_reason");
    let mut c = Catalog::new();
    c.register(&[("en", r#"{"net.remote_no_consent":"The owner said no"}"#)]);
    assert_eq!(refusal_text(&c, "no_consent"), "The owner said no");
}

#[test]
fn a_connected_peer_is_asked_for_its_apps() {
    let mut n = NetworkState::new();
    assert!(!n.set_context("pc".into(), true, false));
    assert!(n.set_context("pc".into(), true, true));
    assert!(n.set_remote(Some(answer())));
    assert!(!n.set_remote(Some(answer())));
    assert!(!n.set_context("pc".into(), true, true));
    assert!(n.set_context("other".into(), true, true));
    assert!(n.remote.is_none());
}

#[test]
fn remote_pane_shows_rows_with_actions() {
    let c = Catalog::new();
    let mut n = NetworkState::new();
    assert!(matches!(n.remote_pane(&c), RemotePane::Problem(t) if t == "net.remote_no_peer"));
    n.set_context("pc".into(), true, true);
    assert!(matches!(n.remote_pane(&c), RemotePane::Asking));
    n.set_remote(Some(answer()));
    match n.remote_pane(&c) {
        RemotePane::List(rows) => {
            assert_eq!(rows.len(), 2);
            assert!(matches!(&rows[0].action, RowAction::Launch(id) if id == "ff"));
            assert!(matches!(rows[1].action, RowAction::Stop(7)));
            assert_eq!(rows[0].icon.as_deref(), Some("firefox"));
        }
        _ => panic!("expected a list"),
    }
    n.set_remote(Some(RemoteApps { refused: Some("network_off".into()), apps: vec![], sessions: vec![] }));
    assert!(matches!(n.remote_pane(&c), RemotePane::Problem(t) if t == "net.remote_network_off"));
    n.set_remote(Some(RemoteApps { refused: None, apps: vec![], sessions: vec![] }));
    assert!(matches!(n.remote_pane(&c), RemotePane::Empty));
}

#[test]
fn socket_counter_line() {
    let mut c = Catalog::new();
    c.register(&[("en", r#"{"net.sockets_count":"%{count} sockets"}"#)]);
    let mut n = NetworkState::new();
    n.set_totals(12, 1, 2);
    assert_eq!(n.sockets_label(&c), "12 sockets");
}

fn app(name: &str, cmd: &str) -> nodeinnet::net::DesktopEntry {
    nodeinnet::net::DesktopEntry { name: name.into(), command: cmd.into(), icon: None }
}

#[test]
fn installed_apps_are_sorted_and_named_once() {
    let found = vec![app("b", "1"), app("A", "2"), app("a", "3"), app("b", "4"), app("C", "5")];
    let ordered = order_installed_apps(&found);
    let names: Vec<(&str, &str)> = ordered.iter().map(|e| (e.name.as_str(), e.command.as_str())).collect();
    assert_eq!(names, vec![("A", "2"), ("a", "3"), ("b", "1"), ("C", "5")]);
    assert!(order_installed_apps(&vec![]).is_empty());
}

#[test]
fn picked_desktop_file_gives_its_application() {
    assert!(wants_desktop_text("/usr/share/applications/firefox.desktop"));
    assert!(!wants_desktop_text("/usr/bin/firefox"));
    assert!(!wants_desktop_text("/tmp/.desktop"));
    let text = "[Desktop Entry]\nName=Firefox\nExec=firefox %u\nIcon=firefox\n";
    let e = entry_for_pick("/a/ff.desktop", "/usr/share/applications/firefox.desktop", Some(text));
    assert_eq!(e.name, "Firefox");
    assert_eq!(e.command, "firefox");
    assert_eq!(e.icon.as_deref(), Some("firefox"));
}

#[test]
fn picked_program_falls_back_to_its_file_name() {
    let e = fallback_entry("/opt/tools/run.sh", "/opt/tools/real/run.sh");
    assert_eq!(e.name, "run.sh");
    assert_eq!(e.command, "/opt/tools/real/run.sh");
    assert!(e.icon.is_none());
    let e = entry_for_pick("/usr/bin/vlc", "/usr/bin/vlc", None);
    assert_eq!(e.name, "vlc");
    assert_eq!(e.command, "/usr/bin/vlc");
    let e = entry_for_pick("/x/app.desktop", "/x/app.desktop", Some("Name=A\n"));
    assert_eq!(e.name, "app.desktop");
    assert_eq!(e.command, "/x/app.desktop");
    let e = entry_for_pick("/", "/", None);
    assert_eq!(e.name, "");
}

#[test]
fn picked_entry_from_its_parts() {
    let e = pick_entry(Some("tool"), "/bin/tool", false, Some("Name=X\nExec=x\n"));
    assert_eq!(e.name, "tool");
    assert_eq!(e.command, "/bin/tool");
    let e = pick_entry(Some("x.desktop"), "/a/x.desktop", true, Some("Name=X\nExec=x %f\n"));
    assert_eq!(e.name, "X");
    assert_eq!(e.command, "x");
    assert!(e.icon.is_none());
    let e = pick_entry(None, "/a/x.desktop", true, None);
    assert_eq!(e.name, "");
    assert_eq!(e.command, "/a/x.desktop");
}
