use nodeinnet::drives::{resolve_drive_details, shorten_peer_id, FtpConnection, MountPoint, PeerConnection, PeerKnowledge};
use nodeinnet::i18n::Catalog;
use nodeinnet::transfers::{
    confirmation_keys, conflict_answer, name_lines, plan_worth_asking, ConflictAnswer, ConflictResolver, OnConflict,
    ResolverStep, TransferKind,
};
use nodeinnet::workspace::{
    account_label, clamp_rail, device_visible, dot_class, link_tooltip_key, live_streams, mock_devices, online_pill,
    AcceptAnyAuth, LinkState, device_subtitle, tunnel_binary, tunnel_subtitle,
};

fn no_knowledge() -> PeerKnowledge {
    PeerKnowledge { peer_name: None, resource_name: None }
}

#[test]
fn drives_by_source_key() {
    let mut c = Catalog::new();
    c.register(&[("en", r#"{"fm.user_home":"Home","fm.system_root":"System"}"#)]);
    let ftp = vec![FtpConnection { name: "Box".into(), protocol: "SFTP".into(), host: "h".into(), port: 22, user: "u".into() }];
    let d = resolve_drive_details(&c, "sftp://u@h:22", &[], &ftp, &[], no_knowledge(), "/home/u", &[], false);
    assert_eq!(d.name, "Box");
    assert_eq!(d.icon, "/com/fm-ui/gtk/ftp.svg");
    let home = resolve_drive_details(&c, "local_fs:/home/u/docs", &["local_fs:~".to_string()], &[], &[], no_knowledge(), "/home/u", &[], false);
    assert_eq!(home.name, "Home");
    assert!(home.is_favorite);
    let mounts = vec![
        MountPoint { path: "/mnt".into(), name: "All".into() },
        MountPoint { path: "/mnt/usb".into(), name: "USB".into() },
    ];
    let usb = resolve_drive_details(&c, "local_fs:/mnt/usb/x", &[], &[], &[], no_knowledge(), "/home/u", &mounts, false);
    assert_eq!(usb.name, "USB");
    let root = resolve_drive_details(&c, "local_fs:/etc", &[], &[], &[], no_knowledge(), "/home/u", &mounts, false);
    assert_eq!(root.name, "System");
    let peers = vec![PeerConnection { name: "Laptop".into(), peer_id: "abc".into() }];
    let p2p = resolve_drive_details(&c, "p2p://abc@docs", &[], &[], &peers, no_knowledge(), "/home/u", &[], false);
    assert_eq!(p2p.name, "docs (Laptop)");
}

#[test]
fn windows_paths_name_their_disk() {
    let mut c = Catalog::new();
    c.register(&[("en", r#"{"fm.disk":"Disk %{letter}","fm.system_root":"System"}"#)]);
    let d = resolve_drive_details(&c, "local_fs:d:\\Games", &["local_fs:d:".to_string()], &[], &[], no_knowledge(), "C:\\Users\\me", &[], true);
    assert_eq!(d.name, "Disk D");
    assert_eq!(d.icon, "/com/fm-ui/gtk/ssd.svg");
    assert!(d.is_favorite);
    let unix = resolve_drive_details(&c, "local_fs:d:\\Games", &[], &[], &[], no_knowledge(), "/home/u", &[], false);
    assert_eq!(unix.name, "System");
}

#[test]
fn long_peer_ids_are_shortened() {
    assert_eq!(shorten_peer_id("0123456789abcdef"), "012345...abcdef");
    assert_eq!(shorten_peer_id("short"), "short");
}

#[test]
fn device_dots_and_tooltips() {
    assert_eq!(dot_class(false, LinkState::Connected), "off");
    assert_eq!(dot_class(true, LinkState::Connecting), "busy");
    assert_eq!(link_tooltip_key(true, LinkState::Failed), "link.failed");
}

#[test]
fn mock_devices_and_pill() {
    let devs = mock_devices();
    assert_eq!(devs.len(), 4);
    assert_eq!(online_pill(&devs), (2, false, "link.online_count"));
    assert!(AcceptAnyAuth.login("a", "b").is_ok());
    assert!(AcceptAnyAuth.register_device("n", "d").is_ok());
}

#[test]
fn device_search_and_account() {
    assert!(device_visible("Pixel 9 Pro XL", "pro"));
    assert!(device_visible("x", ""));
    assert!(!device_visible("server-1", "laptop"));
    let mut c = Catalog::new();
    c.register(&[("en", r#"{"workspace.guest":"Guest"}"#)]);
    assert_eq!(account_label(&c, Some("ann")), "ann");
    assert_eq!(account_label(&c, Some("")), "Guest");
    assert_eq!(account_label(&c, None), "Guest");
}

#[test]
fn rail_and_streams() {
    assert_eq!(clamp_rail(150), Some(200));
    assert_eq!(clamp_rail(450), Some(400));
    assert_eq!(clamp_rail(300), None);
    assert_eq!(live_streams(5, 3), 2);
    assert_eq!(live_streams(3, 5), 0);
}

#[test]
fn long_name_lists_are_summed_up() {
    let mut c = Catalog::new();
    c.register(&[("en", r#"{"files.and_more":"and %{count} more"}"#)]);
    let names: Vec<String> = (0..15).map(|i| format!("f{i}")).collect();
    let lines = name_lines(&c, &names);
    assert_eq!(lines.len(), 13);
    assert_eq!(lines[12], "and 3 more");
    assert_eq!(name_lines(&c, &names[..2]), vec!["f0", "f1"]);
}

#[test]
fn conflicts_are_asked_one_by_one() {
    let mut r = ConflictResolver::new(vec!["a".into(), "b".into(), "c".into()]);
    assert!(matches!(r.step(), ResolverStep::Ask { ref name, offer_rest: true } if name == "a"));
    r.answer(conflict_answer("skip", false));
    assert!(matches!(r.step(), ResolverStep::Ask { ref name, .. } if name == "b"));
    r.answer(conflict_answer("replace", true));
    assert!(matches!(r.step(), ResolverStep::Done));
    assert_eq!(r.answers.iter().map(|(_, c)| *c).collect::<Vec<_>>(), vec![OnConflict::Skip, OnConflict::Replace, OnConflict::Replace]);
    let mut r2 = ConflictResolver::new(vec!["x".into()]);
    assert!(matches!(r2.step(), ResolverStep::Ask { offer_rest: false, .. }));
    r2.answer(conflict_answer("other", false));
    assert!(matches!(r2.step(), ResolverStep::Cancelled));
    assert_eq!(conflict_answer("keep_both", true), ConflictAnswer::Choose { choice: OnConflict::KeepBoth, for_the_rest: true });
}

#[test]
fn transfer_confirmations() {
    assert!(plan_worth_asking(false, 1));
    assert!(!plan_worth_asking(true, 1));
    assert!(!plan_worth_asking(false, 0));
    assert_eq!(confirmation_keys(TransferKind::Move), ("files.move_title", "files.move_n"));
}

#[test]
fn proxied_program_rows() {
    assert_eq!(tunnel_binary("/usr/bin/firefox --new-window"), "firefox");
    assert_eq!(tunnel_binary("C:\\Apps\\app.exe -x"), "app.exe");
    assert_eq!(tunnel_binary("   "), "   ");
    assert_eq!(tunnel_binary("dir/ arg"), "");
    let mut c = Catalog::new();
    c.register(&[("en", r#"{"workspace.proxied_row_sub":"PID %{pid}"}"#)]);
    assert_eq!(tunnel_subtitle(&c, 4242), "PID 4242");
    assert_eq!(device_subtitle("macos"), "macos");
    assert_eq!(device_subtitle("windows"), "windows");
}
