use nodeinnet::settings::{
    category_at, language_at, language_position, limit_correction, page_name, pong_correction, stored_timeouts,
    timeouts_from_form, unique_share_name, SettingsPages, ShareList, Timeouts,
    sharing_switches, sharing_toggle, SharingChange,
};
use nodeinnet::workspace::ServiceKind;

#[test]
fn pages_are_built_on_first_visit_only() {
    let mut p = SettingsPages::new();
    assert!(p.select(2));
    assert!(!p.select(2));
    assert!(p.select(0));
    assert!(!p.select(9));
    assert_eq!(category_at(2), ("connection", "settings.cat_connection"));
    assert_eq!(page_name(3), "page_3");
}

#[test]
fn share_names_count_up_from_two() {
    let shares = vec![("docs".to_string(), "/a/docs".to_string()), ("docs 2".to_string(), "/b/docs".to_string())];
    assert_eq!(unique_share_name("docs", &shares), "docs 3");
    assert_eq!(unique_share_name("music", &shares), "music");
}

#[test]
fn adding_folders_keeps_names_apart() {
    let mut l = ShareList { shares: vec![] };
    assert_eq!(l.add_folder("/home/u/Photos"), "Photos");
    assert_eq!(l.add_folder("/mnt/Photos"), "Photos 2");
    assert_eq!(l.add_folder("/"), "share");
    assert_eq!(l.shares[1], ("Photos 2".to_string(), "/mnt/Photos".to_string()));
    l.remove("Photos");
    assert_eq!(l.shares.len(), 2);
    assert!(l.shares.iter().all(|(n, _)| n != "Photos"));
}

#[test]
fn timeouts_fall_back_to_defaults() {
    let d = Timeouts { ping_interval_secs: 20, pong_timeout_ms: 60_000, ws_connect_secs: 10 };
    let t = stored_timeouts(d, Some(5), None, None);
    assert_eq!(t, Timeouts { ping_interval_secs: 5, pong_timeout_ms: 60_000, ws_connect_secs: 10 });
    assert_eq!(timeouts_from_form(1, 30, 2).pong_timeout_ms, 30_000);
    assert_eq!(pong_correction(30, 45_500), Some(45));
    assert_eq!(pong_correction(45, 45_999), None);
    assert_eq!(limit_correction(100, 64), Some(64));
    assert_eq!(limit_correction(64, 64), None);
}

#[test]
fn language_menu_positions() {
    assert_eq!(language_position("en"), 0);
    assert_eq!(language_position("ru"), 12);
    assert_eq!(language_position("zz"), 0);
    assert_eq!(language_at(1), Some("pl"));
    assert_eq!(language_at(15), None);
}

#[test]
fn sharing_page_offers_registry_on_windows_only() {
    let plain = sharing_switches(false);
    assert_eq!(plain, vec![ServiceKind::SystemInfo, ServiceKind::Files, ServiceKind::Terminal, ServiceKind::Desktop, ServiceKind::Network]);
    let win = sharing_switches(true);
    assert_eq!(win.len(), 6);
    assert_eq!(win[5], ServiceKind::Registry);
}

#[test]
fn sharing_switches_change_the_configuration() {
    assert_eq!(sharing_toggle(ServiceKind::Files, true), (SharingChange::ShowShares, false));
    assert_eq!(sharing_toggle(ServiceKind::Files, false), (SharingChange::ClearShares, true));
    assert_eq!(sharing_toggle(ServiceKind::Registry, false), (SharingChange::SetRegistry(false), true));
    assert_eq!(sharing_toggle(ServiceKind::Desktop, true), (SharingChange::SetService(ServiceKind::Desktop, true), true));
}
