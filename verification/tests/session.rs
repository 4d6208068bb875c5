use nodeinnet::i18n::Catalog;
use nodeinnet::session::{
    api_target, close_proceeds, color_scheme_for, field_target, headless_port_arg, is_structural, link_state,
    region_at, region_icon, region_index, region_resource, region_tooltip_key, render_session, restoring,
    route_event, server_dot_class, server_tooltip_key, submit_command, theme_icon, theme_key, theme_toggle,
    window_title, wizard_page, ColorScheme, EventRoute, PeerState, SessionState, Stage, Theme, TurnRegion,
    WizardCommand, WizardField, WizardView,
};
use nodeinnet::workspace::LinkState;

fn catalog() -> Catalog {
    let mut c = Catalog::new();
    c.register(&[(
        "en",
        r#"{"wizard.title_setup":"Set up","wizard.title_signin":"Sign in","wizard.detected":"Detected %{name}",
            "wizard.all_set":"All set","wizard.all_set_named":"Welcome, %{login}","wizard.this_device":"this device",
            "wizard.connected_to_network":"%{device} joined"}"#,
    )]);
    c
}

fn state(stage: Stage) -> SessionState {
    SessionState { stage, account_login: None, device_name: None, last_error: None }
}

#[test]
fn stages_map_to_wizard_pages() {
    assert_eq!(wizard_page(&Stage::Welcome), (0, "welcome"));
    assert_eq!(wizard_page(&Stage::NamingDevice { suggested_name: "x".into() }), (1, "naming_device"));
    assert_eq!(wizard_page(&Stage::SigningIn), (2, "signing_in"));
    assert_eq!(wizard_page(&Stage::AllSet), (3, "all_set"));
    assert_eq!(wizard_page(&Stage::Ready), (3, "ready"));
}

#[test]
fn window_title_follows_the_stage() {
    let c = catalog();
    assert_eq!(window_title(&c, &state(Stage::SigningIn)), "Sign in");
    assert_eq!(window_title(&c, &state(Stage::NamingDevice { suggested_name: "n".into() })), "Set up");
    assert_eq!(window_title(&c, &state(Stage::Welcome)), "Node.In.Net");
}

#[test]
fn submit_sends_what_the_page_collects() {
    assert!(matches!(submit_command("naming_device", "pc", "", "", false), WizardCommand::SetupName { name } if name == "pc"));
    match submit_command("signing_in", "", "bob", "pw", true) {
        WizardCommand::AuthLogin { login, password, guest } => {
            assert_eq!((login.as_str(), password.as_str(), guest), ("bob", "pw", true));
        }
        _ => panic!("expected a login"),
    }
    assert!(matches!(submit_command("all_set", "", "", "", false), WizardCommand::EnterWorkspace));
    assert!(matches!(submit_command("welcome", "", "", "", false), WizardCommand::SetupBegin));
}

#[test]
fn set_field_names_three_fields() {
    assert_eq!(field_target("name"), Some(WizardField::Name));
    assert_eq!(field_target("password"), Some(WizardField::Password));
    assert_eq!(field_target("other"), None);
}

#[test]
fn wizard_render_acts_only_on_a_page_change() {
    let c = catalog();
    let mut w = WizardView::new();
    let s = state(Stage::NamingDevice { suggested_name: "laptop".into() });
    let r = w.render(&c, &s, "linux");
    assert!(r.changed);
    assert_eq!(r.page, 1);
    assert_eq!(r.report_page.as_deref(), Some("naming_device"));
    assert_eq!(r.name_text.as_deref(), Some("laptop"));
    assert_eq!(r.detected.as_deref(), Some("Detected Linux"));
    assert_eq!(r.focus, Some(WizardField::Name));
    let again = w.render(&c, &s, "linux");
    assert!(!again.changed);
    assert!(again.report_page.is_none() && again.name_text.is_none());
}

#[test]
fn all_set_page_names_the_account_and_device() {
    let c = catalog();
    let mut w = WizardView::new();
    let mut s = state(Stage::AllSet);
    s.account_login = Some("ann".into());
    s.last_error = Some("oops".into());
    let r = w.render(&c, &s, "windows");
    assert_eq!(r.all_set_title.as_deref(), Some("Welcome, ann"));
    assert_eq!(r.all_set_subtitle.as_deref(), Some("this device joined"));
    assert_eq!(r.error.as_deref(), Some("oops"));
}

#[test]
fn signing_in_clears_the_password() {
    let c = catalog();
    let mut w = WizardView::new();
    let r = w.render(&c, &state(Stage::SigningIn), "linux");
    assert!(r.clear_password);
    assert_eq!(r.focus, Some(WizardField::Login));
}

#[test]
fn structural_events_refetch_state() {
    assert!(is_structural("devices_changed"));
    assert!(is_structural("mounts_changed"));
    assert!(!is_structural("session_changed"));
}

#[test]
fn events_are_routed_by_name() {
    assert_eq!(route_event(Some("session_changed")), EventRoute::Session);
    assert_eq!(route_event(Some("registry_changed")), EventRoute::Registry);
    assert_eq!(route_event(Some("nope")), EventRoute::Ignored);
    assert_eq!(route_event(None), EventRoute::Ignored);
}

#[test]
fn ready_session_enters_the_workspace_once() {
    let c = catalog();
    let r = render_session(&c, &state(Stage::Ready), Some("wizard"));
    assert!(r.show_workspace && r.report_ready && r.resize && !r.to_wizard);
    let r2 = render_session(&c, &state(Stage::Ready), Some("workspace"));
    assert!(!r2.report_ready && !r2.resize);
    let r3 = render_session(&c, &state(Stage::SigningIn), Some("workspace"));
    assert!(!r3.show_workspace && r3.to_wizard);
    assert_eq!(r3.title, "Sign in");
}

#[test]
fn closing_waits_for_running_apps() {
    assert!(close_proceeds(0));
    assert!(!close_proceeds(2));
}

#[test]
fn header_pill_and_region() {
    assert_eq!(server_dot_class(true), "on");
    assert_eq!(server_tooltip_key(false), "server.offline");
    assert_eq!(region_icon(TurnRegion::Eu), "flag-eu");
    assert_eq!(region_resource(TurnRegion::Auto), "/com/nodeinnet/gtk/radar.svg");
    assert_eq!(region_tooltip_key(TurnRegion::Main), "relay.region_main");
}

#[test]
fn region_menu_round_trip() {
    for r in [TurnRegion::Auto, TurnRegion::Eu, TurnRegion::Us, TurnRegion::Main] {
        assert_eq!(region_at(region_index(r)), Some(r));
    }
    assert_eq!(region_at(4), None);
}

#[test]
fn theme_index_and_toggle() {
    assert_eq!(color_scheme_for(0), ColorScheme::Default);
    assert_eq!(color_scheme_for(1), ColorScheme::ForceLight);
    assert_eq!(color_scheme_for(2), ColorScheme::ForceDark);
    assert_eq!(color_scheme_for(7), ColorScheme::Default);
    assert_eq!(theme_toggle(true), (ColorScheme::ForceLight, 1, Theme::Light));
    let (scheme, index, theme) = theme_toggle(false);
    assert_eq!((scheme, index, theme), (ColorScheme::ForceDark, 2, Theme::Dark));
    assert_eq!(color_scheme_for(index), scheme);
    assert_eq!(theme_icon(true), "/com/nodeinnet/gtk/afternoon.svg");
    assert_eq!(theme_key(2), "settings.theme_dark");
}

#[test]
fn headless_port_comes_after_its_flag() {
    let args: Vec<String> = ["app", "--headless-port", "8123"].iter().map(|s| s.to_string()).collect();
    assert_eq!(headless_port_arg(&args), Some(8123));
    let bad: Vec<String> = ["app", "--headless-port", "99999"].iter().map(|s| s.to_string()).collect();
    assert_eq!(headless_port_arg(&bad), None);
    let last: Vec<String> = ["app", "--headless-port"].iter().map(|s| s.to_string()).collect();
    assert_eq!(headless_port_arg(&last), None);
    let first: Vec<String> =
        ["--headless-port", "1", "--headless-port", "2"].iter().map(|s| s.to_string()).collect();
    assert_eq!(headless_port_arg(&first), Some(1));
    assert_eq!(headless_port_arg(&[]), None);
}

#[test]
fn peer_states_show_as_link_states() {
    assert_eq!(link_state(PeerState::Authenticating), LinkState::Connecting);
    assert_eq!(link_state(PeerState::ConnectingTransport), LinkState::Connecting);
    assert_eq!(link_state(PeerState::Disconnected), LinkState::Idle);
    assert_eq!(link_state(PeerState::Failed), LinkState::Failed);
    assert_eq!(link_state(PeerState::Connected), LinkState::Connected);
}

#[test]
fn restore_needs_a_token() {
    assert!(restoring(Some("t")));
    assert!(!restoring(Some("")));
    assert!(!restoring(None));
    assert_eq!(api_target(None), "https://node.in.net");
    assert_eq!(api_target(Some("http://x".into())), "http://x");
}
