use nodeinnet::i18n::Catalog;
use nodeinnet::login::{
    banner_view, default_device_name, device_name_key, initial_install, other_peers, peer_status_markup,
    welcome_device_name, InstallState, LoginEffects, LoginInput, LoginOutput, LoginState, Phase, WelcomeApply,
    WelcomeState,
};

fn catalog() -> Catalog {
    let mut c = Catalog::new();
    c.register(&[(
        "en",
        r#"{"auth.no_devices":"No devices","auth.no_devices_help":"Sign in elsewhere",
            "auth.connected_devices":"%{count} devices","auth.install_failed":"Failed: %{error}",
            "auth.install":"Install","auth.dependencies_missing":"Missing","graph.logged_in_as":"As %{user}"}"#,
    )]);
    c
}

#[test]
fn device_name_keys_per_application() {
    assert_eq!(device_name_key("fm"), "app-fm-name");
    assert_eq!(device_name_key("net"), "app-net-name");
    assert_eq!(device_name_key("sync"), "app-sync-name");
    assert_eq!(device_name_key("rdesk"), "app-rdesk-name");
    assert_eq!(device_name_key(""), "app-name");
}

#[test]
fn default_name_prefers_stored_ones() {
    assert_eq!(default_device_name(Some("mine".into()), Some("shared".into()), "fm", Some("host".into())), "mine");
    assert_eq!(default_device_name(None, Some("shared".into()), "fm", Some("host".into())), "shared");
    assert_eq!(default_device_name(None, None, "fm", Some("host".into())), "fm-host");
    assert_eq!(default_device_name(None, None, "", Some("host".into())), "host");
    assert_eq!(default_device_name(None, None, "net", None), "net-Node");
}

#[test]
fn welcome_name_is_saved_unless_stored() {
    assert_eq!(welcome_device_name(Some("a".into()), None, "", None), ("a".to_string(), false));
    assert_eq!(welcome_device_name(None, Some("b".into()), "", None), ("b".to_string(), true));
}

#[test]
fn welcome_apply_ignores_an_empty_name() {
    let mut w = WelcomeState::new("old".into());
    assert!(matches!(w.apply_pressed(String::new()), WelcomeApply::Ignored));
    assert_eq!(w.device_name, "old");
    assert!(matches!(w.apply_pressed("new".into()), WelcomeApply::Apply { name } if name == "new"));
    assert_eq!(w.device_name, "new");
}

#[test]
fn welcome_login_label() {
    let c = catalog();
    let mut w = WelcomeState::new("d".into());
    assert_eq!(w.login_label(&c), "");
    w.set_account("zoe".into(), true);
    assert_eq!(w.login_label(&c), "As zoe");
    assert!(w.premium);
}

fn submit(s: &mut LoginState, name: &str) -> LoginEffects {
    s.step(LoginInput::Submit { login: "u".into(), password: "p".into(), device_name: name.into(), guest: false })
}

#[test]
fn submit_then_success_saves_the_name_and_finishes_once() {
    let mut s = LoginState::new(InstallState::Hidden);
    let fx = submit(&mut s, "box");
    assert!(s.busy);
    assert!(matches!(fx.output, Some(LoginOutput::SubmitLogin { ref device_name, .. }) if device_name == "box"));
    let fx = s.step(LoginInput::LoginSucceeded);
    assert_eq!(fx.save_name.as_deref(), Some("box"));
    assert!(fx.arm_timer);
    assert_eq!(s.phase, Phase::Transition);
    assert_eq!(s.page_name(), "transition");
    let fx = s.step(LoginInput::TransitionTimer);
    assert!(matches!(fx.output, Some(LoginOutput::TransitionFinished)));
    let fx = s.step(LoginInput::TransitionTimer);
    assert!(fx.output.is_none());
}

#[test]
fn reset_cancels_a_pending_transition() {
    let mut s = LoginState::new(InstallState::Hidden);
    submit(&mut s, "x");
    s.step(LoginInput::LoginSucceeded);
    let fx = s.step(LoginInput::Reset);
    assert!(fx.clear_password);
    assert_eq!(s.phase, Phase::Form);
    assert!(s.step(LoginInput::TransitionTimer).output.is_none());
}

#[test]
fn failure_shows_the_error_and_frees_the_form() {
    let mut s = LoginState::new(InstallState::Hidden);
    submit(&mut s, "x");
    s.step(LoginInput::LoginFailed("bad password".into()));
    assert!(!s.busy);
    assert_eq!(s.error.as_deref(), Some("bad password"));
}

#[test]
fn install_is_not_started_twice() {
    let mut s = LoginState::new(initial_install(true, false, true));
    assert!(matches!(s.install, InstallState::Offered));
    assert!(s.step(LoginInput::InstallRequested).start_install);
    assert!(!s.step(LoginInput::InstallRequested).start_install);
    let fx = s.step(LoginInput::InstallFinished(Ok(())));
    assert!(fx.schedule_hide);
    s.step(LoginInput::HideInstallBanner);
    assert!(matches!(s.install, InstallState::Hidden));
    assert!(matches!(initial_install(false, false, false), InstallState::Hidden));
}

#[test]
fn peers_other_than_this_device_are_counted() {
    let c = catalog();
    let peers = vec!["me".to_string(), "a".to_string(), "b".to_string()];
    assert_eq!(other_peers(&peers, "me"), 2);
    assert_eq!(
        peer_status_markup(&c, &peers, "me"),
        "<span foreground='#00cc66' weight='bold'>2 devices</span>"
    );
    assert_eq!(
        peer_status_markup(&c, &vec!["me".to_string()], "me"),
        "<span foreground='#ff9900' weight='bold'>No devices</span>\n<span size='small' alpha='70%'>Sign in elsewhere</span>"
    );
}

#[test]
fn banner_follows_the_install_state() {
    let c = catalog();
    let b = banner_view(&c, &InstallState::Failed("disk".into()));
    assert!(b.revealed);
    assert_eq!(b.title.as_deref(), Some("Failed: disk"));
    let o = banner_view(&c, &InstallState::Offered);
    assert_eq!(o.button, Some(Some("Install".to_string())));
    assert!(!banner_view(&c, &InstallState::Hidden).revealed);
    assert_eq!(banner_view(&c, &InstallState::Installing).sensitive, Some(false));
}
