use nodeinnet::i18n::Catalog;
use nodeinnet::resources::{
    delete_resource, desktop_config, desktop_icon_path, diag_line, form_name, form_title_key, gateway_config,
    gateway_icon_path, read_allow_control, read_allow_local, save_resource, save_with_id, DiagStatus, Diagnostics,
    Requirement, ResourceForm, ResourceType, SharedResource,
};

fn res(id: &str, kind: ResourceType) -> SharedResource {
    SharedResource {
        id: id.into(),
        name: format!("n-{id}"),
        resource_type: kind,
        config: None,
        is_active: true,
        session_token: Some("tok".into()),
    }
}

fn form(existing: Option<&str>, kind: ResourceType, name: &str) -> ResourceForm {
    ResourceForm {
        existing_id: existing.map(|s| s.to_string()),
        resource_type: kind,
        name: name.into(),
        default_name: "Gateway".into(),
        config: Some(gateway_config(true)),
        is_active: false,
    }
}

#[test]
fn gateway_settings_round_trip() {
    assert_eq!(gateway_config(true), r#"{"allow_local_network":true}"#);
    assert!(read_allow_local(&Some(gateway_config(true))));
    assert!(!read_allow_local(&Some(gateway_config(false))));
    assert!(!read_allow_local(&None));
    assert!(!read_allow_local(&Some("garbage".into())));
    assert!(read_allow_local(&Some(r#"{ "allow_local_network" : true, "x": 1 }"#.into())));
}

#[test]
fn desktop_settings_round_trip() {
    assert_eq!(desktop_config(false), r#"{"allow_control": false}"#);
    assert!(!read_allow_control(ResourceType::RemoteDesktop, &Some(desktop_config(false))));
    assert!(read_allow_control(ResourceType::RemoteDesktop, &Some(desktop_config(true))));
    assert!(read_allow_control(ResourceType::SharedNetwork, &Some(desktop_config(false))));
    assert!(read_allow_control(ResourceType::RemoteDesktop, &Some("{}".into())));
    assert!(read_allow_control(ResourceType::RemoteDesktop, &None));
}

#[test]
fn blank_names_take_the_default() {
    assert_eq!(form_name("  ", "Gateway"), "Gateway");
    assert_eq!(form_name(" Mine ", "Gateway"), " Mine ");
}

#[test]
fn a_new_resource_replaces_its_kind() {
    let list = vec![res("1", ResourceType::SharedNetwork), res("2", ResourceType::RemoteDesktop), res("3", ResourceType::SharedNetwork)];
    let out = save_with_id(&list, &form(None, ResourceType::SharedNetwork, ""), "new".into());
    assert_eq!(out.len(), 2);
    assert_eq!(out[0].id, "2");
    assert_eq!(out[1].id, "new");
    assert_eq!(out[1].name, "Gateway");
    assert!(!out[1].is_active);
    assert!(out[1].session_token.is_none());
}

#[test]
fn editing_changes_only_the_edited_resource() {
    let list = vec![res("1", ResourceType::SharedNetwork), res("2", ResourceType::RemoteDesktop)];
    let out = save_with_id(&list, &form(Some("2"), ResourceType::RemoteDesktop, "Desk"), "ignored".into());
    assert_eq!(out.len(), 2);
    assert_eq!(out[0].name, "n-1");
    assert_eq!(out[1].id, "2");
    assert_eq!(out[1].name, "Desk");
    assert_eq!(out[1].config.as_deref(), Some(r#"{"allow_local_network":true}"#));
    assert_eq!(out[1].session_token.as_deref(), Some("tok"));
    let same = save_with_id(&list, &form(Some("zz"), ResourceType::RemoteDesktop, "Desk"), "x".into());
    assert_eq!(same[1].name, "n-2");
}

#[test]
fn new_resources_get_uuid_ids() {
    let out = save_resource(&vec![], &form(None, ResourceType::RemoteDesktop, "D"));
    let id = &out[0].id;
    assert_eq!(id.len(), 36);
    assert_eq!(&id[14..15], "4");
    assert_eq!(id.matches('-').count(), 4);
    let again = save_resource(&vec![], &form(None, ResourceType::RemoteDesktop, "D"));
    assert_ne!(&again[0].id, id);
}

#[test]
fn deleting_removes_by_id() {
    let list = vec![res("1", ResourceType::Other), res("2", ResourceType::Other)];
    let out = delete_resource(&list, "1");
    assert_eq!(out.len(), 1);
    assert_eq!(out[0].id, "2");
}

#[test]
fn form_texts_and_icons() {
    assert_eq!(form_title_key(true), "common_forms.edit_service");
    assert_eq!(gateway_icon_path(), "/com/net-ui/gtk/vpn.svg");
    assert_eq!(desktop_icon_path(true), "/com/rdesk-ui/gtk/desktop-mac.svg");
}

#[test]
fn diagnostics_install_once_and_report() {
    let mut c = Catalog::new();
    c.register(&[("en", r#"{"rdesk.install_failed":"Failed: %{error}","rdesk.gst_missing":"GStreamer missing"}"#)]);
    let mut d = Diagnostics::new(false, true);
    assert!(d.request(Requirement::GStreamer));
    assert!(!d.request(Requirement::GStreamer));
    let (text, visible, sensitive) = diag_line(&c, Requirement::GStreamer, &d.gst_status, d.gst_available);
    assert_eq!(text, "rdesk.installing_gst");
    assert!(visible && !sensitive);
    d.finished(Requirement::GStreamer, Err("no apt".into()), false, true);
    assert!(matches!(d.gst_status, DiagStatus::Failed(ref e) if e == "no apt"));
    let (text, _, sensitive) = diag_line(&c, Requirement::GStreamer, &d.gst_status, d.gst_available);
    assert_eq!(text, "Failed: no apt");
    assert!(sensitive);
    let (idle, _, _) = diag_line(&c, Requirement::GStreamer, &DiagStatus::Idle, false);
    assert_eq!(idle, "GStreamer missing");
}
