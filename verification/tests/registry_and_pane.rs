use nodeinnet::pane::{
    cursor_entry_name, listing_source, PaneState,
    button_action, fkey_action, focus_panel, other, prompt_answer, shows_new_error, wanted_indices, FKey, PaneEntry,
    Side,
};
use nodeinnet::registry::{
    edit_text, edited_data, type_label_key, value_of_row, value_row_name, RegistryState, RegistryValueData,
    RegistryValueInfo,
};

#[test]
fn registry_values_edit_as_text() {
    assert_eq!(edit_text(&RegistryValueData::DWord(42)), "42");
    assert_eq!(edit_text(&RegistryValueData::Binary(vec![0x0a, 0xff])), "0A FF");
    assert_eq!(edit_text(&RegistryValueData::MultiString(vec!["a".into(), "b".into()])), "a\\nb");
    assert!(matches!(edited_data(&RegistryValueData::DWord(1), "77"), RegistryValueData::DWord(77)));
    assert!(matches!(edited_data(&RegistryValueData::DWord(1), "x"), RegistryValueData::DWord(1)));
    assert!(matches!(edited_data(&RegistryValueData::Binary(vec![]), "0a zz FF"), RegistryValueData::Binary(b) if b == vec![0x0a, 0xff]));
    assert_eq!(type_label_key(&RegistryValueData::QWord(0)), "registry.type_qword");
}

#[test]
fn value_rows_carry_the_value_name() {
    assert_eq!(value_row_name("Path"), "val:Path");
    assert_eq!(value_of_row(&value_row_name("Path")), Some("Path".to_string()));
    assert_eq!(value_of_row("key:HKCU"), None);
}

#[test]
fn registry_listing_is_drawn() {
    let mut r = RegistryState::new();
    assert!(r.render().is_none());
    r.on_entries(
        "/".into(),
        vec!["HKCU".into(), "HKLM".into()],
        vec![RegistryValueInfo { name: String::new(), data: RegistryValueData::String("v".into()) }],
    );
    let drawn = r.render().unwrap();
    assert_eq!(drawn.path, "/");
    assert_eq!(drawn.subkeys_shown, 2);
    assert_eq!(drawn.values_shown, 1);
    assert!(!r.can_edit());
    r.value_selected(Some(String::new()));
    assert!(r.can_edit());
    assert_eq!(r.reset(), "/");
    assert!(!r.can_edit());
}

#[test]
fn function_keys() {
    assert_eq!(fkey_action(4, true), Some(FKey::NewFile));
    assert_eq!(fkey_action(4, false), Some(FKey::Edit));
    assert_eq!(fkey_action(9, false), None);
    assert_eq!(button_action(FKey::Edit, Some(FKey::NewFile), true), FKey::NewFile);
    assert_eq!(button_action(FKey::Edit, None, true), FKey::Edit);
    assert_eq!(other(Side::Left), Side::Right);
}

#[test]
fn wanted_selection_and_prompts() {
    let es = vec![
        PaneEntry { name: "a".into(), is_dir: false, size: 1 },
        PaneEntry { name: "b".into(), is_dir: true, size: 0 },
    ];
    assert_eq!(wanted_indices(&es, &["b".to_string(), "zz".to_string()]), vec![1]);
    assert_eq!(prompt_answer("  new  "), Some("new".to_string()));
    assert_eq!(prompt_answer("   "), None);
    assert!(shows_new_error(&None, &Some("e".into())));
    assert!(!shows_new_error(&Some("e".into()), &Some("e".into())));
    assert!(focus_panel(Side::Left, Side::Left).is_none());
    assert!(focus_panel(Side::Left, Side::Right).is_some());
}

#[test]
fn listings_know_their_source() {
    let l = listing_source(Side::Left, false, None);
    assert!(l.is_local && !l.can_mount);
    assert_eq!(l.fs_label_key, "files.local_fs");
    let r = listing_source(Side::Right, true, Some("Docs".into()));
    assert!(!r.is_local && r.can_mount && r.is_mounted);
    assert_eq!(r.mount_name, "Docs");
    assert_eq!(r.root_icon, "/com/fm-ui/gtk/netdrive.svg");
    let p = PaneState {
        cwd: "/".into(),
        entries: vec![PaneEntry { name: "x".into(), is_dir: false, size: 0 }],
        cursor: 0,
        selection: vec![],
        last_error: None,
        mounted: false,
    };
    assert_eq!(cursor_entry_name(&p), Some("x".to_string()));
    let q = PaneState { cursor: 3, ..p };
    assert_eq!(cursor_entry_name(&q), None);
}
