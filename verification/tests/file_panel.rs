use nodeinnet::fm_actions::{
    clip_request, context_menu_items, right_click, mount_dialog_key, stored_icon_size, upload_placeholder_name, item_path, menu_item_enabled, ClipAction, MenuItem,
    chmod_target, delete_request, duplicate_request, grid_icon_size, grid_size_key, list_row_metrics,
    mkdir_request, mode_for_size, relative_to_root, rename_request, show_hidden_key, size_for_mode, typed_address,
    unique_copy_name, upload_target,
};
use nodeinnet::icons::{
    desktop_hero_name, get_file_icon, icon_extension, os_icon_name, os_pretty, wants_thumbnail, FileIcon, FileKind,
};
use nodeinnet::panel::{key_action, CachedEntry, KeyAction, NavAction, Panel};

fn entry(name: &str, dir: bool) -> CachedEntry {
    CachedEntry { name: name.into(), is_dir: dir, size: 10, date: "d".into(), permissions: Some(0o755) }
}

fn listed(path: &str, names: &[(&str, bool)]) -> Panel {
    let mut p = Panel::new("default", false, true, 30);
    p.on_listing(path, names.iter().map(|(n, d)| entry(n, *d)).collect(), None);
    p
}

#[test]
fn os_names_and_icons() {
    assert_eq!(os_icon_name("darwin"), "os-mac");
    assert_eq!(os_icon_name("freebsd"), "desktop-pc");
    assert_eq!(os_pretty("linux"), "Linux");
    assert_eq!(desktop_hero_name("macos"), "desktop-mac");
}

#[test]
fn file_icons_by_kind() {
    assert!(matches!(get_file_icon("dir", true, 30, None), FileIcon::Resource(r) if r == "/com/fm-ui/gtk/folder.svg"));
    assert!(matches!(get_file_icon("a.TAR.GZ", false, 30, None), FileIcon::Generated(FileKind::Archive, l, 30) if l == "TAR"));
    assert!(matches!(get_file_icon("p.jpeg", false, 80, None), FileIcon::Generated(FileKind::Photo, l, 80) if l == "JPG"));
    assert!(matches!(get_file_icon("run", false, 80, Some(0o755)), FileIcon::Generated(FileKind::Executable, l, 80) if l == "BIN"));
    assert!(matches!(get_file_icon("notes", false, 80, Some(0o644)), FileIcon::Resource(r) if r == "/com/fm-ui/gtk/file.svg"));
    assert_eq!(icon_extension("Photo.PNG"), "png");
    assert!(!wants_thumbnail("a.zip", false));
    assert!(wants_thumbnail("a.png", false));
    assert!(!wants_thumbnail("d", true));
}

#[test]
fn view_modes_and_keys() {
    assert_eq!(size_for_mode("small"), 40);
    assert_eq!(mode_for_size(size_for_mode("large")), "large");
    assert_eq!(grid_icon_size(55), 80);
    assert_eq!(list_row_metrics(Some("tiny")), (20, 2));
    assert_eq!(grid_size_key("default"), "ui.fm_grid_icon_size");
    assert_eq!(grid_size_key("left"), "ui.fm_grid_icon_size_left");
    assert_eq!(show_hidden_key(false, "right"), "ui.show_hidden_files_right");
    assert_eq!(show_hidden_key(true, "right"), "ui.show_hidden_files");
}

#[test]
fn dialog_requests() {
    let p = listed("/home/u", &[("a.txt", false)]);
    assert_eq!(mkdir_request(&p, "new"), Some(("/home/u".to_string(), "new".to_string())));
    assert_eq!(mkdir_request(&p, "a/b"), None);
    assert_eq!(mkdir_request(&p, ""), None);
    assert_eq!(
        rename_request("/home/u", "a.txt", "b.txt"),
        Some(("/home/u/a.txt".to_string(), "/home/u/b.txt".to_string()))
    );
    assert_eq!(rename_request("/home/u", "a.txt", "a.txt"), None);
    let (paths, names) = delete_request(&p, &[("a.txt".to_string(), false)]);
    assert_eq!(paths, vec!["/home/u/a.txt"]);
    assert_eq!(names, vec!["a.txt"]);
    assert_eq!(typed_address("  /etc  "), Some("/etc".to_string()));
    assert_eq!(typed_address("   "), None);
    assert_eq!(upload_target(&p, 0), None);
    assert_eq!(upload_target(&p, 2), Some("/home/u".to_string()));
}

#[test]
fn copies_get_free_names() {
    let existing = vec!["a.txt".to_string(), "a copy.txt".to_string()];
    assert_eq!(unique_copy_name("a.txt", false, &existing), "a copy 2.txt");
    assert_eq!(unique_copy_name("dir.d", true, &[]), "dir.d copy");
    assert_eq!(unique_copy_name(".bashrc", false, &[]), ".bashrc copy");
    let (src, dst) = duplicate_request("/x", "a.txt", false, &existing);
    assert_eq!(src, "/x/a.txt");
    assert_eq!(dst, "/x/a copy 2.txt");
}

#[test]
fn paths_relative_to_the_panel_root() {
    assert_eq!(relative_to_root("/mnt/dav/docs/a", "/mnt/dav"), "/docs/a");
    assert_eq!(relative_to_root("/home/a", "/"), "/home/a");
    assert_eq!(relative_to_root("/other/a", "/mnt"), "/other/a");
}

#[test]
fn listing_renders_parent_row_and_hides_dot_files() {
    let mut p = listed("/home/u", &[(".hidden", false), ("b", true), ("a", false)]);
    let first = p.render();
    let names: Vec<&str> = p.rows.iter().map(|r| r.name.as_str()).collect();
    assert_eq!(names, vec!["..", "b", "a"]);
    assert_eq!(first, 0);
    assert!(matches!(p.up_action(), NavAction::NavigateUp));
}

#[test]
fn going_up_selects_the_folder_left() {
    let mut p = listed("/home/u/docs", &[]);
    p.on_listing("/home/u", vec![entry("docs", true), entry("music", true)], None);
    let pos = p.render();
    assert_eq!(p.rows[pos].name, "docs");
}

#[test]
fn keys_in_the_list() {
    assert_eq!(key_action(Some('*'), false, true), KeyAction::ShowSelectBar);
    assert_eq!(key_action(Some('x'), false, true), KeyAction::QuickJump('x'));
    assert_eq!(key_action(Some('x'), true, true), KeyAction::Proceed);
    assert_eq!(key_action(None, false, true), KeyAction::Proceed);
}

#[test]
fn chmod_works_on_the_first_selected_file() {
    let mut p = listed("/srv", &[("run.sh", false)]);
    p.render();
    let summary = p.select_rows(&[1]);
    assert!(summary.can_chmod);
    assert_eq!(chmod_target(&p), Some(("/srv/run.sh".to_string(), "run.sh".to_string(), 0o755)));
}

#[test]
fn context_menus_offer_paste_into_folders_and_download_of_files() {
    let dir = context_menu_items(true);
    assert!(dir.contains(&MenuItem::PasteInto) && !dir.contains(&MenuItem::Download));
    let file = context_menu_items(false);
    assert_eq!(file.len(), 9);
    assert_eq!(file[4], MenuItem::Download);
    assert!(!menu_item_enabled(MenuItem::PasteHere, 0));
    assert!(menu_item_enabled(MenuItem::PasteInto, 2));
    assert!(menu_item_enabled(MenuItem::Rename, 0));
    assert_eq!(clip_request(MenuItem::PasteInto, "docs"), Some((ClipAction::Paste, Some("docs".to_string()))));
    assert_eq!(clip_request(MenuItem::Cut, "docs"), Some((ClipAction::Cut, None)));
    assert_eq!(clip_request(MenuItem::Delete, "docs"), None);
    assert_eq!(item_path("/a", "b"), "/a/b");
    assert_eq!(item_path("/a/", "b"), "/a/b");
}

#[test]
fn right_clicks_select_the_row_first() {
    assert_eq!(right_click("..", false), None);
    assert_eq!(right_click("a", false), Some(true));
    assert_eq!(right_click("a", true), Some(false));
}

#[test]
fn upload_placeholders_and_mount_dialogs() {
    assert_eq!(upload_placeholder_name("big.iso"), "\u{23f3} big.iso");
    assert_eq!(mount_dialog_key(true, "title"), "fm.webdav.unmount_title");
    assert_eq!(mount_dialog_key(false, "btn"), "fm.webdav.mount_btn");
    assert_eq!(stored_icon_size(None), 80);
    assert_eq!(stored_icon_size(Some(30)), 30);
}
