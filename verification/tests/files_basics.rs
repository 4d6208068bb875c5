use nodeinnet::glob::glob_match;
use nodeinnet::paths::{viewer_title, basename, build_path_string, dir_prefix, join, normalize_path, split_path, start_path};
use nodeinnet::perms::{applied_mode, checks_for_mode, format_mode, mode_from_checks, parse_mode};
use nodeinnet::sorting::{compare_rows, sort_column_from, sort_column_name, Order, RowKey, SortColumn};
use nodeinnet::{decimal_string, parse_u16, trim_chars};

#[test]
fn glob_masks_match_case_insensitively() {
    assert!(glob_match("*.TXT", "notes.txt"));
    assert!(glob_match("a?c", "ABC"));
    assert!(glob_match("*", ""));
    assert!(glob_match("a*b*c", "axxbyyc"));
    assert!(!glob_match("a*b", "ac"));
    assert!(!glob_match("?", ""));
}

#[test]
fn path_strings_from_parts() {
    assert_eq!(build_path_string(&[]), "/");
    assert_eq!(build_path_string(&["home".to_string(), "u".to_string()]), "/home/u");
    assert_eq!(build_path_string(&["C:".to_string(), "Users".to_string()]), "C:/Users");
}

#[test]
fn split_and_build_round_trip() {
    let parts = split_path("/home//u/docs/");
    assert_eq!(parts, vec!["home", "u", "docs"]);
    assert_eq!(build_path_string(&parts), "/home/u/docs");
    assert_eq!(split_path("C:\\Users\\me"), vec!["C:", "Users", "me"]);
}

#[test]
fn joins_and_basenames() {
    assert_eq!(join("/a", "b"), "/a/b");
    assert_eq!(join("/a/", "b"), "/a/b");
    assert_eq!(basename("/x/y/z.txt"), "z.txt");
    assert_eq!(basename("plain"), "plain");
    assert_eq!(dir_prefix("/d"), "/d/");
    assert_eq!(dir_prefix("/d/"), "/d/");
}

#[test]
fn registry_paths_lose_trailing_slashes() {
    assert_eq!(normalize_path("/"), "/");
    assert_eq!(normalize_path("HKCU/Software//"), "HKCU/Software");
}

#[test]
fn local_start_path_is_relative_to_the_root() {
    assert_eq!(start_path("/home/u", "/"), "/home/u");
    assert_eq!(start_path("C:\\Users\\me", "C:\\"), "/Users/me");
}

#[test]
fn octal_modes() {
    assert_eq!(format_mode(0o755), "0755");
    assert_eq!(format_mode(0o104755), "4755");
    assert_eq!(parse_mode(" 644 "), Some(0o644));
    assert_eq!(parse_mode("9"), None);
    assert_eq!(parse_mode("17777"), Some(0o7777));
    let checks = checks_for_mode(0o4750);
    assert_eq!(mode_from_checks(&checks), 0o4750);
    assert_eq!(applied_mode("bad", &checks), 0o4750);
    assert_eq!(applied_mode("600", &checks), 0o600);
}

fn row(name: &str, dir: bool, size: u64) -> RowKey {
    RowKey { name: name.into(), is_dir: dir, size, date: "2024-01-01".into() }
}

#[test]
fn rows_sort_with_parent_and_folders_first() {
    assert_eq!(compare_rows(&row("..", true, 0), &row("a", true, 0), SortColumn::Name, false), Order::Smaller);
    assert_eq!(compare_rows(&row("..", true, 0), &row("a", true, 0), SortColumn::Name, true), Order::Larger);
    assert_eq!(compare_rows(&row("z", true, 0), &row("a", false, 0), SortColumn::Name, false), Order::Smaller);
    assert_eq!(compare_rows(&row("B", false, 0), &row("a", false, 0), SortColumn::Name, false), Order::Larger);
    assert_eq!(compare_rows(&row("a", false, 5), &row("b", false, 9), SortColumn::Size, false), Order::Smaller);
    assert_eq!(sort_column_from(Some("size")), SortColumn::Size);
    assert_eq!(sort_column_from(None), SortColumn::Name);
    assert_eq!(sort_column_name(SortColumn::Date), "date");
}

#[test]
fn text_helpers() {
    assert_eq!(parse_u16("65535"), Some(65535));
    assert_eq!(parse_u16("65536"), None);
    assert_eq!(parse_u16(""), None);
    assert_eq!(decimal_string(1234), "1234");
    assert_eq!(decimal_string(0), "0");
    let t: Vec<char> = " \t hi \n".chars().collect();
    assert_eq!(trim_chars(&t).iter().collect::<String>(), "hi");
}

#[test]
fn viewer_titles_are_the_last_component() {
    assert_eq!(viewer_title("/home/u/a.txt"), "a.txt");
    assert_eq!(viewer_title("C:\\docs\\b.md"), "b.md");
    assert_eq!(viewer_title("/home/u/"), "/home/u/");
    assert_eq!(viewer_title("plain"), "plain");
}
