use nodeinnet::i18n::Catalog;
use nodeinnet::updater::{
    check_reply, download_reply, CheckOutcome, ChecksumMismatch, DownloadOutcome, UpdaterReply,
    checksum_verdict, download_url, is_newer_version, select_update, update_file_name, updates_url_for,
    verify_download, UpdatePackage,
};

#[test]
fn the_manifest_follows_the_configured_server() {
    assert_eq!(
        updates_url_for("http://127.0.0.1:8080"),
        "http://127.0.0.1:8080/downloads/updates.json"
    );
    assert_eq!(updates_url_for("https://example.test/"), "https://example.test/downloads/updates.json");
}

#[test]
fn newer_patch_wins() {
    assert!(is_newer_version("1.2.3", "1.2.4"));
}

#[test]
fn equal_is_not_newer() {
    assert!(!is_newer_version("1.2.3", "1.2.3"));
}

#[test]
fn older_is_not_newer() {
    assert!(!is_newer_version("1.2.10", "1.2.9"));
}

#[test]
fn shorter_side_pads_with_zero() {
    assert!(is_newer_version("1.2", "1.2.1"));
    assert!(!is_newer_version("1.2.0", "1.2"));
}

#[test]
fn numeric_not_lexicographic() {
    assert!(is_newer_version("0.5.9", "0.5.80"));
}

#[test]
fn non_numeric_parts_count_as_zero() {
    assert!(is_newer_version("1.x", "1.1"));
    assert!(!is_newer_version("1.1", "1.x"));
}

#[test]
fn newer_is_asymmetric_on_examples() {
    for (a, b) in [("1.0", "2.0"), ("0.9.9", "1"), ("3.1.4", "3.1.5")] {
        assert!(is_newer_version(a, b));
        assert!(!is_newer_version(b, a));
    }
}

#[test]
fn trailing_slashes_are_dropped_from_the_server() {
    assert_eq!(updates_url_for("https://a.b//"), "https://a.b/downloads/updates.json");
}

fn pkg(app: &str, build: &str, version: &str) -> UpdatePackage {
    UpdatePackage {
        app_type: app.to_string(),
        build_type: build.to_string(),
        version: version.to_string(),
        url: "/downloads/x.deb".to_string(),
        md5: String::new(),
    }
}

#[test]
fn first_matching_package_is_chosen_when_newer() {
    let pkgs = vec![pkg("fm", "deb", "9.9.9"), pkg("app", "deb", "1.3.0"), pkg("app", "deb", "2.0.0")];
    assert_eq!(select_update(&pkgs, "app", "deb", "1.2.0"), Some(1));
    assert_eq!(select_update(&pkgs, "app", "deb", "1.3.0"), None);
    assert_eq!(select_update(&pkgs, "app", "rpm", "0.1"), None);
}

#[test]
fn relative_package_urls_use_the_manifest_server() {
    assert_eq!(
        download_url("https://s.test/downloads/updates.json", "/files/app.deb"),
        "https://s.test/files/app.deb"
    );
    assert_eq!(
        download_url("https://s.test/downloads/updates.json", "https://cdn.test/app.deb"),
        "https://cdn.test/app.deb"
    );
}

#[test]
fn update_file_takes_the_last_extension() {
    assert_eq!(update_file_name("nodeinnet", "1.2.3", "/d/app.tar.gz"), "nodeinnet-update-1.2.3.gz");
    assert_eq!(update_file_name("p", "1", "noext"), "p-update-1.noext");
}

#[test]
fn md5_of_known_data_is_accepted() {
    assert!(verify_download("900150983cd24fb0d6963f7d28e17f72", b"abc").is_ok());
    assert!(verify_download(" 900150983CD24FB0D6963F7D28E17F72 ", b"abc").is_ok());
    assert!(verify_download("", b"anything").is_ok());
}

#[test]
fn md5_mismatch_reports_both_sums() {
    let err = verify_download("00000000000000000000000000000000", b"abc").unwrap_err();
    assert_eq!(err.expected, "00000000000000000000000000000000");
    assert_eq!(err.got, "900150983cd24fb0d6963f7d28e17f72");
}

#[test]
fn checksum_verdict_compares_hex() {
    let digest = [0u8, 1, 0xab, 0xff];
    assert!(checksum_verdict("0001abff", &digest).is_ok());
    let e = checksum_verdict("0001abfe", &digest).unwrap_err();
    assert_eq!(e.got, "0001abff");
}

#[test]
fn automatic_checks_stay_quiet_unless_an_update_is_found() {
    let c = Catalog::new();
    assert!(matches!(check_reply(&c, false, CheckOutcome::Found { version: "2.0".into() }), UpdaterReply::UpdateAvailable { version } if version == "2.0"));
    assert!(matches!(check_reply(&c, false, CheckOutcome::UpToDate), UpdaterReply::Quiet { log: None }));
    assert!(matches!(check_reply(&c, true, CheckOutcome::UpToDate), UpdaterReply::UpToDate));
    assert!(matches!(check_reply(&c, false, CheckOutcome::Error("down".into())), UpdaterReply::Quiet { log: Some(l) } if l == "down"));
    assert!(matches!(check_reply(&c, true, CheckOutcome::Error("down".into())), UpdaterReply::Failed(m) if m == "down"));
    assert!(matches!(check_reply(&c, true, CheckOutcome::Cancelled), UpdaterReply::Failed(m) if m == "updater.check_cancelled"));
}

#[test]
fn downloads_end_in_install_or_a_message() {
    let c = Catalog::new();
    assert!(matches!(download_reply(&c, DownloadOutcome::Saved), UpdaterReply::Install));
    let m = ChecksumMismatch { expected: "a".into(), got: "b".into() };
    assert!(matches!(download_reply(&c, DownloadOutcome::Mismatch(m)), UpdaterReply::Rejected { expected, got } if expected == "a" && got == "b"));
    assert!(matches!(download_reply(&c, DownloadOutcome::Cancelled), UpdaterReply::Failed(m) if m == "updater.download_cancelled"));
}

#[test]
fn trailing_zero_parts_change_nothing() {
    for (a, b) in [("1.2", "1.2.0"), ("1.2.0", "1.2"), ("0.5.9", "0.5.9.0"), ("2", "2.0.0")] {
        assert!(!is_newer_version(a, b));
        assert!(!is_newer_version(b, a));
    }
    assert_eq!(is_newer_version("1.1", "1.2.0"), is_newer_version("1.1", "1.2"));
    assert_eq!(is_newer_version("1.3.0", "1.2"), is_newer_version("1.3", "1.2"));
}
