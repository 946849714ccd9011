use std::io;
use std::path::Path;

use windows_kits::{
    has_prefix, latest_version, name_le, DirectoryType, Error, WindowsKits, INSTALLED_ROOTS_KEY,
    KITS_ROOT_VALUE, VERSION_PREFIX,
};

const ROOT: &str = "C:\\Program Files (x86)\\Windows Kits\\10";

fn kits(root: &str) -> WindowsKits {
    WindowsKits::new(Ok(root.to_string())).unwrap()
}

fn joined(base: &str, part: &str) -> String {
    Path::new(base).join(part).to_string_lossy().into_owned()
}

fn listing(names: &[&str]) -> io::Result<Vec<Option<String>>> {
    Ok(names.iter().map(|n| Some(n.to_string())).collect())
}

#[test]
fn new_keeps_the_root() {
    let k = kits(ROOT);
    assert_eq!(k.path(), ROOT);
}

#[test]
fn new_reports_a_failed_read() {
    let r = WindowsKits::new(Err(io::Error::new(io::ErrorKind::NotFound, "no key")));
    match r {
        Err(Error::IoError(e)) => assert_eq!(e.kind(), io::ErrorKind::NotFound),
        _ => panic!("expected an I/O error"),
    }
}

#[test]
fn registry_location() {
    assert_eq!(INSTALLED_ROOTS_KEY, r"SOFTWARE\Microsoft\Windows Kits\Installed Roots");
    assert_eq!(KITS_ROOT_VALUE, "KitsRoot10");
}

#[test]
fn category_dirs_are_root_joined_with_literals() {
    let k = kits(ROOT);
    assert_eq!(k.get_dir(DirectoryType::Binaries), joined(ROOT, "bin"));
    assert_eq!(k.get_dir(DirectoryType::Headers), joined(ROOT, "Include"));
    assert_eq!(k.get_dir(DirectoryType::Libraries), joined(ROOT, "Lib"));
}

#[test]
fn category_dir_extends_the_root() {
    let k = kits(ROOT);
    let d = k.get_dir(DirectoryType::Binaries);
    assert_ne!(d, ROOT);
    assert!(d.starts_with(ROOT));
    assert!(d.ends_with("bin"));
}

#[test]
fn category_dir_is_the_same_on_every_call() {
    let k = kits(ROOT);
    for t in [DirectoryType::Binaries, DirectoryType::Headers, DirectoryType::Libraries] {
        assert_eq!(k.get_dir(t), k.get_dir(t));
    }
}

#[test]
fn headers_dir_for_any_root() {
    for root in [ROOT, "D:\\Kits", "/opt/kits", "relative", ""] {
        assert_eq!(kits(root).get_dir(DirectoryType::Headers), joined(root, "Include"));
    }
}

#[test]
fn picks_greatest_version_and_skips_others() {
    let k = kits(ROOT);
    let r = k
        .get_version_dir(
            DirectoryType::Headers,
            listing(&["10.0.10240.0", "10.0.19041.0", "9.0", "notes.txt"]),
        )
        .unwrap();
    assert_eq!(r, joined(&joined(ROOT, "Include"), "10.0.19041.0"));
}

#[test]
fn order_of_the_listing_does_not_matter() {
    let k = kits(ROOT);
    let a = k
        .get_version_dir(DirectoryType::Libraries, listing(&["10.0.19041.0", "10.0.10240.0"]))
        .unwrap();
    let b = k
        .get_version_dir(DirectoryType::Libraries, listing(&["10.0.10240.0", "10.0.19041.0"]))
        .unwrap();
    assert_eq!(a, b);
    assert_eq!(a, joined(&joined(ROOT, "Lib"), "10.0.19041.0"));
}

#[test]
fn empty_directory_is_not_found() {
    let k = kits(ROOT);
    let r = k.get_version_dir(DirectoryType::Binaries, Ok(vec![]));
    assert!(matches!(r, Err(Error::DirectoryNotFound)));
}

#[test]
fn directory_without_versions_is_not_found() {
    let k = kits(ROOT);
    let r = k.get_version_dir(DirectoryType::Binaries, listing(&["9.0", "x64", "1", "10"]));
    assert!(matches!(r, Err(Error::DirectoryNotFound)));
}

#[test]
fn missing_directory_is_an_io_error() {
    let k = kits(ROOT);
    let r = k.get_version_dir(
        DirectoryType::Binaries,
        Err(io::Error::new(io::ErrorKind::NotFound, "missing")),
    );
    match r {
        Err(Error::IoError(e)) => assert_eq!(e.kind(), io::ErrorKind::NotFound),
        _ => panic!("expected an I/O error"),
    }
}

#[test]
fn unreadable_entries_are_skipped() {
    let k = kits(ROOT);
    let entries = Ok(vec![None, Some("10.0.17763.0".to_string()), None]);
    let r = k.get_version_dir(DirectoryType::Headers, entries).unwrap();
    assert_eq!(r, joined(&joined(ROOT, "Include"), "10.0.17763.0"));
    let only_bad = Ok(vec![None, None]);
    assert!(matches!(
        k.get_version_dir(DirectoryType::Headers, only_bad),
        Err(Error::DirectoryNotFound)
    ));
}

#[test]
fn version_dir_is_the_same_on_every_call() {
    let k = kits(ROOT);
    let names = ["10.0.22621.0", "10.0.10240.0", "wdf"];
    let a = k.get_version_dir(DirectoryType::Binaries, listing(&names)).unwrap();
    let b = k.get_version_dir(DirectoryType::Binaries, listing(&names)).unwrap();
    assert_eq!(a, b);
}

#[test]
fn ordinal_order_puts_ten_nine_after_ten_ten() {
    let k = kits(ROOT);
    let r = k
        .get_version_dir(DirectoryType::Headers, listing(&["10.10", "10.9"]))
        .unwrap();
    assert_eq!(r, joined(&joined(ROOT, "Include"), "10.9"));
    let entries = vec![Some("10.10".to_string()), Some("10.9".to_string())];
    assert_eq!(latest_version(&entries), Some("10.9".to_string()));
}

#[test]
fn latest_version_of_names() {
    let entries = vec![
        Some("10.0.1".to_string()),
        Some("notes.txt".to_string()),
        Some("10.0.2".to_string()),
        None,
        Some("9.9".to_string()),
    ];
    assert_eq!(latest_version(&entries), Some("10.0.2".to_string()));
    assert_eq!(latest_version(&vec![]), None);
    assert_eq!(latest_version(&vec![Some("9.0".to_string()), None]), None);
}

#[test]
fn prefix_test() {
    assert!(has_prefix("10.0.1", VERSION_PREFIX));
    assert!(has_prefix("10.", VERSION_PREFIX));
    assert!(!has_prefix("10", VERSION_PREFIX));
    assert!(!has_prefix("9.10.", VERSION_PREFIX));
    assert!(has_prefix("abc", ""));
    assert!(has_prefix("äbc", "ä"));
}

#[test]
fn ordinal_name_order() {
    assert!(name_le("10.10", "10.9"));
    assert!(!name_le("10.9", "10.10"));
    assert!(name_le("10.0", "10.0"));
    assert!(name_le("10.0", "10.0.1"));
    assert!(!name_le("10.0.1", "10.0"));
    assert!(name_le("", "a"));
    assert!(name_le("Z", "a"));
    assert!(name_le("z", "é"));
    for (a, b) in [("10.0.1", "10.0.2"), ("b", "ab"), ("é", "e"), ("10.10", "10.9")] {
        assert_eq!(name_le(a, b), a <= b);
        assert_eq!(name_le(b, a), b <= a);
    }
}

#[test]
fn io_error_converts() {
    let e: Error = io::Error::new(io::ErrorKind::PermissionDenied, "denied").into();
    match e {
        Error::IoError(inner) => assert_eq!(inner.kind(), io::ErrorKind::PermissionDenied),
        _ => panic!("expected an I/O error"),
    }
}
