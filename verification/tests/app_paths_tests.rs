use naxone::app_paths::{
    config_path, is_cargo_target_path, legacy_packages_root, resolve_default_www_root,
    resolve_log_dir, resolve_packages_root, vhosts_json_path, www_root_needs_migration,
};

#[test]
fn packages_root_resolution() {
    assert_eq!(resolve_packages_root(Some("E:\\pkgs"), Some("C:\\App"), None, None), "E:\\pkgs");
    assert_eq!(resolve_packages_root(Some(""), Some("C:\\App"), None, None), "C:\\App\\Extensions");
    assert_eq!(
        resolve_packages_root(None, None, Some("C:\\Users\\u\\AppData\\Roaming"), None),
        "C:\\Users\\u\\AppData\\Roaming\\RustStudy\\Extensions"
    );
    assert_eq!(
        resolve_packages_root(None, None, None, None),
        "C:\\Users\\Default\\AppData\\Roaming\\RustStudy\\Extensions"
    );
    assert_eq!(
        legacy_packages_root(None, Some("C:\\Users\\u")),
        "C:\\Users\\u\\AppData\\Roaming\\RustStudy\\Packages"
    );
}

#[test]
fn www_and_logs() {
    assert_eq!(resolve_default_www_root(Some("D:\\Portable\\"), None, None), "D:\\Portable\\www");
    assert_eq!(resolve_default_www_root(None, Some("A"), None), "A\\RustStudy\\www");
    assert_eq!(resolve_log_dir(Some("L:\\logs"), Some("C:\\App")), "L:\\logs");
    assert_eq!(resolve_log_dir(None, Some("C:\\App")), "C:\\App\\logs");
    assert_eq!(resolve_log_dir(Some(""), None), ".\\logs");
}

#[test]
fn home_files() {
    assert_eq!(vhosts_json_path(Some("C:\\Users\\u")), "C:\\Users\\u\\.ruststudy\\vhosts.json");
    assert_eq!(config_path(None), "C:\\Users\\Default\\.ruststudy\\ruststudy.toml");
}

#[test]
fn stale_www_roots() {
    assert!(is_cargo_target_path("D:/code/app/Target/Debug/www"));
    assert!(is_cargo_target_path("D:\\code\\app\\target\\release\\www"));
    assert!(!is_cargo_target_path("D:\\code\\app\\target\\www"));
    assert!(www_root_needs_migration("C:\\Users\\u\\.ruststudy\\www", Some("C:\\Users\\u")));
    assert!(!www_root_needs_migration("D:\\www", Some("C:\\Users\\u")));
}
