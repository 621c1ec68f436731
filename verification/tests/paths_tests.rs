use naxone::paths::{
    appended_path, naxone_appdata_dir, naxone_appdata_dirname, naxone_bin_dir, naxone_home_dir,
    naxone_home_dirname, normalize_path, path_contains, path_without, phpstudy_style_dir_name,
};

#[test]
fn phpstudy_dir_names() {
    assert_eq!(phpstudy_style_dir_name("nginx", "1.26.2"), "Nginx1.26.2");
    assert_eq!(phpstudy_style_dir_name("apache", "2.4.62"), "Apache2.4.62");
    assert_eq!(phpstudy_style_dir_name("mysql", "8.0.40"), "MySQL8.0.40");
    assert_eq!(phpstudy_style_dir_name("redis", "5.0.14.1"), "Redis5.0.14.1");
    assert_eq!(phpstudy_style_dir_name("php", "8.4.2"), "php/php842nts");
    assert_eq!(phpstudy_style_dir_name("php", "8.3.30"), "php/php8330nts");
    assert_eq!(phpstudy_style_dir_name("php", "7.4.33"), "php/php7433nts");
}

#[test]
fn other_packages_keep_their_name() {
    assert_eq!(phpstudy_style_dir_name("composer", "2.8"), "composer2.8");
}

#[test]
fn dev_uses_separate_dirname() {
    assert_eq!(naxone_home_dirname(true), ".naxone-dev");
    assert_eq!(naxone_appdata_dirname(true), "NaxOne-dev");
    assert_eq!(naxone_home_dirname(false), ".naxone");
    assert_eq!(naxone_appdata_dirname(false), "NaxOne");
}

#[test]
fn dev_and_prod_home_diverge() {
    assert_ne!(".naxone", ".naxone-dev");
    assert_ne!("NaxOne", "NaxOne-dev");
    assert_ne!(naxone_home_dirname(true), naxone_home_dirname(false));
    assert_ne!(naxone_appdata_dirname(true), naxone_appdata_dirname(false));
}

#[test]
fn home_and_bin_dirs() {
    assert_eq!(naxone_home_dir(Some(r"C:\Users\x"), false), r"C:\Users\x\.naxone");
    assert_eq!(naxone_home_dir(None, true), r"C:\Users\Default\.naxone-dev");
    assert_eq!(naxone_bin_dir(Some(r"C:\Users\x"), false), r"C:\Users\x\.naxone\bin");
    assert_eq!(naxone_appdata_dir(Some(r"C:\Users\x\AppData\Roaming"), None, false), r"C:\Users\x\AppData\Roaming\NaxOne");
    assert_eq!(naxone_appdata_dir(None, Some(r"C:\Users\y"), true), r"C:\Users\y\AppData\Roaming\NaxOne-dev");
}

#[test]
fn user_env_path_contains_handles_variants() {
    assert!(path_contains(r"C:\a;C:\Users\x\.naxone\bin;C:\b", r"C:\Users\x\.naxone\bin"));
    assert!(path_contains(r"C:\Users\x\.naxone\bin\", r"C:\Users\x\.naxone\bin"));
    assert!(path_contains(r"C:\USERS\X\.NAXONE\BIN", r"c:\users\x\.naxone\bin"));
    assert!(path_contains(r"C:\Users\x/.naxone/bin", r"C:\Users\x\.naxone\bin"));
    assert!(!path_contains(r"C:\a;C:\b", r"C:\Users\x\.naxone\bin"));
    assert!(!path_contains("", r"C:\Users\x\.naxone\bin"));
}

#[test]
fn global_php_path_contains_handles_variants() {
    assert!(path_contains(r"C:\a;C:\Users\x\.ruststudy\bin;C:\b", r"C:\Users\x\.ruststudy\bin"));
    assert!(path_contains(r"C:\Users\x\.ruststudy\bin\", r"C:\Users\x\.ruststudy\bin"));
    assert!(path_contains(r"C:\USERS\X\.RUSTSTUDY\BIN", r"c:\users\x\.ruststudy\bin"));
    assert!(path_contains(r"C:\Users\x/.ruststudy/bin", r"C:\Users\x\.ruststudy\bin"));
    assert!(!path_contains(r"C:\a;C:\b", r"C:\Users\x\.ruststudy\bin"));
    assert!(!path_contains("", r"C:\Users\x\.ruststudy\bin"));
}

#[test]
fn normalize_path_examples() {
    assert_eq!(normalize_path("  C:\\Foo/Bar\\\\ "), "c:\\foo\\bar");
    assert_eq!(normalize_path("C:/x/"), "c:\\x");
    assert!(path_contains("C:\\x", "C:/x/"));
}

#[test]
fn appending_and_removing_path_entries() {
    assert_eq!(appended_path("C:\\a;;", "C:\\b"), Some("C:\\a;C:\\b".to_string()));
    assert_eq!(appended_path(";;", "C:\\b"), Some("C:\\b".to_string()));
    assert_eq!(appended_path("C:\\a;c:\\B\\", "C:\\b"), None);
    assert_eq!(path_without("C:\\a; ;c:\\B\\;D:\\", "C:\\b"), Some("C:\\a;D:\\".to_string()));
    assert_eq!(path_without("C:\\a", "C:\\b"), None);
}

fn last_component(p: &str) -> &str {
    p.rsplit('\\').next().unwrap()
}

#[test]
fn naxone_home_dir_uses_dirname_helper() {
    for dev in [false, true] {
        let home = naxone_home_dir(Some(r"C:\Users\x"), dev);
        assert_eq!(last_component(&home), naxone_home_dirname(dev));
        let home = naxone_home_dir(None, dev);
        assert_eq!(last_component(&home), naxone_home_dirname(dev));
    }
}

#[test]
fn bin_dir_under_home() {
    for dev in [false, true] {
        let bin = naxone_bin_dir(Some(r"C:\Users\x"), dev);
        assert_eq!(last_component(&bin), "bin");
        let parent = &bin[..bin.len() - "\\bin".len()];
        assert_eq!(parent, naxone_home_dir(Some(r"C:\Users\x"), dev));
    }
}

#[test]
fn normalizing_twice_changes_nothing() {
    for s in ["C:/X/", "  D:\\Tools\\PHP\\\\ ", "c:\\a/b", "", "/"] {
        let once = normalize_path(s);
        assert_eq!(normalize_path(&once), once);
    }
    assert_eq!(normalize_path("a\\ \\"), "a\\ ");
    assert_eq!(normalize_path("a\\ "), "a");
}
