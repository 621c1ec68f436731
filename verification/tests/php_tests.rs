use naxone::php::{PhpIniSettings, PhpManager};
use std::path::Path;

const INI: &str = "[PHP]\nmemory_limit = 512M\n;upload_max_filesize = 2M\ndisplay_errors = Off\nmax_input_time = -1\nextension=php_curl.dll\n;extension=gd\nzend_extension=opcache\nextension_dir = \"ext\"\n";

#[test]
fn ini_values() {
    assert_eq!(PhpManager::get_ini_value(INI, "memory_limit"), Some("512M".into()));
    assert_eq!(PhpManager::get_ini_value(INI, "upload_max_filesize"), None);
    let out = PhpManager::set_ini_value(INI, "upload_max_filesize", "64M");
    assert!(out.contains("\nupload_max_filesize=64M\n"));
    let out2 = PhpManager::set_ini_value(INI, "new_key", "1");
    assert!(out2.ends_with("\nnew_key=1"));
    assert_eq!(PhpManager::get_ini_value(&out2, "new_key"), Some("1".into()));
}

#[test]
fn extension_state() {
    assert!(PhpManager::is_extension_enabled(INI, "curl", false));
    assert!(!PhpManager::is_extension_enabled(INI, "gd", false));
    assert!(PhpManager::is_extension_enabled(INI, "opcache", true));
    assert!(!PhpManager::is_extension_enabled(INI, "opcache", false));
}

#[test]
fn toggling_extensions() {
    let on = PhpManager::toggle_extension(INI, "gd", true, false);
    assert!(on.contains("\nextension=gd\n"));
    assert!(PhpManager::is_extension_enabled(&on, "gd", false));
    let off = PhpManager::toggle_extension(INI, "curl", false, false);
    assert!(off.contains("\n;extension=php_curl.dll\n"));
    assert!(!PhpManager::is_extension_enabled(&off, "curl", false));
    let off_zend = PhpManager::toggle_extension(INI, "opcache", false, true);
    assert!(off_zend.contains("\n;zend_extension=opcache\n"));
    let added = PhpManager::toggle_extension(INI, "redis", true, false);
    assert!(added.contains("extension=php_curl.dll\n;extension=gd\nzend_extension=opcache\nextension=redis\nextension_dir"));
    let unchanged = PhpManager::toggle_extension(INI, "redis", false, false);
    assert_eq!(unchanged, INI.trim_end_matches('\n'));
}

#[test]
fn listing_extensions_sorted() {
    let stems = vec!["php_zip".to_string(), "php_curl".to_string(), "opcache".to_string(), "libcrypto".to_string(), "php_gd".to_string()];
    let exts = PhpManager::list_extensions(INI, &stems);
    let names: Vec<&str> = exts.iter().map(|e| e.name.as_str()).collect();
    assert_eq!(names, vec!["curl", "gd", "opcache", "zip"]);
    assert!(exts[0].enabled);
    assert!(!exts[1].enabled);
    assert!(exts[2].is_zend && exts[2].enabled);
    assert_eq!(exts[0].file_name, "php_curl");
}

#[test]
fn ini_settings_read_and_save() {
    let st = PhpManager::read_ini_settings(INI);
    assert_eq!(st.memory_limit, "512M");
    assert_eq!(st.upload_max_filesize, "64M");
    assert!(!st.display_errors);
    assert_eq!(st.max_input_time, -1);
    assert_eq!(st.date_timezone, "Asia/Shanghai");
    let mut s2 = PhpIniSettings::default();
    s2.memory_limit = "1G".into();
    let out = PhpManager::save_ini_settings(INI, &s2);
    assert!(out.contains("memory_limit=1G"));
    assert!(out.contains("default_charset=\"UTF-8\""));
    assert!(!out.contains("open_basedir"));
    let back = PhpManager::read_ini_settings(&out);
    assert_eq!(back.memory_limit, "1G");
    assert_eq!(back.default_charset, "\"UTF-8\"");
    assert!(back.display_errors);
}

#[test]
fn test_php_extensions() {
    let php_path = Path::new(r"D:\phpstudy_pro\Extensions\php\php85nts");
    if !php_path.exists() {
        println!("SKIP: PHP 8.5 not installed");
        return;
    }
    println!("SKIP: reading an installed php.ini is the application's file work; the listing is tested on text above");
}

#[test]
fn test_php_ini_settings() {
    let php_path = Path::new(r"D:\phpstudy_pro\Extensions\php\php85nts");
    if !php_path.exists() {
        println!("SKIP: PHP 8.5 not installed");
        return;
    }
    println!("SKIP: reading an installed php.ini is the application's file work; the settings are tested on text above");
}

#[test]
fn toggling_then_listing_shows_the_new_state() {
    let stems = vec!["php_curl".to_string(), "php_gd".to_string(), "opcache".to_string()];
    let state = |ini: &str, name: &str| {
        PhpManager::list_extensions(ini, &stems).into_iter().find(|e| e.name == name).map(|e| e.enabled)
    };
    let ini = "[PHP]\nextension=php_curl.dll\n;extension=gd\nzend_extension=opcache\n";
    let off = PhpManager::toggle_extension(ini, "curl", false, false);
    assert_eq!(state(&off, "curl"), Some(false));
    let on = PhpManager::toggle_extension(&off, "curl", true, false);
    assert_eq!(state(&on, "curl"), Some(true));
    let gd = PhpManager::toggle_extension(ini, "gd", true, false);
    assert_eq!(state(&gd, "gd"), Some(true));
    let op = PhpManager::toggle_extension(ini, "opcache", false, true);
    assert_eq!(state(&op, "opcache"), Some(false));
    let fresh = PhpManager::toggle_extension("[PHP]\n", "gd", true, false);
    assert_eq!(state(&fresh, "gd"), Some(true));
}
