use naxone::scanner::{extract_version, parse_php_dir_name, DirEntryInfo, ExtensionsListing, PhpStudyScanner};
use naxone::service::{ServiceKind, ServiceOrigin, ServiceStatus};
use std::path::Path;

#[test]
fn test_parse_php_dir_name() {
    assert_eq!(parse_php_dir_name("php85nts"), ("8.5".into(), "nts".into()));
    assert_eq!(parse_php_dir_name("php7.4.3nts"), ("7.4.3".into(), "nts".into()));
    assert_eq!(parse_php_dir_name("php84nts"), ("8.4".into(), "nts".into()));
}

#[test]
fn php_dir_name_edge_cases() {
    assert_eq!(parse_php_dir_name("php734ts"), ("7.3.4".into(), "ts".into()));
    assert_eq!(parse_php_dir_name("php8"), ("8".into(), "nts".into()));
    assert_eq!(parse_php_dir_name("85"), ("8.5".into(), "nts".into()));
}

#[test]
fn version_after_prefix() {
    assert_eq!(extract_version("Nginx1.15.11", "Nginx"), "1.15.11");
    assert_eq!(extract_version("Nginx", "Nginx"), "");
    assert_eq!(extract_version("Ngi", "Nginx"), "");
}

fn entry(name: &str, present: &[&str]) -> DirEntryInfo {
    DirEntryInfo {
        name: name.to_string(),
        path: format!("D:\\ext\\{}", name),
        is_dir: true,
        present: present.iter().map(|s| s.to_string()).collect(),
    }
}

#[test]
fn scan_listing_finds_each_kind() {
    let listing = ExtensionsListing {
        exists: true,
        php: Some(vec![
            entry("php85nts", &["php-cgi.exe", "php.ini"]),
            entry("php74nts", &["php-cgi.exe"]),
            entry("notphp", &[]),
        ]),
        entries: vec![
            entry("Nginx1.26.2", &["nginx.exe", "conf/nginx.conf"]),
            entry("mysql8.0.40", &["bin/mysqld.exe", "my.cnf"]),
            entry("redis5.0", &[]),
            entry("Apache2.4", &["bin/httpd.exe"]),
        ],
    };
    let found = PhpStudyScanner::scan(&listing);
    assert_eq!(found.len(), 5);
    assert_eq!(found[0].kind, ServiceKind::Php);
    assert_eq!(found[0].version, "8.5");
    assert_eq!(found[0].port, 9000);
    assert_eq!(found[0].config_path.as_deref(), Some("D:\\ext\\php85nts\\php.ini"));
    assert_eq!(found[1].port, 9001);
    assert_eq!(found[1].config_path, None);
    assert_eq!(found[2].kind, ServiceKind::Nginx);
    assert_eq!(found[2].version, "1.26.2");
    assert_eq!(found[2].config_path.as_deref(), Some("D:\\ext\\Nginx1.26.2\\conf/nginx.conf"));
    assert_eq!(found[3].kind, ServiceKind::Apache);
    assert_eq!(found[4].kind, ServiceKind::Mysql);
    assert_eq!(found[4].version, "8.0.40");
    assert_eq!(found[4].port, 3306);
    assert_eq!(found[4].config_path.as_deref(), Some("D:\\ext\\mysql8.0.40\\my.cnf"));
    for s in &found {
        assert_eq!(s.status, ServiceStatus::Stopped);
        assert_eq!(s.origin, ServiceOrigin::PhpStudy);
        assert!(!s.auto_start);
    }
}

#[test]
fn missing_directory_scans_empty() {
    let listing = ExtensionsListing { exists: false, php: None, entries: vec![entry("Nginx1", &["nginx.exe"])] };
    assert!(PhpStudyScanner::scan(&listing).is_empty());
}

#[test]
fn test_scan_services() {
    let ext_path = Path::new(r"D:\phpstudy_pro\Extensions");
    if !ext_path.exists() {
        println!("SKIP: PHPStudy not installed");
        return;
    }
    println!("SKIP: listing an installed Extensions directory is the application's file work; the scan is tested on listings above");
}
