use naxone::versions::{cmp_semver_desc, is_newer, semver_cmp_desc, update_info, ReleaseAsset};
use naxone::pie::{find_pie_runtime, parse_version, pie_runtime_info, strip_verbatim};
use naxone::service::{ServiceInstance, ServiceKind, ServiceOrigin, ServiceStatus};
use std::cmp::Ordering;

#[test]
fn version_comparison() {
    assert!(is_newer("0.2.0", "0.1.0"));
    assert!(is_newer("1.0.0", "0.99.99"));
    assert!(is_newer("0.1.1", "0.1.0"));
    assert!(!is_newer("0.1.0", "0.1.0"));
    assert!(!is_newer("0.1.0", "0.2.0"));
    assert!(!is_newer("0.0.9", "0.1.0"));
}

#[test]
fn newer_pads_and_ignores_garbage() {
    assert!(is_newer("1.0.1", "1.0"));
    assert!(!is_newer("1.0.0", "1"));
    assert!(!is_newer("1.x", "1.0"));
}

#[test]
fn cmp_desc_orders_correctly() {
    let mut v = vec!["8.1.31", "8.4.2", "8.3.30", "8.2.26"];
    v.sort_by(|a, b| cmp_semver_desc(a, b));
    assert_eq!(v, vec!["8.4.2", "8.3.30", "8.2.26", "8.1.31"]);
}

#[test]
fn cmp_desc_edge_cases() {
    assert_eq!(cmp_semver_desc("8.4", "8.4"), Ordering::Equal);
    assert_eq!(cmp_semver_desc("8.4.1", "8.4"), Ordering::Less);
    assert_eq!(cmp_semver_desc("8.4", "8.4.1"), Ordering::Greater);
    assert_eq!(cmp_semver_desc("8.a", "8.b"), Ordering::Greater);
}

#[test]
fn package_order() {
    let mut v = vec!["8.4.2", "8.5.5", "7.4.33", "8.4.20", "8.1.27"];
    v.sort_by(|a, b| semver_cmp_desc(a, b));
    assert_eq!(v, vec!["8.5.5", "8.4.20", "8.4.2", "8.1.27", "7.4.33"]);
    assert_eq!(semver_cmp_desc("8.x.1", "8.x.2"), Ordering::Greater);
    assert_eq!(semver_cmp_desc("8.a", "8.b"), Ordering::Greater);
}

#[test]
fn update_offered_only_for_newer() {
    let assets = vec![
        ReleaseAsset { name: "notes.txt".into(), browser_download_url: "u1".into() },
        ReleaseAsset { name: "NaxOne-setup.exe".into(), browser_download_url: "u2".into() },
    ];
    let info = update_info("v0.3.0", Some("notes".into()), None, &assets, "0.2.0");
    assert!(info.available);
    assert_eq!(info.latest_version, "0.3.0");
    assert_eq!(info.current_version, "0.2.0");
    assert_eq!(info.release_url, "https://gitee.com/kz_y/naxone/releases/tag/v0.3.0");
    assert_eq!(info.release_notes, "notes");
    assert_eq!(info.download_url.as_deref(), Some("u2"));
    let old = update_info("v0.1.0", None, Some("x".into()), &assets, "0.2.0");
    assert!(!old.available);
    assert_eq!(old.latest_version, "0.2.0");
    assert_eq!(old.download_url, None);
    let empty = update_info("vvv", None, None, &assets, "0.2.0");
    assert!(!empty.available);
}

fn php(version: &str, path: &str, origin: ServiceOrigin) -> ServiceInstance {
    ServiceInstance {
        kind: ServiceKind::Php,
        version: version.into(),
        variant: None,
        install_path: path.into(),
        config_path: None,
        port: 9000,
        status: ServiceStatus::Stopped,
        auto_start: false,
        origin,
    }
}

#[test]
fn pie_runtime_prefers_store() {
    assert_eq!(parse_version("8.1.10"), Some((8, 1)));
    assert_eq!(parse_version("8"), None);
    assert_eq!(parse_version("x.1"), None);
    let services = vec![
        php("8.3.1", "a", ServiceOrigin::PhpStudy),
        php("8.1.2", "b", ServiceOrigin::Store),
        php("7.4.3", "c", ServiceOrigin::Store),
    ];
    assert_eq!(find_pie_runtime(&services), Some(("b".to_string(), "8.1.2".to_string())));
    let services = vec![php("8.2.1", "a", ServiceOrigin::PhpStudy), php("8.2.9", "d", ServiceOrigin::Manual)];
    assert_eq!(find_pie_runtime(&services), Some(("d".to_string(), "8.2.9".to_string())));
    let info = pie_runtime_info(&vec![php("7.4.1", "a", ServiceOrigin::Store)]);
    assert_eq!(info.runtime_php_path, None);
    assert_eq!(strip_verbatim(r"\\?\D:\x"), r"D:\x");
    assert_eq!(strip_verbatim(r"D:\x"), r"D:\x");
}
