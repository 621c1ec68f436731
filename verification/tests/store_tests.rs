use naxone::installer::PackageVersion;
use naxone::service::{ServiceInstance, ServiceKind, ServiceOrigin, ServiceStatus};
use naxone::store::{
    install_guard, installed_packages, lookup_version, merge_versions, store_kind,
    uninstall_guard, uninstall_target, PackageEntry,
};

fn ver(v: &str, url: &str) -> PackageVersion {
    PackageVersion {
        version: v.to_string(),
        url: url.to_string(),
        download_urls: vec![],
        sha256: None,
        size_mb: None,
        exe_rel: "php-cgi.exe".to_string(),
        variant: None,
    }
}

fn svc(kind: ServiceKind, version: &str, origin: ServiceOrigin, running: bool) -> ServiceInstance {
    ServiceInstance {
        kind,
        version: version.to_string(),
        variant: None,
        install_path: format!("C:/pkgs/{}", version),
        config_path: None,
        port: 80,
        status: if running {
            ServiceStatus::Running { pid: 42, memory_mb: None }
        } else {
            ServiceStatus::Stopped
        },
        auto_start: false,
        origin,
    }
}

fn versions_of(v: &[PackageVersion]) -> Vec<(String, String)> {
    v.iter().map(|p| (p.version.clone(), p.url.clone())).collect()
}

#[test]
fn merge_overrides_and_sorts_desc() {
    let mut existing = vec![ver("7.4.33", "embedded"), ver("8.4.2", "embedded"), ver("8.1.27", "embedded")];
    let incoming = vec![ver("8.4.2", "mirror"), ver("8.5.5", "mirror"), ver("8.4.20", "mirror")];
    merge_versions(&mut existing, incoming);
    assert_eq!(
        versions_of(&existing),
        vec![
            ("8.5.5".to_string(), "mirror".to_string()),
            ("8.4.20".to_string(), "mirror".to_string()),
            ("8.4.2".to_string(), "mirror".to_string()),
            ("8.1.27".to_string(), "embedded".to_string()),
            ("7.4.33".to_string(), "embedded".to_string()),
        ]
    );
}

#[test]
fn merge_with_nothing_incoming_just_sorts() {
    let mut existing = vec![ver("8.1", "a"), ver("8.3", "b")];
    merge_versions(&mut existing, vec![]);
    assert_eq!(versions_of(&existing)[0].0, "8.3");
}

#[test]
fn store_kind_is_exact() {
    assert_eq!(store_kind("nginx"), Some(ServiceKind::Nginx));
    assert_eq!(store_kind("php"), Some(ServiceKind::Php));
    assert_eq!(store_kind("Nginx"), None);
    assert_eq!(store_kind("composer"), None);
}

#[test]
fn installed_packages_skip_phpstudy() {
    let services = vec![
        svc(ServiceKind::Nginx, "1.26.2", ServiceOrigin::Store, false),
        svc(ServiceKind::Mysql, "5.7.26", ServiceOrigin::PhpStudy, false),
        svc(ServiceKind::Php, "8.4.2", ServiceOrigin::Manual, true),
    ];
    let out = installed_packages(&services);
    assert_eq!(out.len(), 2);
    assert_eq!(out[0].name, "nginx");
    assert_eq!(out[0].version, "1.26.2");
    assert_eq!(out[1].name, "php");
    assert_eq!(out[1].install_path, "C:/pkgs/8.4.2");
}

#[test]
fn install_refused_while_running() {
    let services = vec![svc(ServiceKind::Php, "8.4.2", ServiceOrigin::Store, true)];
    assert_eq!(
        install_guard("php", "8.4.2", "PHP", &services),
        Err("PHP v8.4.2 正在运行，请先停止后再重新安装".to_string())
    );
    assert_eq!(install_guard("php", "8.3.30", "PHP", &services), Ok(()));
    assert_eq!(install_guard("composer", "8.4.2", "Composer", &services), Ok(()));
}

#[test]
fn uninstall_checks() {
    let services = vec![
        svc(ServiceKind::Mysql, "5.7.26", ServiceOrigin::PhpStudy, false),
        svc(ServiceKind::Nginx, "1.26.2", ServiceOrigin::Store, true),
        svc(ServiceKind::Redis, "5.0.14.1", ServiceOrigin::Store, false),
    ];
    assert_eq!(
        uninstall_guard("mysql", "5.7.26", "MySQL", &services),
        Err("不能卸载 PHPStudy 自带的软件".to_string())
    );
    assert_eq!(
        uninstall_guard("nginx", "1.26.2", "Nginx", &services),
        Err("Nginx v1.26.2 正在运行，请先停止后再卸载".to_string())
    );
    assert_eq!(uninstall_guard("redis", "5.0.14.1", "Redis", &services), Ok(ServiceKind::Redis));
    assert_eq!(
        uninstall_guard("composer", "2.8", "Composer", &services),
        Err("未知软件类型: composer".to_string())
    );
    assert_eq!(uninstall_guard("php", "8.4.2", "PHP", &services), Ok(ServiceKind::Php));
}

#[test]
fn lookup_reports_unknown_package_and_version() {
    let pkgs = vec![PackageEntry {
        name: "php".to_string(),
        display_name: "PHP".to_string(),
        category: "php".to_string(),
        brand_color: "#777BB4".to_string(),
        brand_letter: "P".to_string(),
        homepage: String::new(),
        description: String::new(),
        versions: vec![ver("8.4.2", "u"), ver("8.3.30", "u")],
    }];
    assert_eq!(lookup_version(&pkgs, "php", "8.3.30"), Ok((0, 1)));
    assert_eq!(lookup_version(&pkgs, "nginx", "1.0"), Err("未知软件: nginx".to_string()));
    assert_eq!(lookup_version(&pkgs, "php", "5.6"), Err("未知版本: php v5.6".to_string()));
}

#[test]
fn uninstall_target_stays_under_the_packages_root() {
    assert_eq!(
        uninstall_target("D:\\naxone\\packages", "nginx", "1.25.3"),
        Ok("D:\\naxone\\packages\\Nginx1.25.3".to_string())
    );
    assert_eq!(
        uninstall_target("D:\\naxone\\packages\\", "php", "8.4.1"),
        Ok("D:\\naxone\\packages\\php/php841nts".to_string())
    );
    assert_eq!(
        uninstall_target("D:\\naxone\\packages", "C:", "\\Windows"),
        Err("安全检查失败：目标路径逃出安装根".to_string())
    );
    assert_eq!(
        uninstall_target("D:\\naxone\\packages", "\\evil", "1"),
        Err("安全检查失败：目标路径逃出安装根".to_string())
    );
}
