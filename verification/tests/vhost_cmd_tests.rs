use naxone::service::{ServiceInstance, ServiceKind, ServiceOrigin, ServiceStatus};
use naxone::vhost::VhostSource;
use naxone::vhost_cmd::{
    find_extension_dir, resolve_dirs, vhost_info, vhost_infos,
    build_vhost, build_vhost_now, created_details, disable_expired, php_versions, prevalidate_vhost,
    should_close_firewall, should_open_firewall, today, validate_document_root, CreateVhostRequest,
};

fn php(version: &str, variant: Option<&str>, port: u16) -> ServiceInstance {
    ServiceInstance {
        kind: ServiceKind::Php,
        version: version.to_string(),
        variant: variant.map(|v| v.to_string()),
        install_path: format!("D:\\php\\php{}", version),
        config_path: None,
        port,
        status: ServiceStatus::Stopped,
        auto_start: false,
        origin: ServiceOrigin::PhpStudy,
    }
}

fn req() -> CreateVhostRequest {
    CreateVhostRequest {
        server_name: "test.nm".to_string(),
        aliases: " www.test.nm  m.test.nm ".to_string(),
        listen_port: 8080,
        document_root: "D:\\www\\test".to_string(),
        php_version: Some("php842nts".to_string()),
        index_files: String::new(),
        rewrite_rule: String::new(),
        autoindex: false,
        ssl_cert: Some("c.crt".to_string()),
        ssl_key: Some(String::new()),
        force_https: true,
        custom_directives: Some(String::new()),
        access_log: Some("logs/a.log".to_string()),
        sync_hosts: true,
        expires_at: "2030-01-01".to_string(),
    }
}

#[test]
fn vhost_from_form() {
    let services = vec![php("8.3.30", Some("nts"), 9000), php("8.4.2", Some("nts"), 9001)];
    let v = build_vhost(&req(), &services, "2025-01-01 10:00:00".to_string());
    assert_eq!(v.id, "test.nm_8080");
    assert_eq!(v.aliases, vec!["www.test.nm", "m.test.nm"]);
    assert_eq!(v.php_fastcgi_port, Some(9001));
    assert_eq!(v.php_install_path.as_deref(), Some("D:\\php\\php8.4.2"));
    assert_eq!(v.index_files, "index.php index.html");
    assert!(v.ssl.is_none());
    assert!(v.custom_directives.is_none());
    assert_eq!(v.access_log.as_deref(), Some("logs/a.log"));
    assert!(v.enabled);
    assert!(matches!(v.source, VhostSource::Custom));
    assert_eq!(v.created_at, "2025-01-01 10:00:00");
    let now = build_vhost_now(&req(), &[]);
    assert_eq!(now.created_at.len(), 19);
    assert_eq!(now.php_fastcgi_port, None);
    let t = today();
    assert_eq!(t.len(), 10);
    let b: Vec<char> = t.chars().collect();
    assert!(b[4] == '-' && b[7] == '-');
    assert!(b.iter().enumerate().all(|(i, c)| i == 4 || i == 7 || c.is_ascii_digit()));
}

#[test]
fn document_root_rules() {
    assert_eq!(validate_document_root("relative\\dir"), Err("网站目录必须是绝对路径".to_string()));
    assert_eq!(
        validate_document_root("C:\\Windows\\web"),
        Err("不允许将网站目录设在系统路径下: C:\\Windows\\web".to_string())
    );
    assert!(validate_document_root("C:/Program Files").is_err());
    assert_eq!(validate_document_root("C:\\Windows2\\site"), Ok(()));
    assert_eq!(validate_document_root("D:\\www\\test"), Ok(()));
    let services = vec![php("8.4.2", Some("nts"), 9001)];
    let mut r = req();
    r.document_root = "www".to_string();
    let v = build_vhost(&r, &services, String::new());
    assert_eq!(prevalidate_vhost(&v), Err("网站目录必须是绝对路径".to_string()));
    r.server_name = "bad name;".to_string();
    let v = build_vhost(&r, &services, String::new());
    assert_eq!(prevalidate_vhost(&v), Err("域名格式不合法：bad name;".to_string()));
}

#[test]
fn php_version_choices() {
    let services = vec![php("8.4.2", Some("nts"), 9001), php("7.4.33", None, 9000)];
    let v = php_versions(&services);
    assert_eq!(v.len(), 2);
    assert_eq!(v[0].label, "PHP 8.4.2 (nts)");
    assert_eq!(v[0].version, "php842nts");
    assert_eq!(v[1].label, "PHP 7.4.33");
    assert_eq!(v[1].version, "php7433");
}

#[test]
fn firewall_and_expiry() {
    assert!(!should_open_firewall(80));
    assert!(should_open_firewall(8080));
    let services: Vec<ServiceInstance> = vec![];
    let mut a = req();
    a.expires_at = "2024-12-31".to_string();
    let mut b = req();
    b.listen_port = 9090;
    b.expires_at = String::new();
    let mut vs = vec![
        build_vhost(&a, &services, String::new()),
        build_vhost(&b, &services, String::new()),
        build_vhost(&req(), &services, String::new()),
    ];
    assert!(!should_close_firewall(8080, &vs));
    assert!(should_close_firewall(7000, &vs));
    assert!(!should_close_firewall(80, &[]));
    let disabled = disable_expired(&mut vs, "2025-01-01");
    assert_eq!(disabled, vec![0]);
    assert!(!vs[0].enabled && vs[1].enabled && vs[2].enabled);
    let details = created_details(&vs[1]);
    assert_eq!(details, "文档根: D:\\www\\test\nPHP: php842nts\n伪静态: 无\nSSL: 未启用");
}

fn dir_entry(name: &str, is_dir: bool) -> naxone::scanner::DirEntryInfo {
    naxone::scanner::DirEntryInfo {
        name: name.to_string(),
        path: format!("D:\\phpstudy_pro\\Extensions\\{}", name),
        is_dir,
        present: vec![],
    }
}

#[test]
fn vhost_dirs_resolution() {
    let ext = vec![dir_entry("Nginx.txt", false), dir_entry("MySQL5.7.26", true), dir_entry("Nginx1.15.11", true)];
    assert_eq!(find_extension_dir(&ext, "Nginx"), Some("D:\\phpstudy_pro\\Extensions\\Nginx1.15.11".to_string()));
    assert_eq!(find_extension_dir(&ext, "nginx"), None);
    let d = resolve_dirs(&[], Some(&ext)).unwrap();
    assert_eq!(d.nginx_vhosts.as_deref(), Some("D:\\phpstudy_pro\\Extensions\\Nginx1.15.11\\conf\\vhosts"));
    assert_eq!(d.apache_vhosts, None);
    assert_eq!(d.apache_listen, None);
    let services = vec![ServiceInstance {
        kind: ServiceKind::Apache,
        version: "2.4".to_string(),
        variant: None,
        install_path: "C:\\Apache24".to_string(),
        config_path: None,
        port: 80,
        status: ServiceStatus::Stopped,
        auto_start: false,
        origin: ServiceOrigin::Store,
    }];
    let d = resolve_dirs(&services, None).unwrap();
    assert_eq!(d.nginx_vhosts, None);
    assert_eq!(d.apache_listen.as_deref(), Some("C:\\Apache24\\conf\\vhosts\\Listen.conf"));
    assert_eq!(
        resolve_dirs(&[], None).err(),
        Some("未检测到可用的 Web 服务器，请先安装或扫描 Nginx / Apache".to_string())
    );
}

#[test]
fn vhost_info_view() {
    let services: Vec<ServiceInstance> = vec![];
    let mut r = req();
    r.ssl_key = Some("k.key".to_string());
    let v = build_vhost(&r, &services, "t".to_string());
    let i = vhost_info(&v);
    assert_eq!(i.id, "test.nm_8080");
    assert!(i.has_ssl);
    assert_eq!(i.ssl_cert, "c.crt");
    assert_eq!(i.ssl_key, "k.key");
    assert!(i.force_https);
    assert_eq!(i.custom_directives, "");
    assert_eq!(i.source, "custom");
    assert_eq!(i.source_name, None);
    assert_eq!(vhost_infos(&vec![v]).len(), 1);
}
