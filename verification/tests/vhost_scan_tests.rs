use naxone::vhost_scan::{ConfFile, VhostScanner};
use naxone::service::{ServiceInstance, ServiceKind, ServiceOrigin, ServiceStatus};

const CONF: &str = "server {\n        listen        8080;\n        server_name  a.test www.a.test b.test;\n        root   \"D:/www/a\";\n        location / {\n            index index.php index.html error/index.html;\n            try_files $uri $uri/ /index.php?$query_string;\n            autoindex  off;\n        }\n        location ~ \\.php(.*)$ {\n            fastcgi_pass   127.0.0.1:9001;\n        }\n}";

fn php(port: u16) -> ServiceInstance {
    ServiceInstance {
        kind: ServiceKind::Php,
        version: "8.4".into(),
        variant: Some("nts".into()),
        install_path: "D:/php/php84nts".into(),
        config_path: None,
        port,
        status: ServiceStatus::Stopped,
        auto_start: false,
        origin: ServiceOrigin::PhpStudy,
    }
}

#[test]
fn extract_directives() {
    assert_eq!(VhostScanner::extract_regex(CONF, r"listen\s+(\d+)"), Some("8080".into()));
    assert_eq!(VhostScanner::extract_regex(CONF, r"server_name\s+(.+);"), Some("a.test www.a.test b.test".into()));
    assert_eq!(VhostScanner::extract_regex(CONF, r#"root\s+"([^"]+)""#), Some("D:/www/a".into()));
    assert_eq!(VhostScanner::extract_regex(CONF, r"fastcgi_pass\s+127\.0\.0\.1:(\d+)"), Some("9001".into()));
    assert_eq!(VhostScanner::extract_regex(CONF, "no group"), None);
    assert_eq!(VhostScanner::extract_regex("root $x;\nroot nothing;", r#"root\s+"([^"]+)""#), None);
}

#[test]
fn location_rewrite_block() {
    assert_eq!(
        VhostScanner::extract_location_rewrite(CONF),
        "location / {\n    try_files $uri $uri/ /index.php?$query_string;\n}"
    );
    assert_eq!(VhostScanner::extract_location_rewrite("location / {\n  index a;\n}"), "");
}

#[test]
fn parse_conf_file() {
    let v = VhostScanner::parse_nginx_conf(CONF, &[php(9000), php(9001)], None).unwrap();
    assert_eq!(v.id, "a.test_8080");
    assert_eq!(v.server_name, "a.test");
    assert_eq!(v.aliases, vec!["www.a.test".to_string(), "b.test".to_string()]);
    assert_eq!(v.listen_port, 8080);
    assert_eq!(v.document_root, "D:/www/a");
    assert_eq!(v.php_fastcgi_port, Some(9001));
    assert_eq!(v.php_version.as_deref(), Some("php84nts"));
    assert_eq!(v.php_install_path.as_deref(), Some("D:/php/php84nts"));
    assert!(v.rewrite_rule.starts_with("location / {"));
    let w = VhostScanner::parse_nginx_conf(CONF, &[], Some("  rewrite x;  ")).unwrap();
    assert_eq!(w.rewrite_rule, "rewrite x;");
    assert_eq!(w.php_version, None);
    assert!(VhostScanner::parse_nginx_conf("server {}", &[], None).is_none());
    assert_eq!(VhostScanner::conf_document_root(CONF), Some("D:/www/a".into()));
}

#[test]
fn scan_files() {
    let files = vec![
        ConfFile { name: "default-site.conf".into(), content: Some(CONF.into()), htaccess: None },
        ConfFile { name: "a.test_8080.conf.disabled".into(), content: Some(CONF.into()), htaccess: None },
        ConfFile { name: "empty.conf".into(), content: Some("  \n".into()), htaccess: None },
        ConfFile { name: "unreadable.conf".into(), content: None, htaccess: None },
        ConfFile { name: "a.conf".into(), content: Some(CONF.into()), htaccess: None },
    ];
    let vs = VhostScanner::scan(&files, &[]);
    assert_eq!(vs.len(), 2);
    assert!(!vs[0].enabled);
    assert!(vs[1].enabled);
}
