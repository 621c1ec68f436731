use naxone::template::{SimpleTemplateEngine, TemplateEngine};
use naxone::vhost::{SslConfig, VhostSource, VirtualHost};
use naxone::error::NaxOneError;

fn sample() -> VirtualHost {
    VirtualHost {
        id: "test.nm_80".into(),
        server_name: "test.nm".into(),
        aliases: vec!["www.test.nm".into()],
        listen_port: 80,
        document_root: r"D:\phpstudy_pro\WWW\test".into(),
        php_version: Some("php85nts".into()),
        php_fastcgi_port: Some(9000),
        php_install_path: Some(r"D:\phpstudy_pro\Extensions\php\php85nts".into()),
        index_files: "index.php index.html".into(),
        rewrite_rule: String::new(),
        autoindex: false,
        ssl: None,
        custom_directives: None,
        access_log: None,
        enabled: true,
        created_at: String::new(),
        expires_at: String::new(),
        sync_hosts: true,
        source: VhostSource::Custom,
    }
}

#[test]
fn test_template_engine_nginx() {
    let engine = SimpleTemplateEngine;
    let vhost = sample();

    let nginx = engine.render_nginx_vhost(&vhost).unwrap();
    println!("\n=== Generated Nginx Config ===\n{}", nginx);
    assert!(nginx.contains("listen        80;"));
    assert!(nginx.contains("server_name  test.nm www.test.nm;"));
    assert!(nginx.contains("fastcgi_pass   127.0.0.1:9000;"));
    assert!(nginx.contains("D:/phpstudy_pro/WWW/test"));

    let apache = engine.render_apache_vhost(&vhost).unwrap();
    println!("\n=== Generated Apache Config ===\n{}", apache);
    assert!(apache.contains("<VirtualHost *:80>"));
    assert!(apache.contains("ServerName test.nm"));
    assert!(apache.contains("ServerAlias www.test.nm"));
    assert!(apache.contains("FcgidWrapper"));
    assert!(apache.contains("php85nts/php-cgi.exe"));
}

#[test]
fn nginx_conf_exact_text() {
    let engine = SimpleTemplateEngine;
    let mut vhost = sample();
    vhost.aliases = vec![String::new()];
    vhost.php_fastcgi_port = None;
    let nginx = engine.render_nginx_vhost(&vhost).unwrap();
    let expected = "server {\n        listen        80;\n        server_name  test.nm;\n        root   \"D:/phpstudy_pro/WWW/test\";\n        location / {\n            index index.php index.html error/index.html;\n            autoindex  off;\n        }\n\n}";
    assert_eq!(nginx, expected);
}

#[test]
fn nginx_ssl_rewrite_log_and_custom() {
    let engine = SimpleTemplateEngine;
    let mut vhost = sample();
    vhost.ssl = Some(SslConfig {
        cert_path: r"C:\certs\a.crt".into(),
        key_path: r"C:\certs\a.key".into(),
        force_https: true,
    });
    vhost.rewrite_rule = "x".into();
    vhost.access_log = Some(r"C:\logs\a.log".into());
    vhost.custom_directives = Some("gzip on;\nclient_max_body_size 10m;".into());
    vhost.autoindex = true;
    vhost.index_files = String::new();
    let nginx = engine.render_nginx_vhost(&vhost).unwrap();
    assert!(nginx.contains("\n        listen        443 ssl;\n        ssl_certificate     C:/certs/a.crt;\n        ssl_certificate_key C:/certs/a.key;\n        if ($scheme = http) {"));
    assert!(nginx.contains("\n            include D:/phpstudy_pro/WWW/test/nginx.htaccess;"));
    assert!(nginx.contains("access_log  C:/logs/a.log;"));
    assert!(nginx.contains("        gzip on;\n        client_max_body_size 10m;\n}"));
    assert!(nginx.contains("autoindex  on;"));
    assert!(nginx.contains("index index.php index.html error/index.html;"));
}

#[test]
fn invalid_vhost_is_a_template_error() {
    let engine = SimpleTemplateEngine;
    let mut vhost = sample();
    vhost.server_name = "bad name;".into();
    match engine.render_nginx_vhost(&vhost) {
        Err(NaxOneError::Template(m)) => assert_eq!(m, "域名格式不合法：bad name;"),
        _ => panic!("expected a template error"),
    }
    match engine.render_apache_vhost(&vhost) {
        Err(NaxOneError::Template(m)) => assert_eq!(m, "域名格式不合法：bad name;"),
        _ => panic!("expected a template error"),
    }
}

#[test]
fn forward_slashes() {
    assert_eq!(SimpleTemplateEngine::to_forward_slash(r"C:\a\b/c"), "C:/a/b/c");
}
