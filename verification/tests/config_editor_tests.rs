use naxone::config_editor::{ConfigEditor, MysqlConfig, NginxConfig, RedisConfig};

const NGINX: &str = "worker_processes 4;\nevents {\n    worker_connections  1024;\n}\nhttp {\n    sendfile;\n    gzip  on;\n    #gzip_min_length 1k;\n    keepalive_timeout 65;\n}\n";

#[test]
fn nginx_read_values_and_defaults() {
    let ed = ConfigEditor::new();
    let cfg = ed.read_nginx(NGINX);
    assert_eq!(cfg.worker_processes, "4");
    assert_eq!(cfg.worker_connections, 1024);
    assert_eq!(cfg.keepalive_timeout, 65);
    // `sendfile;` has an empty value, which is not `on`.
    assert!(!cfg.sendfile);
    assert!(cfg.gzip);
    // commented and missing directives keep their defaults
    assert_eq!(cfg.gzip_min_length, 1024);
    assert_eq!(cfg.gzip_level, 6);
    assert_eq!(cfg.client_max_body_size, "50m");
}

#[test]
fn nginx_save_rewrites_and_inserts() {
    let ed = ConfigEditor::new();
    let mut cfg = NginxConfig::default();
    cfg.worker_processes = "8".into();
    cfg.gzip = true;
    let out = ed.save_nginx(NGINX, &cfg).unwrap();
    assert!(out.contains("worker_processes 8;"));
    assert!(out.contains("    worker_connections 40960;"));
    assert!(out.contains("    gzip on;"));
    assert!(out.contains("    gzip_min_length 1024;"));
    assert!(out.contains("    gzip on;\n    gzip_level 6;"));
    assert!(!out.ends_with('\n'));
    let back = ed.read_nginx(&out);
    assert_eq!(back.worker_processes, "8");
    assert_eq!(back.gzip_level, 6);
    assert_eq!(back.gzip_min_length, 1024);
}

#[test]
fn nginx_gzip_level_out_of_range_is_refused() {
    let ed = ConfigEditor::new();
    let mut cfg = NginxConfig::default();
    cfg.gzip_level = 0;
    assert_eq!(ed.save_nginx(NGINX, &cfg), Err("gzip_level 必须在 1-9 之间".to_string()));
    cfg.gzip_level = 10;
    assert!(ed.save_nginx(NGINX, &cfg).is_err());
    cfg.gzip_level = 9;
    assert!(ed.save_nginx(NGINX, &cfg).is_ok());
}

const MYSQL: &str = "[mysqld]\nport = 3307\nmax_connections=abc\n#character-set-server=latin1\n;key_buffer_size=8M\n";

#[test]
fn mysql_read_and_save() {
    let ed = ConfigEditor::new();
    let cfg = ed.read_mysql(MYSQL);
    assert_eq!(cfg.port, 3307);
    assert_eq!(cfg.max_connections, 100);
    assert_eq!(cfg.character_set_server, "utf8");
    let mut c2 = MysqlConfig::default();
    c2.port = 3308;
    c2.character_set_server = "utf8mb4".into();
    let out = ed.save_mysql(MYSQL, &c2);
    assert!(out.contains("port=3308"));
    assert!(out.contains("character-set-server=utf8mb4"));
    assert!(out.contains("key_buffer_size=32M"));
    assert!(!out.contains("wait_timeout"));
    let back = ed.read_mysql(&out);
    assert_eq!(back.port, 3308);
    assert_eq!(back.character_set_server, "utf8mb4");
}

const REDIS: &str = "port 6380\nbind 127.0.0.1\n# requirepass foobared\nsave 900 1\nsave 300 10\nappendonly yes\nmaxmemory \"100mb\"\n";

#[test]
fn redis_read() {
    let ed = ConfigEditor::new();
    let cfg = ed.read_redis(REDIS);
    assert_eq!(cfg.port, 6380);
    assert_eq!(cfg.save_rules, "900 1 / 300 10");
    assert!(cfg.appendonly);
    assert!(cfg.rdbcompression);
    assert_eq!(cfg.maxmemory, "100mb");
    assert_eq!(cfg.requirepass, "");
    let none = ed.read_redis("");
    assert_eq!(none.save_rules, "900 1 300 10 60 10000");
}

#[test]
fn redis_save_round_trip() {
    let ed = ConfigEditor::new();
    let mut cfg = RedisConfig::default();
    cfg.port = 7000;
    cfg.requirepass = "s3cret".into();
    let out = ed.save_redis(REDIS, &cfg);
    assert!(out.contains("requirepass s3cret"));
    assert!(out.contains("port 7000"));
    assert!(out.contains("appendonly no"));
    let back = ed.read_redis(&out);
    assert_eq!(back.port, 7000);
    assert_eq!(back.requirepass, "s3cret");
    assert_eq!(back.dbfilename, "dump.rdb");
    cfg.requirepass = String::new();
    let out2 = ed.save_redis(&out, &cfg);
    assert!(out2.contains("# requirepass s3cret"));
    assert_eq!(ed.read_redis(&out2).requirepass, "");
}
