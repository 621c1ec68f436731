use naxone::config_editor::{ConfigEditor, MysqlConfig, NginxConfig, RedisConfig};
use naxone::php::{PhpIniSettings, PhpManager};

const FULL_NGINX: &str = "worker_processes 1;\nworker_rlimit_nofile 10;\nevents {\n    worker_connections 1;\n}\nhttp {\n    sendfile on;\n    sendfile_max_chunk 1k;\n    keepalive_timeout 1;\n    keepalive_requests 1;\n    client_max_body_size 1m;\n    client_body_buffer_size 1k;\n    client_body_timeout 1;\n    client_header_buffer_size 1k;\n    client_header_timeout 1;\n    large_client_header_buffers 1 1k;\n    send_timeout 1;\n    reset_timedout_connection on;\n    server_names_hash_bucket_size 1;\n    gzip on;\n    gzip_level 1;\n    gzip_min_length 1;\n    include vhosts/*.conf;\n}\n";

#[test]
fn nginx_whole_settings_round_trip() {
    let ed = ConfigEditor::new();
    let mut cfg = NginxConfig::default();
    cfg.worker_processes = "auto".to_string();
    cfg.worker_connections = 2048;
    cfg.worker_rlimit_nofile = 65535;
    cfg.keepalive_timeout = 75;
    cfg.keepalive_requests = 1000;
    cfg.sendfile = false;
    cfg.sendfile_max_chunk = "2m".to_string();
    cfg.client_max_body_size = "100m".to_string();
    cfg.client_body_buffer_size = "128k".to_string();
    cfg.client_body_timeout = 30;
    cfg.client_header_buffer_size = "4k".to_string();
    cfg.client_header_timeout = 45;
    cfg.large_client_header_buffers = "8 32k".to_string();
    cfg.send_timeout = 20;
    cfg.reset_timedout_connection = false;
    cfg.server_names_hash_bucket_size = 128;
    cfg.gzip = true;
    cfg.gzip_level = 9;
    cfg.gzip_min_length = 2048;
    let out = ed.save_nginx(FULL_NGINX, &cfg).unwrap();
    let back = ed.read_nginx(&out);
    assert_eq!(back.worker_processes, "auto");
    assert_eq!(back.worker_connections, 2048);
    assert_eq!(back.worker_rlimit_nofile, 65535);
    assert_eq!(back.keepalive_timeout, 75);
    assert_eq!(back.keepalive_requests, 1000);
    assert!(!back.sendfile);
    assert_eq!(back.sendfile_max_chunk, "2m");
    assert_eq!(back.client_max_body_size, "100m");
    assert_eq!(back.client_body_buffer_size, "128k");
    assert_eq!(back.client_body_timeout, 30);
    assert_eq!(back.client_header_buffer_size, "4k");
    assert_eq!(back.client_header_timeout, 45);
    assert_eq!(back.large_client_header_buffers, "8 32k");
    assert_eq!(back.send_timeout, 20);
    assert!(!back.reset_timedout_connection);
    assert_eq!(back.server_names_hash_bucket_size, 128);
    assert!(back.gzip);
    assert_eq!(back.gzip_level, 9);
    assert_eq!(back.gzip_min_length, 2048);
    assert!(out.contains("    include vhosts/*.conf;"));
}

const FULL_MYSQL: &str = "[mysqld]\nport=1\nmax_connections=1\nmax_allowed_packet=1M\ninnodb_buffer_pool_size=1M\ninnodb_log_file_size=1M\ninnodb_log_buffer_size=1M\ninnodb_flush_log_at_trx_commit=0\ninnodb_lock_wait_timeout=1\n#character-set-server=latin1\n;collation-server=latin1_swedish_ci\ninit_connect=x\nkey_buffer_size=1M\ntable_open_cache=1\ntmp_table_size=1M\nmax_heap_table_size=1M\ninteractive_timeout=1\nwait_timeout=1\nsort_buffer_size=1k\nread_buffer_size=1k\nread_rnd_buffer_size=1k\njoin_buffer_size=1k\nmyisam_sort_buffer_size=1M\nthread_cache_size=1\nlog_error_verbosity=1\ndefault-storage-engine=InnoDB\nskip-name-resolve\n";

#[test]
fn mysql_whole_settings_round_trip() {
    let ed = ConfigEditor::new();
    let mut cfg = MysqlConfig::default();
    cfg.port = 3308;
    cfg.max_connections = 500;
    cfg.max_allowed_packet = "64M".to_string();
    cfg.innodb_buffer_pool_size = "1G".to_string();
    cfg.innodb_log_file_size = "512M".to_string();
    cfg.innodb_log_buffer_size = "16M".to_string();
    cfg.innodb_flush_log_at_trx_commit = 2;
    cfg.innodb_lock_wait_timeout = 50;
    cfg.character_set_server = "utf8mb4".to_string();
    cfg.collation_server = "utf8mb4_general_ci".to_string();
    cfg.init_connect = "SET NAMES utf8mb4".to_string();
    cfg.key_buffer_size = "64M".to_string();
    cfg.table_open_cache = 2000;
    cfg.tmp_table_size = "128M".to_string();
    cfg.max_heap_table_size = "128M".to_string();
    cfg.interactive_timeout = 600;
    cfg.wait_timeout = 600;
    cfg.sort_buffer_size = "1M".to_string();
    cfg.read_buffer_size = "1M".to_string();
    cfg.read_rnd_buffer_size = "8M".to_string();
    cfg.join_buffer_size = "4M".to_string();
    cfg.myisam_sort_buffer_size = "64M".to_string();
    cfg.thread_cache_size = 32;
    cfg.log_error_verbosity = 3;
    cfg.default_storage_engine = "MyISAM".to_string();
    let out = ed.save_mysql(FULL_MYSQL, &cfg);
    let back = ed.read_mysql(&out);
    assert_eq!(back.port, 3308);
    assert_eq!(back.max_connections, 500);
    assert_eq!(back.max_allowed_packet, "64M");
    assert_eq!(back.innodb_buffer_pool_size, "1G");
    assert_eq!(back.innodb_log_file_size, "512M");
    assert_eq!(back.innodb_log_buffer_size, "16M");
    assert_eq!(back.innodb_flush_log_at_trx_commit, 2);
    assert_eq!(back.innodb_lock_wait_timeout, 50);
    assert_eq!(back.character_set_server, "utf8mb4");
    assert_eq!(back.collation_server, "utf8mb4_general_ci");
    assert_eq!(back.init_connect, "SET NAMES utf8mb4");
    assert_eq!(back.key_buffer_size, "64M");
    assert_eq!(back.table_open_cache, 2000);
    assert_eq!(back.tmp_table_size, "128M");
    assert_eq!(back.max_heap_table_size, "128M");
    assert_eq!(back.interactive_timeout, 600);
    assert_eq!(back.wait_timeout, 600);
    assert_eq!(back.sort_buffer_size, "1M");
    assert_eq!(back.read_buffer_size, "1M");
    assert_eq!(back.read_rnd_buffer_size, "8M");
    assert_eq!(back.join_buffer_size, "4M");
    assert_eq!(back.myisam_sort_buffer_size, "64M");
    assert_eq!(back.thread_cache_size, 32);
    assert_eq!(back.log_error_verbosity, 3);
    assert_eq!(back.default_storage_engine, "MyISAM");
    assert!(out.contains("skip-name-resolve"));
}

#[test]
fn redis_whole_settings_round_trip() {
    let ed = ConfigEditor::new();
    let mut cfg = RedisConfig::default();
    cfg.port = 6390;
    cfg.bind = "0.0.0.0".to_string();
    cfg.timeout = 300;
    cfg.databases = 32;
    cfg.maxmemory = "256mb".to_string();
    cfg.maxclients = 500;
    cfg.maxmemory_policy = "allkeys-lru".to_string();
    cfg.tcp_backlog = 1024;
    cfg.tcp_keepalive = 60;
    cfg.loglevel = "warning".to_string();
    cfg.rdbcompression = false;
    cfg.appendonly = true;
    cfg.appendfsync = "always".to_string();
    cfg.requirepass = "s3cret".to_string();
    cfg.logfile = "redis.log".to_string();
    cfg.rdbchecksum = false;
    cfg.dbfilename = "data.rdb".to_string();
    cfg.dir = "./data".to_string();
    cfg.stop_writes_on_bgsave_error = false;
    let out = ed.save_redis("# empty config\nlogfile old.log\nsave 900 1\n", &cfg);
    let back = ed.read_redis(&out);
    assert_eq!(back.port, 6390);
    assert_eq!(back.bind, "0.0.0.0");
    assert_eq!(back.timeout, 300);
    assert_eq!(back.databases, 32);
    assert_eq!(back.maxmemory, "256mb");
    assert_eq!(back.maxclients, 500);
    assert_eq!(back.maxmemory_policy, "allkeys-lru");
    assert_eq!(back.tcp_backlog, 1024);
    assert_eq!(back.tcp_keepalive, 60);
    assert_eq!(back.loglevel, "warning");
    assert!(!back.rdbcompression);
    assert!(back.appendonly);
    assert_eq!(back.appendfsync, "always");
    assert_eq!(back.requirepass, "s3cret");
    assert_eq!(back.logfile, "old.log");
    assert!(!back.rdbchecksum);
    assert_eq!(back.dbfilename, "data.rdb");
    assert_eq!(back.dir, "./data");
    assert!(!back.stop_writes_on_bgsave_error);
    assert_eq!(back.save_rules, "900 1");
}

#[test]
fn php_whole_settings_round_trip() {
    let ini = "[PHP]\nmemory_limit = 128M\n;date.timezone =\nopen_basedir = C:/www\nextension=php_curl.dll\n";
    let mut st = PhpIniSettings::default();
    st.memory_limit = "1G".to_string();
    st.upload_max_filesize = "200M".to_string();
    st.post_max_size = "210M".to_string();
    st.max_execution_time = 600;
    st.max_input_time = -1;
    st.display_errors = false;
    st.error_reporting = "E_ALL & ~E_NOTICE".to_string();
    st.date_timezone = "UTC".to_string();
    st.file_uploads = false;
    st.short_open_tag = false;
    st.allow_url_fopen = false;
    st.allow_url_include = true;
    st.disable_functions = "exec,system".to_string();
    st.expose_php = false;
    st.open_basedir = String::new();
    st.opcache_enable = true;
    st.opcache_memory_consumption = 256;
    st.opcache_max_accelerated_files = 20000;
    st.opcache_validate_timestamps = false;
    st.opcache_revalidate_freq = 0;
    st.session_save_handler = "redis".to_string();
    st.session_save_path = "tcp://127.0.0.1:6379".to_string();
    st.session_gc_maxlifetime = 3600;
    st.session_cookie_lifetime = 86400;
    st.session_name = "SID".to_string();
    st.session_use_cookies = false;
    st.session_use_only_cookies = false;
    st.session_use_strict_mode = true;
    st.session_cookie_httponly = true;
    st.session_cookie_samesite = "Lax".to_string();
    st.output_buffering = "Off".to_string();
    st.default_charset = "GBK".to_string();
    st.max_file_uploads = 50;
    st.default_socket_timeout = 120;
    let out = PhpManager::save_ini_settings(ini, &st);
    let back = PhpManager::read_ini_settings(&out);
    assert_eq!(back.memory_limit, "1G");
    assert_eq!(back.upload_max_filesize, "200M");
    assert_eq!(back.post_max_size, "210M");
    assert_eq!(back.max_execution_time, 600);
    assert_eq!(back.max_input_time, -1);
    assert!(!back.display_errors);
    assert_eq!(back.error_reporting, "E_ALL & ~E_NOTICE");
    assert_eq!(back.date_timezone, "UTC");
    assert!(!back.file_uploads);
    assert!(!back.short_open_tag);
    assert!(!back.allow_url_fopen);
    assert!(back.allow_url_include);
    assert_eq!(back.disable_functions, "exec,system");
    assert!(!back.expose_php);
    assert_eq!(back.open_basedir, "C:/www");
    assert!(back.opcache_enable);
    assert_eq!(back.opcache_memory_consumption, 256);
    assert_eq!(back.opcache_max_accelerated_files, 20000);
    assert!(!back.opcache_validate_timestamps);
    assert_eq!(back.opcache_revalidate_freq, 0);
    assert_eq!(back.session_save_handler, "redis");
    assert_eq!(back.session_save_path, "tcp://127.0.0.1:6379");
    assert_eq!(back.session_gc_maxlifetime, 3600);
    assert_eq!(back.session_cookie_lifetime, 86400);
    assert_eq!(back.session_name, "SID");
    assert!(!back.session_use_cookies);
    assert!(!back.session_use_only_cookies);
    assert!(back.session_use_strict_mode);
    assert!(back.session_cookie_httponly);
    assert_eq!(back.session_cookie_samesite, "Lax");
    assert_eq!(back.output_buffering, "Off");
    assert_eq!(back.default_charset, "\"GBK\"");
    assert_eq!(back.max_file_uploads, 50);
    assert_eq!(back.default_socket_timeout, 120);
    assert!(out.contains("extension=php_curl.dll"));
}
