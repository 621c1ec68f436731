use naxone::proxy::{pick_https_server, proxy_url};
use naxone::tasklist::{
    app_stats, parse_csv_line, parse_tasklist_memory, pid_matches_service, process_name, AppStats,
};
use naxone::service::ServiceKind;

#[test]
fn simple_host_port() {
    assert_eq!(pick_https_server("127.0.0.1:7890"), Some("127.0.0.1:7890".into()));
}

#[test]
fn per_protocol_prefers_https() {
    let s = "http=a:1;https=b:2;ftp=c:3";
    assert_eq!(pick_https_server(s), Some("b:2".into()));
}

#[test]
fn per_protocol_falls_back_to_http() {
    let s = "http=a:1;ftp=c:3";
    assert_eq!(pick_https_server(s), Some("a:1".into()));
}

#[test]
fn per_protocol_none_matches() {
    assert_eq!(pick_https_server("ftp=c:3"), None);
}

#[test]
fn proxy_key_case_and_spaces() {
    assert_eq!(pick_https_server(" HTTPS = b:2 ; http=a:1"), Some("b:2".into()));
    assert_eq!(proxy_url("127.0.0.1:7890"), "http://127.0.0.1:7890");
    assert_eq!(proxy_url("https://p:1"), "https://p:1");
}

#[test]
fn parse_tasklist_memory_variants() {
    assert_eq!(parse_tasklist_memory("12,345 K"), Some(12));
    assert_eq!(parse_tasklist_memory("1,234,567 K"), Some(1206));
    assert_eq!(parse_tasklist_memory("512 K"), Some(1));
    assert_eq!(parse_tasklist_memory("0 K"), Some(0));
    assert_eq!(parse_tasklist_memory("N/A"), None);
    assert_eq!(parse_tasklist_memory(""), None);
}

#[test]
fn parse_csv_line_handles_quotes() {
    let line = r#""nginx.exe","1234","Console","1","12,345 K""#;
    let fields = parse_csv_line(line);
    assert_eq!(fields.len(), 5);
    assert_eq!(fields[0], "nginx.exe");
    assert_eq!(fields[1], "1234");
    assert_eq!(fields[4], "12,345 K");
}

#[test]
fn csv_line_edges() {
    assert_eq!(parse_csv_line(""), vec![String::new()]);
    assert_eq!(parse_csv_line("a,,b"), vec!["a".to_string(), String::new(), "b".to_string()]);
}

#[test]
fn process_name_from_tasklist_output() {
    let out = "\"NGINX.exe\",\"1234\",\"Console\",\"1\",\"12,345 K\"\r\n";
    assert_eq!(process_name(out), Some("nginx.exe".to_string()));
    assert_eq!(process_name(""), None);
    assert_eq!(process_name("INFO: No tasks are running\r\n"), Some("info: no tasks are running".to_string()));
}

#[test]
fn pid_matches_by_kind() {
    assert!(pid_matches_service(1234, ServiceKind::Nginx, Some("nginx.exe")));
    assert!(pid_matches_service(9, ServiceKind::Apache, Some("httpd.exe")));
    assert!(pid_matches_service(9, ServiceKind::Mysql, Some("mysqld.exe")));
    assert!(!pid_matches_service(9, ServiceKind::Mysql, Some("mysql.exe")));
    assert!(!pid_matches_service(0, ServiceKind::Nginx, Some("nginx.exe")));
    assert!(!pid_matches_service(9, ServiceKind::Redis, None));
}

#[test]
fn app_stats_reads_own_memory() {
    let snap = vec![(4u32, 10u64), (77, 120), (4, 99)];
    let s = app_stats(4, &snap, 30);
    assert_eq!(s, AppStats { pid: 4, memory_mb: Some(10), uptime_secs: 30 });
    assert_eq!(app_stats(5, &snap, 0).memory_mb, None);
}
