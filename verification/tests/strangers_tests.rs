use naxone::strangers::{classify_exe, classify_kill_failure, kill_check, stranger_on, watched_port_list, KillFailure};

#[test]
fn watched_ports_are_web_db_cache() {
    assert_eq!(watched_port_list(), vec![80, 443, 3306, 6379]);
}

#[test]
fn exe_classification() {
    assert_eq!(classify_exe("c:\\nginx\\nginx.exe"), Some("Nginx"));
    assert_eq!(classify_exe("c:\\apache24\\bin\\httpd.exe"), Some("Apache"));
    assert_eq!(classify_exe("c:\\mariadb\\bin\\mariadbd.exe"), Some("MySQL"));
    assert_eq!(classify_exe("c:\\redis\\redis-server.exe"), Some("Redis"));
    assert_eq!(classify_exe("c:\\windows\\svchost.exe"), None);
}

#[test]
fn stranger_detection() {
    let known = vec!["d:\\phpstudy_pro\\extensions\\nginx1.15.11".to_string()];
    let s = stranger_on(80, 4321, "C:\\Tools\\Nginx\\nginx.exe", &known).unwrap();
    assert_eq!(s.kind, "Nginx");
    assert_eq!(s.label, "Nginx 占用端口 80（C:\\Tools\\Nginx\\nginx.exe, PID 4321）");
    assert!(stranger_on(80, 4321, "D:\\phpstudy_pro\\Extensions\\Nginx1.15.11\\nginx.exe", &known).is_none());
    assert!(stranger_on(80, 0, "C:\\Tools\\Nginx\\nginx.exe", &known).is_none());
    assert!(stranger_on(443, 7, "C:\\Windows\\System32\\svchost.exe", &known).is_none());
    let nested = vec!["c:\\mysql".to_string()];
    assert!(stranger_on(3306, 9, "C:\\MySQL\\bin\\mysqld.exe", &nested).is_none());
    assert!(stranger_on(3306, 9, "C:\\MySQL8\\bin\\mysqld.exe", &nested).is_some());
}

#[test]
fn kill_whitelist() {
    assert_eq!(kill_check(0, "nginx.exe"), Err("无效 PID".to_string()));
    assert_eq!(
        kill_check(12, ""),
        Err("无法读取 PID 12 的进程信息（可能已退出或权限不足）".to_string())
    );
    assert_eq!(
        kill_check(12, "explorer.exe"),
        Err("拒绝结束 PID 12（explorer.exe）：不在 NaxOne 可管理的服务进程白名单内".to_string())
    );
    assert_eq!(kill_check(12, "xp.cn_cgi.exe"), Ok(()));
    assert_eq!(kill_check(12, "mysqld-nt.exe"), Ok(()));
}

#[test]
fn kill_failure_kinds() {
    assert!(matches!(
        classify_kill_failure(5, "ERROR: The process \"5\" not found."),
        KillFailure::Failed(_)
    ));
    assert!(matches!(
        classify_kill_failure(5, "ERROR: The process \"5\" could Not Be Found."),
        KillFailure::AlreadyGone
    ));
    match classify_kill_failure(5, "ERROR: Access is denied.") {
        KillFailure::Failed(m) => assert_eq!(m, "结束 PID 5 失败：权限不足（请以管理员身份运行 NaxOne）"),
        KillFailure::AlreadyGone => panic!("expected a failure"),
    }
    match classify_kill_failure(5, "boom") {
        KillFailure::Failed(m) => assert_eq!(m, "结束 PID 5 失败: boom"),
        KillFailure::AlreadyGone => panic!("expected a failure"),
    }
}
