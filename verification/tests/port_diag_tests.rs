use naxone::port_diag::{check_port_number, identify_source, kill_process_failure, port_diagnosis, port_listener, port_listeners};

const NETSTAT: &str = "\r\nActive Connections\r\n\r\n  Proto  Local Address          Foreign Address        State           PID\r\n  TCP    0.0.0.0:80             0.0.0.0:0              LISTENING       7052\r\n  TCP    0.0.0.0:8080           0.0.0.0:0              LISTENING       11\r\n  TCP    [::]:80                [::]:0                 LISTENING       7052\r\n  TCP    [::]:80                [::]:0                 LISTENING       900\r\n  TCP    127.0.0.1:80           127.0.0.1:5555         ESTABLISHED     7052\r\n";

#[test]
fn listeners_on_port_dedupe_pids() {
    let l = port_listeners(NETSTAT, 80);
    assert_eq!(l, vec![(7052, "0.0.0.0:80".to_string()), (900, "[::]:80".to_string())]);
    assert_eq!(port_listeners(NETSTAT, 8080), vec![(11, "0.0.0.0:8080".to_string())]);
    assert!(port_listeners(NETSTAT, 3306).is_empty());
}

#[test]
fn source_identification() {
    assert_eq!(identify_source(Some("D:\\phpStudy_pro\\Extensions\\Nginx\\nginx.exe")), Some("PHPStudy".to_string()));
    assert_eq!(identify_source(Some("C:\\nginx\\nginx.exe")), None);
    assert_eq!(identify_source(None), None);
}

#[test]
fn port_zero_is_rejected() {
    assert_eq!(check_port_number(0), Err("端口号必须大于 0".to_string()));
    assert_eq!(check_port_number(80), Ok(()));
}

#[test]
fn kill_failure_prefers_stderr() {
    assert_eq!(kill_process_failure("  denied \r\n", "x"), "结束进程失败: denied");
    assert_eq!(kill_process_failure("  ", " out "), "结束进程失败: out");
}

#[test]
fn diagnosis_assembly() {
    let l = port_listener(7052, "0.0.0.0:80".to_string(), Some("nginx.exe".to_string()), Some("D:\\phpstudy_pro\\nginx.exe".to_string()));
    assert_eq!(l.source.as_deref(), Some("PHPStudy"));
    let d = port_diagnosis(80, vec![l]);
    assert!(d.in_use);
    assert_eq!(d.listeners.len(), 1);
    assert!(!port_diagnosis(81, vec![]).in_use);
}
