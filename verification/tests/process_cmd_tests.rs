use naxone::error::NaxOneError;
use naxone::process_cmd::{
    kill_failure_message, nginx_config_error, port_still_busy_message, probe_pid, probed_status,
    reload_failure_message, reload_steps, start_command, start_failure_message, stop_command, ProbePid,
};
use naxone::service::{ServiceInstance, ServiceKind, ServiceOrigin, ServiceStatus};
use naxone::tasklist::{netstat_snapshot, parse_netstat_line, parse_tasklist_line, tasklist_snapshot};

fn svc(kind: ServiceKind, path: &str, cfg: Option<&str>, port: u16) -> ServiceInstance {
    ServiceInstance {
        kind,
        version: "1.0".to_string(),
        variant: None,
        install_path: path.to_string(),
        config_path: cfg.map(|c| c.to_string()),
        port,
        status: ServiceStatus::Stopped,
        auto_start: false,
        origin: ServiceOrigin::PhpStudy,
    }
}

#[test]
fn start_commands_per_kind() {
    let c = start_command(&svc(ServiceKind::Nginx, "D:\\Nginx1.15", None, 80));
    assert_eq!(c.program, "D:\\Nginx1.15\\nginx.exe");
    assert_eq!(c.args, vec!["-c", "D:\\Nginx1.15\\conf\\nginx.conf"]);
    assert_eq!(c.cwd.as_deref(), Some("D:\\Nginx1.15"));

    let c = start_command(&svc(ServiceKind::Apache, "D:\\Apache", Some("D:\\x.conf"), 80));
    assert_eq!(c.program, "D:\\Apache\\bin\\httpd.exe");
    assert_eq!(c.args, vec!["-f", "D:\\x.conf"]);

    let c = start_command(&svc(ServiceKind::Php, "D:\\php\\php84nts", Some("D:\\php.ini"), 9001));
    assert_eq!(c.program, "D:\\php\\php84nts\\php-cgi.exe");
    assert_eq!(c.args, vec!["-b", "127.0.0.1:9001", "-c", "D:\\php.ini"]);

    let c = start_command(&svc(ServiceKind::Php, "D:\\php\\php74nts\\", None, 9000));
    assert_eq!(c.program, "D:\\php\\php74nts\\php-cgi.exe");
    assert_eq!(c.args, vec!["-b", "127.0.0.1:9000"]);

    let c = start_command(&svc(ServiceKind::Mysql, "D:\\MySQL8", None, 3306));
    assert_eq!(c.program, "D:\\MySQL8\\bin\\mysqld.exe");
    assert_eq!(c.args, vec!["--defaults-file=D:\\MySQL8\\my.ini"]);

    let c = start_command(&svc(ServiceKind::Redis, "D:\\Redis", None, 6379));
    assert_eq!(c.program, "D:\\Redis\\redis-server.exe");
    assert_eq!(c.args, vec!["D:\\Redis\\redis.windows.conf"]);
}

#[test]
fn stop_commands_per_kind() {
    let c = stop_command(&svc(ServiceKind::Nginx, "N", None, 80)).unwrap();
    assert_eq!((c.program.as_str(), c.args.clone()), ("N\\nginx.exe", vec!["-s".to_string(), "quit".to_string()]));
    let c = stop_command(&svc(ServiceKind::Redis, "R", None, 6380)).unwrap();
    assert_eq!(c.program, "R\\redis-cli.exe");
    assert_eq!(c.args, vec!["-p", "6380", "shutdown"]);
    assert!(c.cwd.is_none());
    let c = stop_command(&svc(ServiceKind::Mysql, "M", None, 3306)).unwrap();
    assert_eq!(c.program, "M\\bin\\mysqladmin.exe");
    assert_eq!(c.args, vec!["-u", "root", "shutdown"]);
    let c = stop_command(&svc(ServiceKind::Apache, "A", None, 80)).unwrap();
    assert_eq!(c.args, vec!["-k", "stop"]);
    assert!(stop_command(&svc(ServiceKind::Php, "P", None, 9000)).is_none());
}

#[test]
fn reload_steps_per_kind() {
    let steps = reload_steps(&svc(ServiceKind::Nginx, "N", None, 80));
    assert_eq!(steps.len(), 2);
    assert_eq!(steps[0].args, vec!["-t"]);
    assert_eq!(steps[1].args, vec!["-s", "reload"]);
    let steps = reload_steps(&svc(ServiceKind::Apache, "A", None, 80));
    assert_eq!(steps.len(), 1);
    assert_eq!(steps[0].program, "A\\bin\\httpd.exe");
    assert_eq!(steps[0].args, vec!["-k", "graceful"]);
    assert!(reload_steps(&svc(ServiceKind::Redis, "R", None, 6379)).is_empty());
}

#[test]
fn process_failure_messages() {
    assert_eq!(start_failure_message(ServiceKind::Nginx, 1, "  \n"), "Nginx 启动失败 (exit code 1)");
    assert_eq!(start_failure_message(ServiceKind::Mysql, -1, ""), "MySQL 启动失败 (exit code -1)");
    assert_eq!(
        start_failure_message(ServiceKind::Nginx, 1, "line one\nnginx: [emerg] bad\n"),
        "Nginx 启动失败: nginx: [emerg] bad"
    );
    assert_eq!(
        kill_failure_message(ServiceKind::Nginx, 1234, "ERROR: Access is denied."),
        "无法结束 Nginx (PID 1234): 权限不足（进程可能以管理员身份启动）"
    );
    assert_eq!(
        kill_failure_message(ServiceKind::Redis, 7, "no such process"),
        "无法结束 Redis (PID 7): no such process"
    );
    assert_eq!(
        port_still_busy_message(ServiceKind::Mysql, 3306, 0),
        "MySQL 已发出停止命令但端口 3306 仍被占用"
    );
    assert_eq!(
        port_still_busy_message(ServiceKind::Mysql, 3306, 99),
        "MySQL 已发出停止命令但端口 3306 仍被占用（端口仍被 PID 99 占用）"
    );
    assert_eq!(
        nginx_config_error("nginx: the configuration file ok\nnginx: [emerg] unknown directive\nnginx: test failed"),
        "Nginx 配置错误: nginx: [emerg] unknown directive"
    );
    assert_eq!(nginx_config_error("a\nb"), "Nginx 配置错误: b");
    assert_eq!(nginx_config_error(""), "Nginx 配置错误: unknown");
    assert_eq!(reload_failure_message(ServiceKind::Apache, "  boom \n"), "Apache reload 失败: boom");
}

#[test]
fn netstat_lines() {
    assert_eq!(
        parse_netstat_line("  TCP    0.0.0.0:80             0.0.0.0:0              LISTENING       1234"),
        Some((80, 1234))
    );
    assert_eq!(
        parse_netstat_line("  TCP    [::]:3306              [::]:0                 LISTENING       88"),
        Some((3306, 88))
    );
    assert_eq!(parse_netstat_line("  TCP    127.0.0.1:5000   127.0.0.1:6000   ESTABLISHED   10"), None);
    assert_eq!(parse_netstat_line("LISTENING"), None);
}

#[test]
fn netstat_snapshot_keeps_first_pid() {
    let text = "Active Connections\r\n\r\n  Proto  Local Address  Foreign Address  State  PID\r\n  TCP    0.0.0.0:80   0.0.0.0:0   LISTENING   100\r\n  TCP    [::]:80   [::]:0   LISTENING   200\r\n  TCP    0.0.0.0:9000   0.0.0.0:0   LISTENING   300\r\n";
    assert_eq!(netstat_snapshot(text), vec![(80, 100), (9000, 300)]);
}

#[test]
fn tasklist_lines_and_snapshot() {
    assert_eq!(parse_tasklist_line("\"nginx.exe\",\"1234\",\"Console\",\"1\",\"12,345 K\""), Some((1234, 12)));
    assert_eq!(parse_tasklist_line("   "), None);
    assert_eq!(parse_tasklist_line("\"a\",\"x\",\"c\",\"1\",\"1 K\""), None);
    let text = "\"a.exe\",\"1\",\"C\",\"1\",\"2,048 K\"\n\"b.exe\",\"2\",\"C\",\"1\",\"512 K\"\n\"a.exe\",\"1\",\"C\",\"1\",\"4,096 K\"\n";
    assert_eq!(tasklist_snapshot(text), vec![(1, 4), (2, 1)]);
}

#[test]
fn linux_manager_is_unsupported() {
    let m = naxone::process_cmd::LinuxProcessManager;
    let s = svc(ServiceKind::Nginx, "N", None, 80);
    assert!(matches!(m.start(&s), Err(NaxOneError::Process(ref x)) if x == "Linux support not yet implemented"));
    assert!(matches!(m.stop(&s), Err(NaxOneError::Process(_))));
    assert!(matches!(m.restart(&s), Err(NaxOneError::Process(_))));
    assert!(matches!(m.reload(&s), Err(NaxOneError::Process(_))));
    assert!(matches!(m.status(&s), Ok(ServiceStatus::Stopped)));
}

#[test]
fn probe_pid_decisions() {
    let listening = vec![(80u16, 500u32), (9000, 600), (6379, 0)];
    assert_eq!(probe_pid(false, Some(1), ServiceKind::Nginx, 80, &listening), ProbePid::Stopped);
    assert_eq!(probe_pid(true, Some(1), ServiceKind::Nginx, 80, &listening), ProbePid::Known(1));
    assert_eq!(probe_pid(true, None, ServiceKind::Nginx, 80, &listening), ProbePid::CheckName(500));
    assert_eq!(probe_pid(true, None, ServiceKind::Php, 9000, &listening), ProbePid::Known(600));
    assert_eq!(probe_pid(true, None, ServiceKind::Redis, 6379, &listening), ProbePid::Stopped);
    assert_eq!(probe_pid(true, None, ServiceKind::Mysql, 3306, &listening), ProbePid::Stopped);
}

#[test]
fn probed_status_has_memory() {
    let mem = vec![(500u32, 33u64)];
    assert_eq!(probed_status(500, &mem), ServiceStatus::Running { pid: 500, memory_mb: Some(33) });
    assert_eq!(probed_status(7, &mem), ServiceStatus::Running { pid: 7, memory_mb: None });
}
