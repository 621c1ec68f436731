use naxone::service::{ServiceInstance, ServiceKind, ServiceOrigin, ServiceStatus};
use naxone::stop_flow::{stop_step, StopAction, StopEvent, StopPhase};

fn svc(kind: ServiceKind, path: &str, port: u16) -> ServiceInstance {
    ServiceInstance {
        kind,
        version: "1.0".to_string(),
        variant: None,
        install_path: path.to_string(),
        config_path: None,
        port,
        status: ServiceStatus::Stopped,
        auto_start: false,
        origin: ServiceOrigin::Store,
    }
}

#[test]
fn stop_graceful_success_forgets_the_process() {
    let s = svc(ServiceKind::Nginx, "D:\\Nginx1.25", 80);
    let (ph, act) = stop_step(&s, StopPhase::Begin, StopEvent::Start);
    assert_eq!(ph, StopPhase::Graceful);
    match act {
        StopAction::RunGraceful(c) => assert_eq!(c.program, "D:\\Nginx1.25\\nginx.exe"),
        _ => panic!("expected the graceful command"),
    }
    let (ph, act) = stop_step(&s, ph, StopEvent::GracefulExit(Some(true)));
    assert_eq!(ph, StopPhase::Done);
    assert!(matches!(act, StopAction::Forget));
}

#[test]
fn stop_without_graceful_command_kills_then_checks_the_port() {
    let s = svc(ServiceKind::Php, "D:\\php\\php84nts", 9000);
    let (ph, act) = stop_step(&s, StopPhase::Begin, StopEvent::Start);
    assert_eq!(ph, StopPhase::Lookup);
    assert!(matches!(act, StopAction::LookupPid));
    let (ph, act) = stop_step(&s, ph, StopEvent::Pid(4242));
    assert_eq!(ph, StopPhase::Kill { pid: 4242 });
    assert!(matches!(act, StopAction::Kill(4242)));
    let (ph, act) = stop_step(&s, ph, StopEvent::KillExit(Some((true, String::new()))));
    assert_eq!(ph, StopPhase::Settle);
    assert!(matches!(act, StopAction::WaitAndProbe));
    let (ph, act) = stop_step(&s, ph, StopEvent::PortBusy(false));
    assert_eq!(ph, StopPhase::Done);
    assert!(matches!(act, StopAction::Forget));
}

#[test]
fn stop_failed_graceful_and_denied_kill_reports_rights() {
    let s = svc(ServiceKind::Redis, "D:\\Redis", 6379);
    let (ph, _) = stop_step(&s, StopPhase::Begin, StopEvent::Start);
    let (ph, act) = stop_step(&s, ph, StopEvent::GracefulExit(Some(false)));
    assert_eq!(ph, StopPhase::Lookup);
    assert!(matches!(act, StopAction::LookupPid));
    let (ph, _) = stop_step(&s, ph, StopEvent::Pid(7));
    let (ph, act) = stop_step(&s, ph, StopEvent::KillExit(Some((false, "  ERROR: Access is denied.\r\n".to_string()))));
    assert_eq!(ph, StopPhase::Done);
    match act {
        StopAction::Fail(m) => assert_eq!(m, "无法结束 Redis (PID 7): 权限不足（进程可能以管理员身份启动）"),
        _ => panic!("expected a failure"),
    }
}

#[test]
fn stop_with_port_still_busy_names_the_holder() {
    let s = svc(ServiceKind::Mysql, "D:\\MySQL8", 3306);
    let (ph, _) = stop_step(&s, StopPhase::Begin, StopEvent::Start);
    assert_eq!(ph, StopPhase::Graceful);
    let (ph, _) = stop_step(&s, ph, StopEvent::GracefulExit(None));
    let (ph, act) = stop_step(&s, ph, StopEvent::Pid(0));
    assert_eq!(ph, StopPhase::Settle);
    assert!(matches!(act, StopAction::WaitAndProbe));
    let (ph, act) = stop_step(&s, ph, StopEvent::PortBusy(true));
    assert_eq!(ph, StopPhase::Holder);
    assert!(matches!(act, StopAction::FindHolder));
    let (ph, act) = stop_step(&s, ph, StopEvent::HolderPid(99));
    assert_eq!(ph, StopPhase::Done);
    match act {
        StopAction::Fail(m) => assert_eq!(m, "MySQL 已发出停止命令但端口 3306 仍被占用（端口仍被 PID 99 占用）"),
        _ => panic!("expected a failure"),
    }
    let (_, act) = stop_step(&s, StopPhase::Kill { pid: 5 }, StopEvent::KillExit(None));
    assert!(matches!(act, StopAction::WaitAndProbe));
}
