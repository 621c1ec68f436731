use naxone::service::{ServiceInstance, ServiceKind, ServiceOrigin, ServiceStatus};
use naxone::service_mgr::{
    batch_outcome, failure_line, start_all_includes, DepsStart, ServiceManager, StartAction,
};

fn svc(kind: ServiceKind, version: &str, running: bool) -> ServiceInstance {
    ServiceInstance {
        kind,
        version: version.to_string(),
        variant: None,
        install_path: format!("C:/{}", version),
        config_path: None,
        port: 80,
        status: if running { ServiceStatus::Running { pid: 1, memory_mb: None } } else { ServiceStatus::Stopped },
        auto_start: false,
        origin: ServiceOrigin::PhpStudy,
    }
}

fn svc_with(kind: ServiceKind, status: ServiceStatus) -> ServiceInstance {
    let mut s = svc(kind, "1.0", false);
    s.status = status;
    s
}

/// Runs the machine against scripted outcomes; returns the outcome and the log of actions.
fn run(
    services: Vec<ServiceInstance>,
    target: usize,
    stop_ok: bool,
    probe: Option<ServiceStatus>,
    start_ok: bool,
) -> (Result<(), String>, Vec<String>, Vec<ServiceInstance>) {
    let mut m = DepsStart::new(services, target);
    let mut log = Vec::new();
    loop {
        match m.action() {
            StartAction::Stop(i) => {
                log.push(format!("stop {}", i));
                m.on_stopped(if stop_ok { Ok(()) } else { Err("denied".to_string()) });
            }
            StartAction::Probe(i) => {
                log.push(format!("probe {}", i));
                m.on_probed(probe);
            }
            StartAction::Start(i) => {
                log.push(format!("start {}", i));
                let ok = start_ok || i != m.target;
                m.on_started(if ok { Ok(100 + i as u32) } else { Err("exit 1".to_string()) });
            }
            StartAction::Finish(r) => return (r, log, m.services),
        }
    }
}

#[test]
fn nginx_stops_apache_then_starts_php() {
    let services = vec![
        svc(ServiceKind::Nginx, "1.15", false),
        svc(ServiceKind::Apache, "2.4", true),
        svc(ServiceKind::Php, "7.4", false),
        svc(ServiceKind::Php, "8.3", true),
    ];
    let (r, log, after) = run(services, 0, true, Some(ServiceStatus::Stopped), true);
    assert_eq!(r, Ok(()));
    assert_eq!(log, vec!["stop 1", "probe 1", "start 0", "start 2"]);
    assert!(after[0].status.is_running());
    assert!(!after[1].status.is_running());
    assert!(after[2].status.is_running());
}

#[test]
fn rival_that_will_not_stop_aborts() {
    let services = vec![svc(ServiceKind::Apache, "2.4", false), svc(ServiceKind::Nginx, "1.15", true)];
    let (r, log, _) = run(services.clone(), 0, false, None, true);
    assert_eq!(r, Err("无法停止 Nginx（占用端口 80）: denied".to_string()));
    assert_eq!(log, vec!["stop 1"]);
    let (r, _, _) = run(services, 0, true, Some(ServiceStatus::Running { pid: 9, memory_mb: None }), true);
    assert_eq!(
        r,
        Err("Nginx 停止后仍在运行（可能是以管理员身份启动的外部进程），已中止启动 Apache".to_string())
    );
}

#[test]
fn target_start_failure_is_reported() {
    let services = vec![svc(ServiceKind::Nginx, "1.15", false), svc(ServiceKind::Php, "8.3", false)];
    let (r, log, after) = run(services, 0, true, None, false);
    assert_eq!(r, Err("exit 1".to_string()));
    assert_eq!(log, vec!["start 0"]);
    assert_eq!(after[0].status, ServiceStatus::Starting);
}

#[test]
fn non_web_target_starts_alone() {
    let services = vec![svc(ServiceKind::Mysql, "8.0", false), svc(ServiceKind::Php, "8.3", false)];
    let (r, log, _) = run(services, 0, true, None, true);
    assert_eq!(r, Ok(()));
    assert_eq!(log, vec!["start 0"]);
    let running = vec![svc(ServiceKind::Redis, "5", true)];
    let (r, log, _) = run(running, 0, true, None, true);
    assert_eq!(r, Ok(()));
    assert!(log.is_empty());
}

#[test]
fn start_all_selection_and_reporting() {
    assert!(start_all_includes(ServiceKind::Nginx, "nginx"));
    assert!(!start_all_includes(ServiceKind::Apache, "nginx"));
    assert!(start_all_includes(ServiceKind::Apache, "apache"));
    assert!(start_all_includes(ServiceKind::Mysql, "nginx"));
    assert!(start_all_includes(ServiceKind::Php, ""));
    let a = failure_line(ServiceKind::Mysql, "8.0.40", true, "exit 1");
    assert_eq!(a, "MySQL 8.0.40 启动失败: exit 1");
    let b = failure_line(ServiceKind::Redis, "5.0", false, "denied");
    assert_eq!(b, "Redis 5.0 停止失败: denied");
    assert_eq!(batch_outcome(&vec![]), Ok(()));
    assert_eq!(batch_outcome(&vec![a, b]), Err("MySQL 8.0.40 启动失败: exit 1\nRedis 5.0 停止失败: denied".to_string()));
}

#[test]
fn single_start_and_stop_moves_through_states() {
    let mgr = ServiceManager::new();
    let mut s = svc_with(ServiceKind::Mysql, ServiceStatus::Stopped);
    assert!(mgr.start_service(&mut s));
    assert_eq!(s.status, ServiceStatus::Starting);
    assert_eq!(mgr.start_finished(&mut s, Ok(42)), Ok(()));
    assert_eq!(s.status, ServiceStatus::Running { pid: 42, memory_mb: None });
    assert!(!mgr.start_service(&mut s));
    assert!(mgr.stop_service(&mut s));
    assert_eq!(s.status, ServiceStatus::Stopping);
    assert_eq!(mgr.stop_finished(&mut s, Err("denied".to_string())), Err("denied".to_string()));
    assert_eq!(s.status, ServiceStatus::Stopping);
    assert_eq!(mgr.stop_finished(&mut s, Ok(())), Ok(()));
    assert_eq!(s.status, ServiceStatus::Stopped);
    assert!(!mgr.stop_service(&mut s));
    mgr.refresh_status(&mut s, ServiceStatus::Running { pid: 7, memory_mb: Some(12) });
    assert_eq!(s.status, ServiceStatus::Running { pid: 7, memory_mb: Some(12) });
}

#[test]
fn failed_start_stays_starting() {
    let mgr = ServiceManager::new();
    let mut s = svc_with(ServiceKind::Redis, ServiceStatus::Stopped);
    assert!(mgr.start_service(&mut s));
    assert_eq!(mgr.start_finished(&mut s, Err("no exe".to_string())), Err("no exe".to_string()));
    assert_eq!(s.status, ServiceStatus::Starting);
    assert_eq!(s.kind, ServiceKind::Redis);
}

#[test]
fn service_and_php_listings() {
    use_listings();
}

fn use_listings() {
    let s = naxone::service::ServiceInstance {
        kind: naxone::service::ServiceKind::Php,
        version: "8.4".to_string(),
        variant: Some("nts".to_string()),
        install_path: "D:\\php\\php84nts".to_string(),
        config_path: None,
        port: 9000,
        status: naxone::service::ServiceStatus::Stopped,
        auto_start: false,
        origin: naxone::service::ServiceOrigin::Store,
    };
    let info = naxone::service::ServiceInfo::of(&s, "php-8.4-nts".to_string());
    assert_eq!(info.display_name, "PHP 8.4");
    assert_eq!(info.origin, "store");
    assert_eq!(info.port, 9000);
    let php = naxone::service::PhpInstanceInfo::of(&s, "php-8.4-nts".to_string());
    assert_eq!(php.label, "PHP 8.4 nts");
    let mut bare = s;
    bare.variant = None;
    assert_eq!(naxone::service::PhpInstanceInfo::of(&bare, "x".to_string()).label, "PHP 8.4 ");
}
