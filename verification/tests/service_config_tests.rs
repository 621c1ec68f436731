use naxone::service::{ServiceInstance, ServiceKind, ServiceOrigin, ServiceStatus};
use naxone::service_config::{editable_config_path, find_service_config_path, get_config_file_path};

fn svc(kind: ServiceKind, install: &str, config: Option<&str>) -> ServiceInstance {
    ServiceInstance {
        kind,
        version: "1".into(),
        variant: None,
        install_path: install.into(),
        config_path: config.map(|c| c.to_string()),
        port: 80,
        status: ServiceStatus::Stopped,
        auto_start: false,
        origin: ServiceOrigin::PhpStudy,
    }
}

#[test]
fn config_path_defaults_by_kind() {
    let services = vec![
        svc(ServiceKind::Php, "D:\\php", None),
        svc(ServiceKind::Nginx, "D:\\nginx", None),
        svc(ServiceKind::Nginx, "E:\\nginx", Some("E:\\other.conf")),
        svc(ServiceKind::Mysql, "D:\\mysql", None),
        svc(ServiceKind::Redis, "D:\\redis", Some("D:\\redis\\r.conf")),
    ];
    assert_eq!(find_service_config_path(&services, ServiceKind::Nginx), Some("D:\\nginx\\conf\\nginx.conf".to_string()));
    assert_eq!(find_service_config_path(&services, ServiceKind::Mysql), Some("D:\\mysql\\my.ini".to_string()));
    assert_eq!(find_service_config_path(&services, ServiceKind::Redis), Some("D:\\redis\\r.conf".to_string()));
    assert_eq!(find_service_config_path(&services, ServiceKind::Php), None);
    assert_eq!(find_service_config_path(&services, ServiceKind::Apache), None);
}

#[test]
fn config_file_path_errors() {
    let services = vec![svc(ServiceKind::Nginx, "D:\\nginx", None)];
    assert_eq!(get_config_file_path("nginx", &services), Ok("D:\\nginx\\conf\\nginx.conf".to_string()));
    assert_eq!(get_config_file_path("apache", &services), Err("Unknown service: apache".to_string()));
    assert_eq!(get_config_file_path("redis", &services), Err("redis config not found".to_string()));
    assert_eq!(editable_config_path(&services, ServiceKind::Mysql), Err("MySQL not found".to_string()));
    assert_eq!(
        editable_config_path(&[svc(ServiceKind::Redis, "C:\\r", None)], ServiceKind::Redis),
        Ok("C:\\r\\redis.windows.conf".to_string())
    );
}
