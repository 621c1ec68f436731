use naxone::cache::{DiskCache, PACKAGE_CACHE_TTL_SECS};
use naxone::service::{ServiceInstance, ServiceKind, ServiceOrigin, ServiceStatus};
use naxone::system_scan::{
    classify_service, extract_exe_path, install_root, is_managed_root, qc_exe_path, running_services,
    SystemScanner,
};

#[test]
fn service_names_classified() {
    assert_eq!(classify_service("MySQL80"), Some(ServiceKind::Mysql));
    assert_eq!(classify_service("MariaDB"), Some(ServiceKind::Mysql));
    assert_eq!(classify_service("Apache2.4"), Some(ServiceKind::Apache));
    assert_eq!(classify_service("Redis"), Some(ServiceKind::Redis));
    assert_eq!(classify_service("nginx-service"), Some(ServiceKind::Nginx));
    assert_eq!(classify_service("Spooler"), None);
}

#[test]
fn sc_query_running_services() {
    let out = "SERVICE_NAME: MySQL80\r\nDISPLAY_NAME: MySQL80\r\n        STATE              : 4  RUNNING\r\n\r\nSERVICE_NAME: Redis\r\n        STATE              : 1  STOPPED\r\nSERVICE_NAME: Spooler\r\n        STATE              : 4  RUNNING\r\nSERVICE_NAME: Apache2.4\r\n        STATE              : 4  RUNNING\r\n";
    let found = running_services(out);
    assert_eq!(found, vec![("MySQL80".to_string(), ServiceKind::Mysql), ("Apache2.4".to_string(), ServiceKind::Apache)]);
    assert!(running_services("").is_empty());
}

#[test]
fn exe_path_and_root() {
    let quoted = "        BINARY_PATH_NAME   : \"C:\\Program Files\\MySQL\\bin\\mysqld.exe\" --defaults-file=x MySQL80";
    assert_eq!(extract_exe_path(quoted), Some("C:\\Program Files\\MySQL\\bin\\mysqld.exe".to_string()));
    let bare = "BINARY_PATH_NAME   : C:\\nginx\\nginx.exe -p x";
    assert_eq!(extract_exe_path(bare), Some("C:\\nginx\\nginx.exe".to_string()));
    assert_eq!(extract_exe_path("TYPE : 10"), None);
    assert_eq!(install_root("C:\\Program Files\\MySQL\\bin\\mysqld.exe", ServiceKind::Mysql), "C:\\Program Files\\MySQL");
    assert_eq!(install_root("C:\\nginx\\nginx.exe", ServiceKind::Nginx), "C:\\nginx");
    assert_eq!(install_root("C:\\redis.exe", ServiceKind::Redis), "C:\\");
    assert!(is_managed_root("D:\\phpstudy_pro\\Extensions\\MySQL5.7.26"));
    assert!(is_managed_root("C:\\Users\\u\\AppData\\Roaming\\RustStudy\\Packages\\redis"));
    assert!(!is_managed_root("C:\\Program Files\\MySQL"));
}

#[test]
fn cache_freshness() {
    let c = DiskCache::new("c.json".to_string(), PACKAGE_CACHE_TTL_SECS);
    assert!(c.is_fresh(Some((60, 0))));
    assert!(c.is_fresh(Some((21600, 0))));
    assert!(!c.is_fresh(Some((21600, 1))));
    assert!(!c.is_fresh(None));
}

fn inst(kind: ServiceKind, path: &str) -> ServiceInstance {
    ServiceInstance {
        kind,
        version: "1".into(),
        variant: None,
        install_path: path.into(),
        config_path: None,
        port: 80,
        status: ServiceStatus::Stopped,
        auto_start: false,
        origin: ServiceOrigin::System,
    }
}

#[test]
fn system_scanner_keeps_each_install_once() {
    let found = vec![
        inst(ServiceKind::Mysql, "C:\\mysql"),
        inst(ServiceKind::Redis, "C:\\redis"),
        inst(ServiceKind::Mysql, "C:\\mysql"),
        inst(ServiceKind::Nginx, "C:\\mysql"),
    ];
    let out = SystemScanner::scan(found);
    let pairs: Vec<(ServiceKind, String)> = out.iter().map(|s| (s.kind, s.install_path.clone())).collect();
    assert_eq!(
        pairs,
        vec![
            (ServiceKind::Mysql, "C:\\mysql".to_string()),
            (ServiceKind::Redis, "C:\\redis".to_string()),
            (ServiceKind::Nginx, "C:\\mysql".to_string()),
        ]
    );
}

#[test]
fn qc_output_gives_the_binary() {
    let out = "[SC] QueryServiceConfig SUCCESS\r\n\r\nSERVICE_NAME: MySQL80\r\n        TYPE               : 10  WIN32_OWN_PROCESS\r\n        BINARY_PATH_NAME   : \"C:\\Program Files\\MySQL\\bin\\mysqld.exe\" --defaults-file=x\r\n";
    assert_eq!(qc_exe_path(out), Some("C:\\Program Files\\MySQL\\bin\\mysqld.exe".to_string()));
    assert_eq!(qc_exe_path("[SC] OpenService FAILED 1060"), None);
}

#[test]
fn system_installs_from_running_services() {
    let query = "SERVICE_NAME: MySQL80\r\n        STATE              : 4  RUNNING\r\nSERVICE_NAME: Redis\r\n        STATE              : 1  STOPPED\r\nSERVICE_NAME: nginx-svc\r\n        STATE              : 4  RUNNING\r\nSERVICE_NAME: Apache2.4\r\n        STATE              : 4  RUNNING\r\n";
    let qcs = vec![
        "        BINARY_PATH_NAME   : \"C:\\Program Files\\MySQL\\bin\\mysqld.exe\" --defaults-file=x\r\n".to_string(),
        "        BINARY_PATH_NAME   : D:\\phpstudy_pro\\Extensions\\Nginx1.15\\nginx.exe\r\n".to_string(),
    ];
    let found = SystemScanner::installs(query, &qcs);
    assert_eq!(found, vec![(ServiceKind::Mysql, "C:\\Program Files\\MySQL".to_string())]);
    let qcs2 = vec![
        "        BINARY_PATH_NAME   : C:\\srv\\mysql\\bin\\mysqld.exe\r\n".to_string(),
        "        BINARY_PATH_NAME   : C:\\srv\\nginx\\nginx.exe\r\n".to_string(),
        "        BINARY_PATH_NAME   : \"C:\\Apache24\\bin\\httpd.exe\" -k runservice\r\n".to_string(),
    ];
    assert_eq!(
        SystemScanner::installs(query, &qcs2),
        vec![
            (ServiceKind::Mysql, "C:\\srv\\mysql".to_string()),
            (ServiceKind::Nginx, "C:\\srv\\nginx".to_string()),
            (ServiceKind::Apache, "C:\\Apache24".to_string()),
        ]
    );
    assert!(SystemScanner::installs("", &Vec::new()).is_empty());
}
