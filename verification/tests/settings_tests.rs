use naxone::app_config::{AppConfig, ExtraInstallPath};
use naxone::service::ServiceKind;
use naxone::settings::{add_extra_install_path, apply_config_dto, config_dto, remove_extra_install_path};

#[test]
fn settings_round_trip() {
    let mut c = AppConfig::default_with_phpstudy("D:\\phpstudy_pro".to_string());
    let mut d = config_dto(&c);
    assert_eq!(d.phpstudy_path, "D:\\phpstudy_pro");
    assert_eq!(d.www_root, "D:\\phpstudy_pro\\WWW");
    assert_eq!(d.log_dir, "");
    assert_eq!(d.auto_start, vec!["nginx", "mysql"]);
    assert_eq!(d.mysql_port, 3306);
    d.phpstudy_path = String::new();
    d.log_dir = "E:\\logs".to_string();
    d.redis_port = 6380;
    d.stop_services_on_exit = true;
    apply_config_dto(&mut c, d);
    assert_eq!(c.general.phpstudy_path, None);
    assert_eq!(c.general.log_dir.as_deref(), Some("E:\\logs"));
    assert_eq!(c.redis.port, 6380);
    assert!(c.general.stop_services_on_exit);
    assert_eq!(c.general.data_dir, "D:\\phpstudy_pro");
}

#[test]
fn extra_paths() {
    let mut v: Vec<ExtraInstallPath> = Vec::new();
    assert_eq!(add_extra_install_path(&mut v, "Nginx", "C:\\nginx", true, None, 1700000000000), Ok(()));
    assert_eq!(v[0].id, "nginx-1700000000000");
    assert_eq!(v[0].kind, ServiceKind::Nginx);
    assert_eq!(
        add_extra_install_path(&mut v, "nginx", "C:\\nginx", true, None, 1),
        Err("该路径已存在".to_string())
    );
    assert_eq!(
        add_extra_install_path(&mut v, "httpd", "C:\\x", false, None, 1),
        Err("路径不存在: C:\\x".to_string())
    );
    assert_eq!(
        add_extra_install_path(&mut v, "iis", "C:\\x", true, None, 1),
        Err("未知服务类型: iis".to_string())
    );
    assert_eq!(add_extra_install_path(&mut v, "httpd", "C:\\nginx", true, Some("a".into()), -5), Ok(()));
    assert_eq!(v[1].id, "apache--5");
    assert_eq!(v.len(), 2);
    assert_eq!(remove_extra_install_path(&mut v, "nope"), Err("未找到该路径条目".to_string()));
    assert_eq!(remove_extra_install_path(&mut v, "nginx-1700000000000"), Ok(()));
    assert_eq!(v.len(), 1);
    assert_eq!(v[0].kind, ServiceKind::Apache);
}
