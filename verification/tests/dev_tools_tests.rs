use naxone::dev_tools::{
    composer_tool_info, mysql_not_running_message, none_found_message, version_not_found_message,
    active_composer, check_new_password, composer_shim, mysql_conflicts, mysql_tool_info,
    normalize_install, system_path_entries, ComposerOption, MysqlOption,
};

fn opt(version: &str, path: &str, source: &str) -> MysqlOption {
    MysqlOption {
        version: version.to_string(),
        install_path: path.to_string(),
        data_dir: format!("{}\\data", path),
        bin_dir: format!("{}\\bin", path),
        port: 3306,
        initialized: true,
        root_password: String::new(),
        source: source.to_string(),
    }
}

#[test]
fn install_key_form() {
    assert_eq!(normalize_install("C:/Tools/MySQL8//"), "c:\\tools\\mysql8");
    assert_eq!(normalize_install("D:\\A\\"), "d:\\a");
}

#[test]
fn mysql_info_dedupes_and_finds_active() {
    let found = vec![
        opt("8.0.40", "C:\\pkgs\\MySQL8.0.40", "store"),
        opt("8.0.40", "c:/pkgs/mysql8.0.40/", "phpstudy"),
        opt("5.7.26", "D:\\phpstudy\\MySQL5.7.26", "phpstudy"),
    ];
    let path = "C:\\Windows;d:\\phpstudy\\mysql5.7.26\\bin\\;C:\\Other";
    let with_mysqld = vec!["C:\\Old\\MySQL\\bin".to_string(), "D:\\phpstudy\\MySQL5.7.26\\bin".to_string()];
    let info = mysql_tool_info(found, path, &with_mysqld).unwrap();
    assert_eq!(info.available.len(), 2);
    assert_eq!(info.available[0].source, "store");
    assert_eq!(info.active_version.as_deref(), Some("5.7.26"));
    assert_eq!(info.conflicts, vec!["C:\\Old\\MySQL\\bin".to_string()]);
    assert!(mysql_tool_info(vec![], path, &with_mysqld).is_none());
}

#[test]
fn mysql_info_without_active() {
    let info = mysql_tool_info(vec![opt("8.0.40", "C:\\m", "store")], "", &vec!["C:\\x".to_string()]).unwrap();
    assert_eq!(info.active_version, None);
    assert_eq!(info.conflicts, vec!["C:\\x".to_string()]);
}

#[test]
fn path_entries_and_conflicts() {
    assert_eq!(system_path_entries(" C:\\a ;;C:\\b\\ ; "), vec!["C:\\a".to_string(), "C:\\b\\".to_string()]);
    let v = vec!["C:/MySQL/bin/".to_string(), "D:\\other".to_string()];
    assert_eq!(mysql_conflicts(&v, Some("c:\\mysql\\bin")), vec!["D:\\other".to_string()]);
    assert_eq!(mysql_conflicts(&v, None), v);
}

#[test]
fn composer_activity() {
    let opts = vec![
        ComposerOption { version: "2.7.1".into(), source: "system".into(), phar_path: "C:\\ProgramData\\Composer\\composer.phar".into() },
        ComposerOption { version: "2.8.4".into(), source: "store".into(), phar_path: "C:/pkgs/tools/composer-2.8.4/composer.phar".into() },
    ];
    let shim = "@echo off\r\n\"C:\\bin\\php.cmd\" \"C:\\PKGS\\tools\\composer-2.8.4\\composer.phar\" %*\r\n";
    assert_eq!(active_composer(&opts, Some(shim)), Some("2.8.4".to_string()));
    assert_eq!(active_composer(&opts, Some("nothing")), Some("2.7.1".to_string()));
    assert_eq!(active_composer(&opts, None), Some("2.7.1".to_string()));
    assert_eq!(active_composer(&vec![], None), None);
}

#[test]
fn composer_shim_text() {
    assert_eq!(
        composer_shim("C:\\bin\\php.cmd", "D:\\c.phar"),
        "@echo off\r\n\"C:\\bin\\php.cmd\" \"D:\\c.phar\" %*\r\n"
    );
}

#[test]
fn mysql_password_must_not_be_empty() {
    assert_eq!(check_new_password(""), Err("新密码不能为空".to_string()));
    assert_eq!(check_new_password("x"), Ok(()));
}

#[test]
fn composer_info_and_messages() {
    assert!(composer_tool_info(vec![], None).is_none());
    let info = composer_tool_info(
        vec![ComposerOption { version: "2.8.4".into(), source: "store".into(), phar_path: "C:\\c.phar".into() }],
        None,
    )
    .unwrap();
    assert_eq!(info.active_version.as_deref(), Some("2.8.4"));
    assert_eq!(none_found_message("MySQL"), "未找到任何 MySQL 安装");
    assert_eq!(version_not_found_message("Composer", "2.1"), "未找到 Composer v2.1");
    assert_eq!(mysql_not_running_message(3306), "MySQL 服务未运行（127.0.0.1:3306 未监听），请先在仪表盘启动它再修改密码");
}
