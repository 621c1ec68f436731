use naxone::pie::{humanize_pie_error, merge_search_page, packagist_page, pie_install_cmd, pie_outcome, PieExtensionInfo};

#[test]
fn pie_command_line() {
    let (prog, args) = pie_install_cmd("D:\\php\\php84", true, "C:\\app\\pie.phar", "xdebug/xdebug", "D:\\php\\php83\\");
    assert_eq!(prog, "D:\\php\\php84\\php.exe");
    assert_eq!(
        args,
        vec![
            "-c", "D:\\php\\php84\\php.ini",
            "-d", "extension_dir=D:\\php\\php84\\ext",
            "-d", "extension=openssl",
            "-d", "extension=curl",
            "-d", "extension=mbstring",
            "-d", "extension=fileinfo",
            "-d", "extension=zip",
            "-d", "extension=intl",
            "C:\\app\\pie.phar", "install", "xdebug/xdebug",
            "--with-php-path=D:\\php\\php83\\php.exe", "--no-interaction",
        ]
    );
    let (_, args) = pie_install_cmd("R", false, "p", "x/y", "T");
    assert_eq!(args[0], "-d");
    assert_eq!(args.len(), 19);
}

#[test]
fn pie_error_reading() {
    assert!(humanize_pie_error("... Could not find release by tag name 1.0 ...").unwrap().starts_with("❌ 该扩展作者未在"));
    assert!(humanize_pie_error("Windows archive with prebuilt extension for x was not attached on release").unwrap().contains("PHP 版本"));
    assert!(humanize_pie_error("Windows archive with prebuilt extension").is_none());
    assert!(humanize_pie_error("No package found: foo/bar").unwrap().contains("Packagist"));
    assert!(humanize_pie_error("Composer detected issues in your platform").unwrap().contains("平台依赖"));
    assert_eq!(pie_outcome(true, "exit code: 0", "  done\n"), Ok("done".to_string()));
    assert_eq!(
        pie_outcome(false, "exit code: 1", "boom\n"),
        Err("PIE install 失败 (exit code: 1):\nboom".to_string())
    );
    let e = pie_outcome(false, "exit code: 1", "No package found: a/b\n").unwrap_err();
    assert!(e.ends_with("\n\n──── 原始日志 ────\nNo package found: a/b"));
}

#[test]
fn packagist_pages_merge() {
    let mut all: Vec<PieExtensionInfo> = Vec::new();
    let page1 = r#"{"results":[{"name":"xdebug/xdebug","description":"Debugger"},{"name":"","description":"x"},{"name":"apcu/apcu"}]}"#;
    let page2 = r#"{"results":[{"name":"xdebug/xdebug","description":"again"},{"name":"redis/redis","description":"Redis"}]}"#;
    assert_eq!(merge_search_page(&mut all, page1), Ok(()));
    assert_eq!(merge_search_page(&mut all, page2), Ok(()));
    let names: Vec<(String, String)> = all.iter().map(|e| (e.name.clone(), e.description.clone())).collect();
    assert_eq!(
        names,
        vec![
            ("xdebug/xdebug".to_string(), "Debugger".to_string()),
            ("apcu/apcu".to_string(), String::new()),
            ("redis/redis".to_string(), "Redis".to_string()),
        ]
    );
    assert!(merge_search_page(&mut all, "not json").unwrap_err().starts_with("解析 Packagist 响应失败"));
    assert_eq!(all.len(), 3);
    assert_eq!(merge_search_page(&mut all, "{}"), Ok(()));
}

#[test]
fn packagist_page_applies_defaults() {
    let body = r#"{"results":[{"name":"a/b","description":"d"},{"name":"c/d"},{"description":7}]}"#;
    assert_eq!(
        packagist_page(body),
        Ok(vec![
            ("a/b".to_string(), "d".to_string()),
            ("c/d".to_string(), "".to_string()),
            ("".to_string(), "".to_string()),
        ])
    );
    assert_eq!(packagist_page(r#"{"total":0}"#), Ok(vec![]));
    assert!(packagist_page("not json").is_err());
}
