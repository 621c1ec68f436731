use naxone::global_php::{
    active_php_dir, expand_env_vars, masking_candidates, masking_fix_args, masking_fix_outcome,
    masking_fix_script, shim_names, shim_writes,
};
use naxone::paths::{appended_path, path_contains, path_without};

fn env(pairs: &[(&str, &str)]) -> Vec<(String, String)> {
    pairs.iter().map(|(k, v)| (k.to_string(), v.to_string())).collect()
}

#[test]
fn expand_env_vars_replaces_known() {
    let vars = env(&[("RS_TEST_VAR", "C:\\x"), ("RS_TEST_VAR2", "D:")]);
    assert_eq!(expand_env_vars("%RS_TEST_VAR%\\bin", &vars), "C:\\x\\bin");
    assert_eq!(expand_env_vars("%NO_SUCH_VAR%\\a", &vars), "%NO_SUCH_VAR%\\a");
    assert_eq!(expand_env_vars("%RS_TEST_VAR2%\\foo\\%RS_TEST_VAR%", &vars), "D:\\foo\\C:\\x");
}

#[test]
fn expand_env_vars_ignores_case_and_keeps_odd_percents() {
    let vars = env(&[("SystemRoot", "C:\\Windows")]);
    assert_eq!(expand_env_vars("%SYSTEMROOT%\\System32", &vars), "C:\\Windows\\System32");
    assert_eq!(expand_env_vars("100%", &vars), "100%");
    assert_eq!(expand_env_vars("%%systemroot%", &vars), "%C:\\Windows");
    assert_eq!(expand_env_vars("", &vars), "");
}

#[test]
fn masking_candidates_skip_blank_and_own_bin() {
    let vars = env(&[("ROOT", "D:\\phpstudy_pro")]);
    let system = " C:\\Windows ;;%ROOT%\\Extensions\\php\\php84nts;C:/Users/u/.naxone/bin\\;";
    let got = masking_candidates(system, "C:\\Users\\u\\.naxone\\bin", &vars);
    assert_eq!(got, vec!["C:\\Windows", "D:\\phpstudy_pro\\Extensions\\php\\php84nts"]);
}

#[test]
fn masking_fix_script_lists_quoted_dirs() {
    assert_eq!(masking_fix_script(&[]), None);
    let dirs = vec!["D:\\php84".to_string(), "E:\\it's".to_string()];
    let s = masking_fix_script(&dirs).unwrap();
    assert!(s.starts_with("$ErrorActionPreference = 'Stop'\n"));
    assert!(s.contains("$toRemove = @('D:\\php84', 'E:\\it''s')\n"));
    assert!(s.ends_with("| Out-Null\n"));
}

#[test]
fn masking_fix_launch_and_outcome() {
    let args = masking_fix_args("C:\\Temp\\o'k.ps1");
    assert_eq!(args.len(), 6);
    assert_eq!(args[4], "-Command");
    assert!(args[5].ends_with("'-File','C:\\Temp\\o''k.ps1'"));
    assert_eq!(masking_fix_outcome(true, "", ""), Ok(()));
    assert_eq!(
        masking_fix_outcome(false, " The operation was canceled by the user. ", ""),
        Err("已取消（未确认管理员权限）".to_string())
    );
    assert_eq!(masking_fix_outcome(false, " out ", " boom "), Err("修复失败: outboom".to_string()));
}

#[test]
fn shims_for_present_sources() {
    assert_eq!(shim_names(), vec!["php.cmd", "php-cgi.cmd", "phpize.cmd"]);
    let w = shim_writes("D:\\php\\php84", &[true, false, true]);
    assert_eq!(
        w,
        vec![
            ("php.cmd".to_string(), "@echo off\r\n\"D:\\php\\php84\\php.exe\" %*\r\n".to_string()),
            ("phpize.cmd".to_string(), "@echo off\r\n\"D:\\php\\php84\\phpize.bat\" %*\r\n".to_string()),
        ]
    );
}

#[test]
fn active_dir_read_back_from_shim() {
    assert_eq!(
        active_php_dir("@echo off\r\n\"C:\\php\\php855nts\\php.exe\" %*\r\n"),
        Some("C:\\php\\php855nts".to_string())
    );
    assert_eq!(active_php_dir("@echo off\r\nphp.exe %*"), None);
    assert_eq!(active_php_dir("\"\" %*"), None);
}

#[test]
fn appended_then_contained_removed_then_absent() {
    let p = appended_path("C:\\a;", "C:\\bin").unwrap();
    assert_eq!(p, "C:\\a;C:\\bin");
    assert!(path_contains(&p, "c:\\BIN\\"));
    assert_eq!(appended_path(&p, "C:/bin"), None);
    let q = path_without(&p, "c:\\bin").unwrap();
    assert_eq!(q, "C:\\a");
    assert!(!path_contains(&q, "C:\\bin"));
}
