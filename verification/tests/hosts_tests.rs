use naxone::hosts::{bom_keeping_script, copy_script, elevated_powershell_args, elevated_save_error, 
    classify_netsh_err, elevation_error, firewall_rule_name, hosts_after_changes, hosts_bytes,
    map_hosts_error, netsh_no_rule, normalize_hosts_text, strip_bom, LinuxPlatform, WindowsPlatform,
};
use naxone::error::NaxOneError;

#[test]
fn bom_round_trip() {
    let (rest, had) = strip_bom(&[0xEF, 0xBB, 0xBF, b'a']);
    assert!(had);
    assert_eq!(rest, vec![b'a']);
    let (rest2, had2) = strip_bom(b"ab");
    assert!(!had2);
    assert_eq!(rest2, b"ab".to_vec());
    assert_eq!(hosts_bytes(b"a", true), vec![0xEF, 0xBB, 0xBF, b'a']);
    assert_eq!(hosts_bytes(b"a", false), vec![b'a']);
}

#[test]
fn normalize_and_errors() {
    assert_eq!(normalize_hosts_text("a\r\nb\r\n"), "a\nb\n");
    assert_eq!(map_hosts_error(NaxOneError::PermissionDenied("x".into())), "PERMISSION_DENIED: x");
    assert_eq!(map_hosts_error(NaxOneError::FileLocked("y".into())), "FILE_LOCKED: y");
    assert_eq!(map_hosts_error(NaxOneError::Config("z".into())), "Config error: z");
}

#[test]
fn hosts_changes() {
    let content = "# comment\n127.0.0.1 old.test www.old.test\n127.0.0.1 keep.test\n\n";
    let out = hosts_after_changes(
        content,
        &vec![("new.test".to_string(), "127.0.0.1".to_string()), ("keep.test".to_string(), "127.0.0.1".to_string())],
        &vec!["www.old.test".to_string()],
    );
    assert_eq!(out, "# comment\n127.0.0.1 keep.test\n\n127.0.0.1 new.test\n");
    let unchanged = hosts_after_changes("a\n\n\n", &vec![], &vec![]);
    assert_eq!(unchanged, "a\n");
}

#[test]
fn failure_messages() {
    match elevation_error("The operation was canceled by the user.") {
        NaxOneError::PermissionDenied(m) => assert_eq!(m, "已取消（未确认管理员权限）"),
        _ => panic!(),
    }
    match elevation_error("boom") {
        NaxOneError::PermissionDenied(m) => assert_eq!(m, "提权写 hosts 失败: boom"),
        _ => panic!(),
    }
    match classify_netsh_err("The requested operation requires ELEVATION.") {
        NaxOneError::PermissionDenied(m) => assert!(m.starts_with("修改防火墙需要以管理员身份运行 NaxOne: ")),
        _ => panic!(),
    }
    match classify_netsh_err("oops") {
        NaxOneError::Process(m) => assert_eq!(m, "netsh 执行失败: oops"),
        _ => panic!(),
    }
    assert!(netsh_no_rule("No rules match the specified criteria."));
    assert!(!netsh_no_rule("error"));
    assert_eq!(firewall_rule_name(8080), "NaxOne port 8080");
}

#[test]
fn platforms() {
    assert_eq!(WindowsPlatform::hosts_file_path(), r"C:\Windows\System32\drivers\etc\hosts");
    assert_eq!(LinuxPlatform::hosts_file_path(), "/etc/hosts");
    assert!(LinuxPlatform::apply_hosts_changes(&vec![], &vec![]).is_ok());
    match LinuxPlatform::apply_hosts_changes(&vec![], &vec!["a".to_string()]) {
        Err(NaxOneError::Process(m)) => assert_eq!(m, "Linux support not yet implemented"),
        _ => panic!(),
    }
}

#[test]
fn elevated_write_scripts() {
    assert_eq!(
        copy_script("C:\\Temp\\a\"b.txt", "C:\\Windows\\System32\\drivers\\etc\\hosts"),
        "$ErrorActionPreference = 'Stop'\nCopy-Item -LiteralPath \"C:\\Temp\\a``\"b.txt\" -Destination \"C:\\Windows\\System32\\drivers\\etc\\hosts\" -Force\n"
    );
    let s = bom_keeping_script("s", "d");
    assert!(s.starts_with("$ErrorActionPreference = 'Stop'\n$src = \"s\"\n$dst = \"d\"\n"));
    assert!(s.ends_with("[Text.UTF8Encoding]::new($false))\n}\n"));
    let args = elevated_powershell_args("C:\\t\\x.ps1");
    assert_eq!(args.len(), 6);
    assert_eq!(args[4], "-Command");
    assert_eq!(
        args[5],
        "Start-Process powershell -Verb RunAs -Wait -WindowStyle Hidden -ArgumentList '-NoProfile','-ExecutionPolicy','Bypass','-File','C:\\t\\x.ps1'"
    );
    assert_eq!(elevated_save_error("The operation was canceled by the user."), "已取消（未确认管理员权限）");
    assert_eq!(elevated_save_error("boom"), "提权保存失败: boom");
}
