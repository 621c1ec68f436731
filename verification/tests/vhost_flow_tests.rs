use naxone::error::NaxOneError;
use naxone::vhost::{VhostSource, VirtualHost};
use naxone::vhost_flow::{delete_plan, update_cleanup, Cleanup, VhostAction, VhostEvent, VhostPhase, VhostWrite};
use naxone::vhost_mgr::RollbackAction;

fn mk_vhost(id: &str, port: u16) -> VirtualHost {
    VirtualHost {
        id: id.to_string(),
        server_name: format!("{id}.test"),
        aliases: vec![],
        listen_port: port,
        document_root: "C:\\www".into(),
        php_version: None,
        php_fastcgi_port: None,
        php_install_path: None,
        index_files: "index.php".into(),
        rewrite_rule: String::new(),
        autoindex: false,
        ssl: None,
        custom_directives: None,
        access_log: None,
        enabled: true,
        created_at: String::new(),
        expires_at: String::new(),
        sync_hosts: true,
        source: VhostSource::Custom,
    }
}

fn writer(v: VirtualHost, reload: bool) -> VhostWrite {
    VhostWrite::new(v, "D:\\ng".to_string(), "D:\\ap".to_string(), "D:\\ap\\Listen.conf".to_string(), reload)
}

fn write_path(a: &VhostAction) -> String {
    match a {
        VhostAction::Write { path, .. } => path.clone(),
        _ => panic!("expected a write"),
    }
}

#[test]
fn vhost_write_runs_every_step_and_undoes_on_reload_failure() {
    let mut v = mk_vhost("a", 8080);
    v.aliases = vec!["www.a.test".to_string(), String::new()];
    let mut w = writer(v, true);
    let a = w.step(VhostEvent::Start);
    assert_eq!(write_path(&a), "D:\\ng\\a.test_8080.conf");
    let a = w.step(VhostEvent::Wrote(None));
    assert_eq!(write_path(&a), "D:\\ap\\a.test_8080.conf");
    let a = w.step(VhostEvent::Wrote(Some("old".to_string())));
    assert!(matches!(&a, VhostAction::CheckExists(p) if p == "C:\\www\\nginx.htaccess"));
    let a = w.step(VhostEvent::Exists(false));
    assert!(matches!(&a, VhostAction::CheckExists(p) if p == "C:\\www\\.htaccess"));
    let a = w.step(VhostEvent::Exists(true));
    assert!(matches!(&a, VhostAction::Write { path, content } if path == "C:\\www\\.htaccess" && content.is_empty()));
    let a = w.step(VhostEvent::Wrote(Some("rules".to_string())));
    assert!(matches!(&a, VhostAction::ReadListen(p) if p == "D:\\ap\\Listen.conf"));
    let a = w.step(VhostEvent::ListenRead(Ok(None)));
    assert!(matches!(&a, VhostAction::Write { content, .. } if content == "Listen 80\nListen 8080\n"));
    let a = w.step(VhostEvent::Wrote(Some("Listen 80\n".to_string())));
    assert!(matches!(&a, VhostAction::AddHost(h) if h == "a.test"));
    let a = w.step(VhostEvent::HostAdded(Ok(())));
    assert!(matches!(&a, VhostAction::AddHost(h) if h == "www.a.test"));
    assert_eq!(w.phase, VhostPhase::AddAlias { i: 0 });
    let a = w.step(VhostEvent::HostAdded(Err(NaxOneError::Config("x".to_string()))));
    assert!(matches!(a, VhostAction::Reload));
    let a = w.step(VhostEvent::Reloaded(Err(NaxOneError::Process("boom".to_string()))));
    assert_eq!(w.phase, VhostPhase::Done);
    match a {
        VhostAction::Fail { undo, message } => {
            assert_eq!(message, "Process error: boom");
            assert_eq!(undo.len(), 5);
            assert!(matches!(&undo[0], RollbackAction::RemoveHostsEntry { hostname } if hostname == "a.test"));
            assert!(matches!(&undo[1], RollbackAction::RestoreFile { path, original: Some(o) } if path == "D:\\ap\\Listen.conf" && o == "Listen 80\n"));
            assert!(matches!(&undo[2], RollbackAction::RestoreFile { path, original: Some(o) } if path == "C:\\www\\.htaccess" && o == "rules"));
            assert!(matches!(&undo[3], RollbackAction::RestoreFile { path, original: Some(o) } if path == "D:\\ap\\a.test_8080.conf" && o == "old"));
            assert!(matches!(&undo[4], RollbackAction::RestoreFile { path, original: None } if path == "D:\\ng\\a.test_8080.conf"));
        }
        _ => panic!("expected a failure"),
    }
}

#[test]
fn vhost_write_commits_without_reload() {
    let mut v = mk_vhost("b", 80);
    v.rewrite_rule = "location / { }".to_string();
    v.sync_hosts = false;
    let mut w = writer(v, false);
    w.step(VhostEvent::Start);
    w.step(VhostEvent::Wrote(None));
    let a = w.step(VhostEvent::Wrote(None));
    assert!(matches!(&a, VhostAction::Write { path, content } if path == "C:\\www\\nginx.htaccess" && content == "location / { }"));
    let a = w.step(VhostEvent::Wrote(None));
    assert_eq!(write_path(&a), "C:\\www\\.htaccess");
    let a = w.step(VhostEvent::Wrote(None));
    assert!(matches!(a, VhostAction::Commit));
    assert_eq!(w.phase, VhostPhase::Done);
}

#[test]
fn vhost_write_failures() {
    let mut bad = mk_vhost("c", 80);
    bad.server_name = String::new();
    let mut w = writer(bad, false);
    match w.step(VhostEvent::Start) {
        VhostAction::Fail { undo, message } => {
            assert!(undo.is_empty());
            assert!(message.starts_with("Template error: "));
        }
        _ => panic!("expected a failure"),
    }
    let mut w = writer(mk_vhost("d", 80), false);
    w.step(VhostEvent::Start);
    w.step(VhostEvent::Wrote(None));
    w.step(VhostEvent::Wrote(None));
    w.step(VhostEvent::Exists(false));
    let a = w.step(VhostEvent::Exists(false));
    assert!(matches!(&a, VhostAction::AddHost(h) if h == "d.test"));
    match w.step(VhostEvent::HostAdded(Err(NaxOneError::PermissionDenied("hosts".to_string())))) {
        VhostAction::Fail { undo, message } => {
            assert_eq!(undo.len(), 2);
            assert_eq!(message, "Config error: hosts 文件写入失败（请以管理员身份运行 RustStudy）: 需要管理员权限: hosts");
        }
        _ => panic!("expected a failure"),
    }
}

#[test]
fn update_and_delete_plans() {
    let mut old = mk_vhost("e", 8081);
    old.aliases = vec!["www.e.test".to_string()];
    let new = mk_vhost("e2", 8082);
    let mut old_copy = mk_vhost("e", 8081);
    old_copy.aliases = vec!["www.e.test".to_string()];
    let others = vec![old_copy, mk_vhost("e2", 8082)];
    let plan = update_cleanup(&old, &new, &others, "D:\\ng", "D:\\ap");
    assert_eq!(plan.len(), 5);
    assert!(matches!(&plan[0], Cleanup::DeleteFile(p) if p == "D:\\ng\\e.test_8081.conf"));
    assert!(matches!(&plan[1], Cleanup::DeleteFile(p) if p == "D:\\ap\\e.test_8081.conf"));
    assert!(matches!(&plan[2], Cleanup::RemoveHost(h) if h == "e.test"));
    assert!(matches!(&plan[3], Cleanup::RemoveHost(h) if h == "www.e.test"));
    assert!(matches!(&plan[4], Cleanup::RemoveListen(8081)));
    assert!(update_cleanup(&old, &mk_vhost("e", 8081), &others, "D:\\ng", "D:\\ap").is_empty());
    let plan = delete_plan(&new, &others, "D:\\ng", "D:\\ap");
    assert_eq!(plan.len(), 4);
    assert!(matches!(&plan[2], Cleanup::RemoveListen(8082)));
    assert!(matches!(&plan[3], Cleanup::RemoveHost(h) if h == "e2.test"));
}
