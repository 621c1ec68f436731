use naxone::vhost::{VhostSource, VirtualHost};
use naxone::vhost_mgr::{Rollback, RollbackAction, VhostManager};
use naxone::service::{ServiceInstance, ServiceKind, ServiceOrigin, ServiceStatus};
use naxone::error::NaxOneError;

fn mk_vhost(id: &str, port: u16) -> VirtualHost {
    VirtualHost {
        id: id.to_string(),
        server_name: format!("{id}.test"),
        aliases: vec![],
        listen_port: port,
        document_root: "C:/www".into(),
        php_version: None,
        php_fastcgi_port: None,
        php_install_path: None,
        index_files: "index.php".into(),
        rewrite_rule: String::new(),
        autoindex: false,
        ssl: None,
        custom_directives: None,
        access_log: None,
        enabled: true,
        created_at: String::new(),
        expires_at: String::new(),
        sync_hosts: true,
        source: VhostSource::Custom,
    }
}

#[test]
fn port_80_is_always_ok() {
    assert!(VhostManager::check_port_conflict(80, &[], None, false).is_ok());
}

#[test]
fn port_owned_by_existing_vhost_is_ok() {
    let existing = vec![mk_vhost("a", 8080)];
    assert!(VhostManager::check_port_conflict(8080, &existing, None, false).is_ok());
}

#[test]
fn updating_self_on_same_port_is_ok() {
    let existing = vec![mk_vhost("a", 8080)];
    assert!(VhostManager::check_port_conflict(8080, &existing, Some("a"), false).is_ok());
    assert!(!VhostManager::needs_bind_probe(8080, &existing, None));
    assert!(!VhostManager::needs_bind_probe(8080, &existing, Some("a")));
}

#[test]
fn foreign_port_in_use_is_an_error() {
    match VhostManager::check_port_conflict(8081, &[mk_vhost("a", 8080)], None, false) {
        Err(NaxOneError::PortInUse { port, by }) => {
            assert_eq!(port, 8081);
            assert!(by.is_none());
        }
        _ => panic!("expected PortInUse"),
    }
    assert!(VhostManager::check_port_conflict(8081, &[], None, true).is_ok());
}

fn svc(kind: ServiceKind, running: bool) -> ServiceInstance {
    ServiceInstance {
        kind,
        version: "1".into(),
        variant: None,
        install_path: "p".into(),
        config_path: None,
        port: 80,
        status: if running { ServiceStatus::Running { pid: 7, memory_mb: None } } else { ServiceStatus::Stopped },
        auto_start: false,
        origin: ServiceOrigin::PhpStudy,
    }
}

#[test]
fn running_web_server_is_found() {
    let services = vec![svc(ServiceKind::Mysql, true), svc(ServiceKind::Nginx, false), svc(ServiceKind::Apache, true)];
    let found = VhostManager::find_running_web_server(&services).unwrap();
    assert_eq!(found.kind, ServiceKind::Apache);
    assert!(VhostManager::find_running_web_server(&services[..2]).is_none());
}

#[test]
fn listen_lines() {
    assert_eq!(VhostManager::with_listen_port(None, 8080), Some("Listen 80\nListen 8080\n".to_string()));
    assert_eq!(VhostManager::with_listen_port(Some("Listen 80\n  Listen 8080 \n"), 8080), None);
    assert_eq!(VhostManager::with_listen_port(Some("Listen 80\n\n\n"), 81), Some("Listen 80\nListen 81\n".to_string()));
    assert_eq!(VhostManager::without_listen_port("Listen 80\nListen 8080\nX\n", 8080), "Listen 80\nX");
    assert!(VhostManager::port_still_used(&[mk_vhost("a", 8080), mk_vhost("b", 8080)], "a", 8080));
    assert!(!VhostManager::port_still_used(&[mk_vhost("a", 8080)], "a", 8080));
}

#[test]
fn merge_keeps_metadata_and_saved_only() {
    let mut scanned_a = mk_vhost("a", 80);
    scanned_a.enabled = true;
    let scanned = vec![scanned_a, mk_vhost("b", 80)];
    let mut saved_a = mk_vhost("a", 9999);
    saved_a.created_at = "2024-01-01".into();
    saved_a.enabled = false;
    saved_a.source = VhostSource::PhpStudy;
    let saved = vec![saved_a, mk_vhost("c", 81)];
    let merged = VhostManager::merge_vhosts(scanned, saved);
    assert_eq!(merged.len(), 3);
    assert_eq!(merged[0].id, "a");
    assert_eq!(merged[0].listen_port, 80);
    assert_eq!(merged[0].created_at, "2024-01-01");
    assert!(!merged[0].enabled);
    assert!(matches!(merged[0].source, VhostSource::PhpStudy));
    assert_eq!(merged[1].id, "b");
    assert_eq!(merged[2].id, "c");
}

#[test]
fn rollback_runs_newest_first() {
    let mut rb = Rollback::new();
    rb.write_text("C:\\nginx\\vhosts\\a.conf", None);
    rb.write_text("C:\\apache\\Listen.conf", Some("Listen 80\n".to_string()));
    rb.add_hosts("a.test");
    let steps = rb.rollback();
    assert_eq!(steps.len(), 3);
    assert!(matches!(&steps[0], RollbackAction::RemoveHostsEntry { hostname } if hostname == "a.test"));
    assert!(matches!(&steps[1], RollbackAction::RestoreFile { path, original: Some(o) }
        if path == "C:\\apache\\Listen.conf" && o == "Listen 80\n"));
    assert!(matches!(&steps[2], RollbackAction::RestoreFile { path, original: None }
        if path == "C:\\nginx\\vhosts\\a.conf"));
}

#[test]
fn commit_drops_the_journal() {
    let mut rb = Rollback::new();
    rb.add_hosts("a.test");
    rb.add_hosts("www.a.test");
    assert_eq!(rb.commit(), 2);
    assert_eq!(Rollback::new().rollback().len(), 0);
}
