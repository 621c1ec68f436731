use naxone::install_flow::{install_step, InstallAction, InstallPhase, InstallStepEvent};
use naxone::installer::{AttemptOutcome, PackageVersion};

const HELLO_SHA: &str = "b94d27b9934d3e08a52e52d7da7dabfac484efe37a5380ee9088f7ace2efcde9";

fn nginx(url: &str, mirrors: &[&str], sha: Option<&str>) -> PackageVersion {
    PackageVersion {
        version: "1.26.2".to_string(),
        url: url.to_string(),
        download_urls: mirrors.iter().map(|s| s.to_string()).collect(),
        sha256: sha.map(|s| s.to_string()),
        size_mb: None,
        exe_rel: "nginx.exe".to_string(),
        variant: None,
    }
}

const ROOT: &str = "D:\\naxone\\packages";

#[test]
fn install_already_present_succeeds_at_once() {
    let v = nginx("https://a/x.zip", &[], None);
    let (ph, act) = install_step(ROOT, "nginx", &v, InstallPhase::Begin, InstallStepEvent::Start);
    assert_eq!(ph, InstallPhase::Check);
    match act {
        InstallAction::CheckExe(p) => assert_eq!(p, "D:\\naxone\\packages\\Nginx1.26.2\\nginx.exe"),
        _ => panic!("expected the executable check"),
    }
    let (ph, act) = install_step(ROOT, "nginx", &v, ph, InstallStepEvent::ExePresent(true));
    assert_eq!(ph, InstallPhase::Done);
    match act {
        InstallAction::Succeed(d) => assert_eq!(d, "D:\\naxone\\packages\\Nginx1.26.2"),
        _ => panic!("expected success"),
    }
}

#[test]
fn install_clears_an_incomplete_dir_then_tries_mirrors_in_order() {
    let v = nginx("", &["https://m1/x.zip", "https://m2/x.zip"], None);
    let (ph, _) = install_step(ROOT, "nginx", &v, InstallPhase::Begin, InstallStepEvent::Start);
    let (ph, act) = install_step(ROOT, "nginx", &v, ph, InstallStepEvent::ExePresent(false));
    assert_eq!(ph, InstallPhase::Probe);
    assert!(matches!(act, InstallAction::ProbeDir(_)));
    let (ph, act) = install_step(ROOT, "nginx", &v, ph, InstallStepEvent::DirPresent(true));
    assert_eq!(ph, InstallPhase::Clear);
    assert!(matches!(act, InstallAction::RemoveDir(_)));
    let (ph, act) = install_step(ROOT, "nginx", &v, ph, InstallStepEvent::Removed(Ok(())));
    assert_eq!(ph, InstallPhase::Stage);
    assert!(matches!(act, InstallAction::PrepareStaging));
    let (ph, act) = install_step(ROOT, "nginx", &v, ph, InstallStepEvent::Staged(Ok(())));
    assert_eq!(ph, InstallPhase::Fetch { attempt: 0 });
    assert!(matches!(act, InstallAction::Download(0)));
    let (ph, act) = install_step(ROOT, "nginx", &v, ph, InstallStepEvent::Fetched(AttemptOutcome::Failed("timeout".to_string())));
    assert_eq!(ph, InstallPhase::Fetch { attempt: 1 });
    assert!(matches!(act, InstallAction::Download(1)));
    let (ph, act) = install_step(
        ROOT,
        "nginx",
        &v,
        ph,
        InstallStepEvent::Fetched(AttemptOutcome::InvalidZip("下载文件不是有效 zip: bad".to_string())),
    );
    assert_eq!(ph, InstallPhase::Done);
    match act {
        InstallAction::Fail(m) => assert_eq!(m, "所有下载源均失败，最后一次错误: 下载文件不是有效 zip: bad（https://m2/x.zip）"),
        _ => panic!("expected a failure"),
    }
}

#[test]
fn install_checks_the_archive_digest_when_named() {
    let v = nginx("https://a/x.zip", &[], Some(HELLO_SHA));
    let (ph, act) = install_step(ROOT, "nginx", &v, InstallPhase::Fetch { attempt: 0 }, InstallStepEvent::Fetched(AttemptOutcome::Downloaded));
    assert_eq!(ph, InstallPhase::Verify);
    assert!(matches!(act, InstallAction::ReadArchive));
    let (ph2, act) = install_step(ROOT, "nginx", &v, ph, InstallStepEvent::Archive(b"hello world".to_vec()));
    assert_eq!(ph2, InstallPhase::Finalize);
    assert!(matches!(act, InstallAction::Finalize));
    let (ph3, act) = install_step(ROOT, "nginx", &v, ph, InstallStepEvent::Archive(b"other".to_vec()));
    assert_eq!(ph3, InstallPhase::Done);
    match act {
        InstallAction::Fail(m) => assert!(m.starts_with("SHA256 校验失败: 期望 b94d27")),
        _ => panic!("expected a failure"),
    }
    let (ph, act) = install_step(ROOT, "nginx", &v, InstallPhase::Finalize, InstallStepEvent::Finalized(Ok(())));
    assert_eq!(ph, InstallPhase::Done);
    assert!(matches!(act, InstallAction::Succeed(_)));
}

#[test]
fn install_failures_before_download() {
    let v = nginx("", &[], None);
    let (ph, act) = install_step(ROOT, "nginx", &v, InstallPhase::Clear, InstallStepEvent::Removed(Err("denied".to_string())));
    assert_eq!(ph, InstallPhase::Done);
    match act {
        InstallAction::Fail(m) => assert_eq!(m, "目标目录已存在且无法删除（可能服务正在运行）: D:\\naxone\\packages\\Nginx1.26.2 (denied)"),
        _ => panic!("expected a failure"),
    }
    let (_, act) = install_step(ROOT, "nginx", &v, InstallPhase::Stage, InstallStepEvent::Staged(Err("disk full".to_string())));
    match act {
        InstallAction::Fail(m) => assert_eq!(m, "创建 staging 目录失败: disk full"),
        _ => panic!("expected a failure"),
    }
    let (_, act) = install_step(ROOT, "nginx", &v, InstallPhase::Stage, InstallStepEvent::Staged(Ok(())));
    match act {
        InstallAction::Fail(m) => assert_eq!(m, "没有可用的下载 URL"),
        _ => panic!("expected a failure"),
    }
}
