use naxone::installer::{
    check_download_response, download_verdict, php_ini_template, should_emit_progress,
    to_hex_lower, unwrap_single_subdir, validate_zip, verify_sha256, AttemptOutcome, PackageVersion,
    PhpIniTemplate,
};
use naxone::scanner::DirEntryInfo;

const HELLO_SHA: &str = "b94d27b9934d3e08a52e52d7da7dabfac484efe37a5380ee9088f7ace2efcde9";

fn version(url: &str, mirrors: &[&str]) -> PackageVersion {
    PackageVersion {
        version: "1.26.2".to_string(),
        url: url.to_string(),
        download_urls: mirrors.iter().map(|s| s.to_string()).collect(),
        sha256: None,
        size_mb: None,
        exe_rel: "nginx.exe".to_string(),
        variant: None,
    }
}

fn entry(name: &str, is_dir: bool) -> DirEntryInfo {
    DirEntryInfo {
        name: name.to_string(),
        path: format!("root/{}", name),
        is_dir,
        present: vec![],
    }
}

#[test]
fn candidate_urls_prefers_mirror_list() {
    let v = version("http://main/x.zip", &["http://m1/x.zip", "http://m2/x.zip"]);
    assert_eq!(v.candidate_urls(), vec!["http://m1/x.zip", "http://m2/x.zip"]);
}

#[test]
fn candidate_urls_falls_back_to_single_url() {
    let v = version("http://main/x.zip", &[]);
    assert_eq!(v.candidate_urls(), vec!["http://main/x.zip"]);
    let none = version("", &[]);
    assert!(none.candidate_urls().is_empty());
}

#[test]
fn hex_is_lowercase_two_digits_per_byte() {
    assert_eq!(to_hex_lower(&[10, 20, 30, 0, 255]), "0a141e00ff");
    assert_eq!(to_hex_lower(&[]), "");
}

#[test]
fn sha256_accepts_matching_digest_in_any_case() {
    assert_eq!(verify_sha256(b"hello world", HELLO_SHA), Ok(()));
    assert_eq!(verify_sha256(b"hello world", &HELLO_SHA.to_uppercase()), Ok(()));
}

#[test]
fn sha256_rejects_other_digest() {
    let err = verify_sha256(b"hello world!", HELLO_SHA).unwrap_err();
    assert!(err.starts_with("SHA256 校验失败: 期望 b94d27"));
    assert!(err.contains(", 实际 7509e5bda0c762d2bac7f90d758b5b2263fa01ccbc542ab5e3df163be08e6ca9"));
}

#[test]
fn download_response_checks() {
    assert_eq!(check_download_response(200, Some("application/zip".into()), "u"), Ok(()));
    assert_eq!(
        check_download_response(404, None, "http://x"),
        Err("HTTP 404: http://x (content-type: <unknown>)".to_string())
    );
    assert_eq!(
        check_download_response(200, Some("Text/HTML; charset=utf-8".into()), "http://x"),
        Err("下载响应为 HTML（疑似拦截页/错误页），非安装包: http://x".to_string())
    );
    assert_eq!(check_download_response(204, None, "u"), Ok(()));
}

#[test]
fn progress_emission_thresholds() {
    assert!(!should_emit_progress(1000, 0, 10));
    assert!(should_emit_progress(262144, 0, 0));
    assert!(should_emit_progress(5, 0, 300));
    assert!(!should_emit_progress(262143, 0, 299));
}

#[test]
fn download_verdict_picks_first_success() {
    let urls = vec!["a".to_string(), "b".to_string(), "c".to_string()];
    let outcomes = vec![AttemptOutcome::Failed("timeout".into()), AttemptOutcome::Downloaded];
    assert_eq!(download_verdict(&urls, &outcomes), Ok(1));
}

#[test]
fn download_verdict_reports_last_error() {
    let urls = vec!["a".to_string(), "b".to_string()];
    let outcomes = vec![
        AttemptOutcome::Failed("timeout".into()),
        AttemptOutcome::InvalidZip("下载文件不是有效 zip".into()),
    ];
    assert_eq!(
        download_verdict(&urls, &outcomes),
        Err("所有下载源均失败，最后一次错误: 下载文件不是有效 zip（b）".to_string())
    );
    assert_eq!(
        download_verdict(&vec![], &vec![]),
        Err("没有可用的下载 URL".to_string())
    );
}

#[test]
fn unwrap_detects_single_subdir() {
    let entries = vec![entry("nginx-1.26.2", true)];
    assert_eq!(unwrap_single_subdir(&entries), Some("root/nginx-1.26.2".to_string()));
}

#[test]
fn unwrap_returns_none_when_files_present() {
    let entries = vec![entry("redis-server.exe", false), entry("dir", true)];
    assert_eq!(unwrap_single_subdir(&entries), None);
}

#[test]
fn unwrap_returns_none_when_multiple_subdirs() {
    let entries = vec![entry("a", true), entry("b", true)];
    assert_eq!(unwrap_single_subdir(&entries), None);
    assert_eq!(unwrap_single_subdir(&vec![]), None);
}

#[test]
fn php_ini_template_order() {
    assert!(php_ini_template(true, true, true).is_none());
    assert!(matches!(php_ini_template(false, true, true), Some(PhpIniTemplate::Production)));
    assert!(matches!(php_ini_template(false, false, true), Some(PhpIniTemplate::Development)));
    assert!(php_ini_template(false, false, false).is_none());
}

#[test]
fn empty_zip_archive_is_accepted() {
    let mut data = vec![0x50u8, 0x4b, 0x05, 0x06];
    data.extend_from_slice(&[0u8; 18]);
    assert_eq!(validate_zip(&data), Ok(()));
}

#[test]
fn html_page_is_not_a_zip() {
    let r = validate_zip(b"<html>502 Bad Gateway</html>");
    let m = r.expect_err("not a zip");
    assert!(m.starts_with("下载文件不是有效 zip: "));
    assert!(m.len() > "下载文件不是有效 zip: ".len());
}
