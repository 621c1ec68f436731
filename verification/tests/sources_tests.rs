use naxone::sources::{branch_version, mirror_versions, release_versions, MirrorEntry, PhpBranch, ZipInfo};

fn entry(v: &str, urls: &[&str], size: Option<u64>) -> MirrorEntry {
    MirrorEntry {
        version: v.to_string(),
        variant: Some("x64-NTS vs17".to_string()),
        size_bytes: size,
        sha256: Some("ab".to_string()),
        exe_rel: "php-cgi.exe".to_string(),
        download_urls: urls.iter().map(|u| u.to_string()).collect(),
    }
}

fn zip(path: &str) -> Option<Option<ZipInfo>> {
    Some(Some(ZipInfo { path: path.to_string(), size_mb: Some(31), sha256: Some("cd".to_string()) }))
}

fn branch(key: &str, version: Option<&str>, vs17: Option<Option<ZipInfo>>, vs16: Option<Option<ZipInfo>>) -> PhpBranch {
    PhpBranch { key: key.to_string(), version: version.map(|v| v.to_string()), nts_vs17_x64: vs17, nts_vs16_x64: vs16, nts_vc15_x64: None }
}

#[test]
fn mirror_entries_become_versions() {
    let v = mirror_versions(vec![
        entry("8.5.5", &["https://a/x.zip", "https://b/x.zip"], Some(35380502)),
        entry("8.4.0", &[], None),
        entry("8.3.1", &["https://c/y.zip"], None),
    ]);
    assert_eq!(v.len(), 2);
    assert_eq!(v[0].url, "https://a/x.zip");
    assert_eq!(v[0].download_urls.len(), 2);
    assert_eq!(v[0].size_mb, Some(33));
    assert_eq!(v[1].version, "8.3.1");
    assert_eq!(v[1].size_mb, None);
}

#[test]
fn release_branches() {
    let b = branch_version(branch("8.3", Some("8.3.30"), None, zip("php-8.3.30-nts-Win32-vs16-x64.zip"))).unwrap();
    assert_eq!(b.url, "https://windows.php.net/downloads/releases/php-8.3.30-nts-Win32-vs16-x64.zip");
    assert_eq!(b.variant.as_deref(), Some("x64-NTS · vs16"));
    assert_eq!(b.exe_rel, "php-cgi.exe");
    assert!(branch_version(branch("latest", Some("8.4.1"), zip("a"), None)).is_none());
    assert!(branch_version(branch("8.2", None, zip("a"), None)).is_none());
    assert!(branch_version(branch("8.2", Some("8.2.1"), Some(None), zip("b"))).is_none());
    assert!(branch_version(branch("8.2", Some("8.2.1"), None, None)).is_none());
    let all = release_versions(vec![
        branch("8.3", Some("8.3.30"), zip("a"), None),
        branch("8.5", Some("8.5.1"), zip("b"), None),
        branch("x", Some("9.0"), zip("c"), None),
        branch("8.4", Some("8.4.20"), None, zip("d")),
    ]);
    let versions: Vec<&str> = all.iter().map(|v| v.version.as_str()).collect();
    assert_eq!(versions, vec!["8.5.1", "8.4.20", "8.3.30"]);
}
