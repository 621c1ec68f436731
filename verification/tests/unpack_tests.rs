use std::io::Write;

use naxone::unpack::{entry_content, exe_root, extraction_plan, list_zip, DirTree};

fn zip_of(files: &[(&str, &[u8])], dirs: &[&str]) -> Vec<u8> {
    let mut buf = std::io::Cursor::new(Vec::new());
    {
        let mut w = zip::ZipWriter::new(&mut buf);
        let opts = zip::write::SimpleFileOptions::default().compression_method(zip::CompressionMethod::Stored);
        for d in dirs {
            w.add_directory(*d, opts).unwrap();
        }
        for (name, data) in files {
            w.start_file(*name, opts).unwrap();
            w.write_all(data).unwrap();
        }
        w.finish().unwrap();
    }
    buf.into_inner()
}

#[test]
fn listing_and_plan_skip_escaping_names() {
    let data = zip_of(&[("nginx/nginx.exe", b"MZ"), ("../evil.txt", b"x")], &["nginx/conf/"]);
    let entries = list_zip(&data).expect("listing");
    assert_eq!(entries.len(), 3);
    let plan = extraction_plan(&entries);
    let names: Vec<(usize, Vec<String>, bool)> = plan;
    assert_eq!(names.len(), 2);
    assert_eq!(names[0], (0, vec!["nginx".to_string(), "conf".to_string()], true));
    assert_eq!(names[1], (1, vec!["nginx".to_string(), "nginx.exe".to_string()], false));
    assert_eq!(entry_content(&data, 1), Ok(b"MZ".to_vec()));
}

#[test]
fn listing_a_non_zip_fails() {
    let m = list_zip(b"<html></html>").unwrap_err();
    assert!(m.starts_with("解析 zip 失败: "));
}

fn tree(paths: &[(&str, bool)]) -> DirTree {
    DirTree {
        entries: paths
            .iter()
            .map(|(p, d)| (p.split('/').map(|s| s.to_string()).collect(), *d))
            .collect(),
    }
}

#[test]
fn exe_root_finds_nested_wrapper() {
    let t = tree(&[
        ("httpd-2.4", true),
        ("httpd-2.4/readme.txt", false),
        ("httpd-2.4/Apache24", true),
        ("httpd-2.4/Apache24/bin", true),
        ("httpd-2.4/Apache24/bin/httpd.exe", false),
    ]);
    assert_eq!(exe_root(&t, "bin/httpd.exe"), vec!["httpd-2.4", "Apache24"]);
    assert_eq!(exe_root(&t, "bin\\httpd.exe"), vec!["httpd-2.4", "Apache24"]);
}

#[test]
fn exe_root_prefers_root_and_falls_back_to_it() {
    let t = tree(&[("nginx.exe", false), ("conf", true)]);
    assert_eq!(exe_root(&t, "nginx.exe"), Vec::<String>::new());
    let t = tree(&[("a", true), ("a/b", true), ("a/b/c", true), ("a/b/c/d", true), ("a/b/c/d/x.exe", false)]);
    assert_eq!(exe_root(&t, "x.exe"), Vec::<String>::new());
    let t = tree(&[("a", true), ("a/b", true), ("a/b/c", true), ("a/b/c/x.exe", false)]);
    assert_eq!(exe_root(&t, "x.exe"), vec!["a", "b", "c"]);
}
