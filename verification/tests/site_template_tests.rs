use naxone::site_template::{
    blank_index_php, composer_args, composer_php_ini, dir_accepts_template, wordpress_rel,
    SiteTemplate,
};

fn strings(v: &[&str]) -> Vec<String> {
    v.iter().map(|s| s.to_string()).collect()
}

#[test]
fn labels_and_packages() {
    assert_eq!(SiteTemplate::Blank.label(), "空白");
    assert_eq!(SiteTemplate::Thinkphp.label(), "ThinkPHP");
    assert_eq!(SiteTemplate::Laravel.composer_package(), Some("laravel/laravel"));
    assert_eq!(SiteTemplate::Thinkphp.composer_package(), Some("topthink/think"));
    assert_eq!(SiteTemplate::Webman.composer_package(), Some("workerman/webman"));
    assert_eq!(SiteTemplate::Wordpress.composer_package(), None);
    assert_eq!(SiteTemplate::Blank.composer_package(), None);
}

#[test]
fn blank_site_index() {
    assert_eq!(blank_index_php(), "<?php\nphpinfo();\n");
}

#[test]
fn only_own_rewrite_files_allowed() {
    assert!(dir_accepts_template(&vec![]));
    assert!(dir_accepts_template(&strings(&["nginx.htaccess", ".htaccess"])));
    assert!(!dir_accepts_template(&strings(&[".htaccess", "index.php"])));
}

#[test]
fn wordpress_entries_are_unwrapped() {
    assert_eq!(
        wordpress_rel(&strings(&["wordpress", "wp-admin", "index.php"])),
        Some(strings(&["wp-admin", "index.php"]))
    );
    assert_eq!(wordpress_rel(&strings(&["wordpress"])), None);
    assert_eq!(wordpress_rel(&strings(&["other", "x.php"])), None);
}

#[test]
fn composer_command_line() {
    assert_eq!(
        composer_args(Some("C:/php/php.ini"), Some("C:/php/ext"), "C:/bin/composer.phar", "laravel/laravel"),
        strings(&[
            "-c",
            "C:/php/php.ini",
            "-d",
            "extension_dir=C:/php/ext",
            "C:/bin/composer.phar",
            "create-project",
            "laravel/laravel",
            ".",
            "--no-interaction",
        ])
    );
    assert_eq!(
        composer_args(None, None, "c.phar", "topthink/think"),
        strings(&["c.phar", "create-project", "topthink/think", ".", "--no-interaction"])
    );
}

#[test]
fn composer_ini_preference() {
    assert_eq!(composer_php_ini(true, true, true), Some("php.ini"));
    assert_eq!(composer_php_ini(false, true, true), Some("php.ini-production"));
    assert_eq!(composer_php_ini(false, false, true), Some("php.ini-development"));
    assert_eq!(composer_php_ini(false, false, false), None);
}
