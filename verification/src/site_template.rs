//! Starter code laid into the document root of a new site: which templates
//! exist, when a directory may receive one, where the files of the
//! WordPress archive land, and the command line that runs Composer.

use vstd::prelude::*;
use crate::text::{chars_of, string_of, append_str};
use crate::ssl_cert::string_views;

verus! {

/// The starter templates.
#[derive(Clone, Copy, PartialEq, Eq, Structural, Debug)]
pub enum SiteTemplate {
    Blank,
    Wordpress,
    Laravel,
    Thinkphp,
    Webman,
}

/// The name a template is shown under.
pub open spec fn spec_label(t: SiteTemplate) -> Seq<char> {
    match t {
        SiteTemplate::Blank => "空白"@,
        SiteTemplate::Wordpress => "WordPress"@,
        SiteTemplate::Laravel => "Laravel"@,
        SiteTemplate::Thinkphp => "ThinkPHP"@,
        SiteTemplate::Webman => "Webman"@,
    }
}

/// The Composer package a template is created from, for those that use
/// Composer.
pub open spec fn spec_composer_package(t: SiteTemplate) -> Option<Seq<char>> {
    match t {
        SiteTemplate::Laravel => Some("laravel/laravel"@),
        SiteTemplate::Thinkphp => Some("topthink/think"@),
        SiteTemplate::Webman => Some("workerman/webman"@),
        _ => None,
    }
}

impl SiteTemplate {
    /// The name the template is shown under.
    pub fn label(&self) -> (r: &'static str)
        ensures
            r@ == spec_label(*self),
    {
        match self {
            SiteTemplate::Blank => {
                proof { reveal_strlit("空白"); }
                "空白"
            },
            SiteTemplate::Wordpress => {
                proof { reveal_strlit("WordPress"); }
                "WordPress"
            },
            SiteTemplate::Laravel => {
                proof { reveal_strlit("Laravel"); }
                "Laravel"
            },
            SiteTemplate::Thinkphp => {
                proof { reveal_strlit("ThinkPHP"); }
                "ThinkPHP"
            },
            SiteTemplate::Webman => {
                proof { reveal_strlit("Webman"); }
                "Webman"
            },
        }
    }

    /// The Composer package the template is created from, if it uses
    /// Composer.
    pub fn composer_package(&self) -> (r: Option<&'static str>)
        ensures
            match spec_composer_package(*self) {
                Some(p) => r matches Some(s) && s@ == p,
                None => r is None,
            },
    {
        match self {
            SiteTemplate::Laravel => {
                proof { reveal_strlit("laravel/laravel"); }
                Some("laravel/laravel")
            },
            SiteTemplate::Thinkphp => {
                proof { reveal_strlit("topthink/think"); }
                Some("topthink/think")
            },
            SiteTemplate::Webman => {
                proof { reveal_strlit("workerman/webman"); }
                Some("workerman/webman")
            },
            _ => None,
        }
    }
}

/// The contents of `index.php` in a blank site.
pub open spec fn blank_index() -> Seq<char> {
    "<?php\nphpinfo();\n"@
}

/// The `index.php` of a blank site.
pub fn blank_index_php() -> (r: &'static str)
    ensures
        r@ == blank_index(),
{
    proof { reveal_strlit("<?php\nphpinfo();\n"); }
    "<?php\nphpinfo();\n"
}

/// The rewrite-rule files the site itself writes into its document root.
pub open spec fn is_own_rewrite_file(name: Seq<char>) -> bool {
    name == "nginx.htaccess"@ || name == ".htaccess"@
}

/// A directory may receive a template when nothing but the site's own
/// rewrite-rule files is in it.
pub fn dir_accepts_template(names: &Vec<String>) -> (r: bool)
    ensures
        r == (forall|i: int| 0 <= i < names.len() ==> #[trigger] is_own_rewrite_file(names@[i]@)),
{
    let mut i: usize = 0;
    proof {
        reveal_strlit("nginx.htaccess");
        reveal_strlit(".htaccess");
    }
    while i < names.len()
        invariant
            i <= names.len(),
            forall|j: int| 0 <= j < i ==> #[trigger] is_own_rewrite_file(names@[j]@),
        decreases names.len() - i,
    {
        let n = chars_of(names[i].as_str());
        let own = crate::text::eq_str(&n, "nginx.htaccess") || crate::text::eq_str(&n, ".htaccess");
        if !own {
            assert(!is_own_rewrite_file(names@[i as int]@));
            return false;
        }
        i += 1;
    }
    true
}

/// Where an entry of the WordPress archive lands, relative to the site
/// root: the entry's path components after a leading `wordpress`; entries
/// outside that folder, and the folder itself, are skipped.
pub open spec fn spec_wordpress_rel(components: Seq<Seq<char>>) -> Option<Seq<Seq<char>>> {
    if components.len() >= 2 && components[0] == "wordpress"@ {
        Some(components.drop_first())
    } else {
        None
    }
}

/// Where an entry of the WordPress archive lands, from its path components.
pub fn wordpress_rel(components: &Vec<String>) -> (r: Option<Vec<String>>)
    ensures
        match spec_wordpress_rel(string_views(components@)) {
            Some(rel) => r matches Some(v) && string_views(v@) == rel,
            None => r is None,
        },
{
    if components.len() < 2 {
        return None;
    }
    let first = chars_of(components[0].as_str());
    proof { reveal_strlit("wordpress"); }
    if !crate::text::eq_str(&first, "wordpress") {
        assert(string_views(components@)[0] == components@[0]@);
        return None;
    }
    let mut out: Vec<String> = Vec::new();
    let mut i: usize = 1;
    while i < components.len()
        invariant
            1 <= i <= components.len(),
            string_views(out@) == string_views(components@).subrange(1, i as int),
        decreases components.len() - i,
    {
        let ghost o0 = out@;
        let s = components[i].clone();
        out.push(s);
        assert(string_views(out@) =~= string_views(o0).push(s@));
        i += 1;
        assert(string_views(components@).subrange(1, i as int) =~= string_views(components@).subrange(
            1,
            (i - 1) as int,
        ).push(components@[i - 1]@));
    }
    assert(string_views(components@).subrange(1, components.len() as int) =~= string_views(
        components@,
    ).drop_first());
    Some(out)
}

/// The arguments given to PHP to run `composer create-project`: the ini
/// file when one was found, the extension directory when it exists, then
/// the Composer archive and the project to create in the current directory.
pub open spec fn spec_composer_args(
    php_ini: Option<Seq<char>>,
    ext_dir: Option<Seq<char>>,
    phar: Seq<char>,
    package: Seq<char>,
) -> Seq<Seq<char>> {
    let ini_args = match php_ini {
        Some(p) => seq!["-c"@, p],
        None => Seq::empty(),
    };
    let ext_args = match ext_dir {
        Some(e) => seq!["-d"@, "extension_dir="@ + e],
        None => Seq::empty(),
    };
    ini_args + ext_args + seq![phar, "create-project"@, package, "."@, "--no-interaction"@]
}

fn lit(s: &str) -> (r: String)
    ensures
        r@ == s@,
{
    string_of(&chars_of(s))
}

/// The arguments given to PHP to run `composer create-project`.
pub fn composer_args(php_ini: Option<&str>, ext_dir: Option<&str>, phar: &str, package: &str) -> (r: Vec<String>)
    ensures
        string_views(r@) == spec_composer_args(
            match php_ini { Some(p) => Some(p@), None => None },
            match ext_dir { Some(e) => Some(e@), None => None },
            phar@,
            package@,
        ),
{
    proof {
        reveal_strlit("-c");
        reveal_strlit("-d");
        reveal_strlit("extension_dir=");
        reveal_strlit("create-project");
        reveal_strlit(".");
        reveal_strlit("--no-interaction");
    }
    let mut r: Vec<String> = Vec::new();
    let ghost ini_v: Option<Seq<char>> = match php_ini { Some(p) => Some(p@), None => None };
    let ghost ext_v: Option<Seq<char>> = match ext_dir { Some(e) => Some(e@), None => None };
    let ghost ini_args: Seq<Seq<char>> = match ini_v { Some(p) => seq!["-c"@, p], None => Seq::empty() };
    let ghost ext_args: Seq<Seq<char>> = match ext_v {
        Some(e) => seq!["-d"@, "extension_dir="@ + e],
        None => Seq::empty(),
    };
    if let Some(p) = php_ini {
        r.push(lit("-c"));
        r.push(lit(p));
    }
    assert(string_views(r@) =~= ini_args);
    if let Some(e) = ext_dir {
        let ghost r0 = r@;
        r.push(lit("-d"));
        let mut a: Vec<char> = Vec::new();
        append_str(&mut a, "extension_dir=");
        append_str(&mut a, e);
        r.push(string_of(&a));
        assert(string_views(r@) =~= string_views(r0) + ext_args);
    }
    assert(string_views(r@) =~= ini_args + ext_args);
    let ghost r1 = r@;
    r.push(lit(phar));
    r.push(lit("create-project"));
    r.push(lit(package));
    r.push(lit("."));
    r.push(lit("--no-interaction"));
    assert(string_views(r@) =~= string_views(r1) + seq![
        phar@,
        "create-project"@,
        package@,
        "."@,
        "--no-interaction"@,
    ]);
    r
}

/// The ini file PHP is pointed at for Composer: the first of `php.ini`,
/// `php.ini-production` and `php.ini-development` that exists beside it.
pub fn composer_php_ini(ini: bool, production: bool, development: bool) -> (r: Option<&'static str>)
    ensures
        ini ==> (r matches Some(s) && s@ == "php.ini"@),
        !ini && production ==> (r matches Some(s) && s@ == "php.ini-production"@),
        !ini && !production && development ==> (r matches Some(s) && s@ == "php.ini-development"@),
        !ini && !production && !development ==> r is None,
{
    if ini {
        proof { reveal_strlit("php.ini"); }
        Some("php.ini")
    } else if production {
        proof { reveal_strlit("php.ini-production"); }
        Some("php.ini-production")
    } else if development {
        proof { reveal_strlit("php.ini-development"); }
        Some("php.ini-development")
    } else {
        None
    }
}

} // verus!
