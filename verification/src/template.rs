//! The Nginx and Apache configuration text of a virtual host, in the
//! layout PHPStudy writes.

use vstd::prelude::*;
use crate::text::{append, append_str, chars_of, join_lines, lines, string_of};
use crate::num::{decimal, decimal_chars};
use crate::vhost::{SslConfig, VirtualHost, spec_validate, strs, opt_view};
use crate::error::NaxOneError;
use crate::config_editor::join_sep;

verus! {

/// Renders configuration text for a virtual host.
pub trait TemplateEngine {
    fn render_nginx_vhost(&self, vhost: &VirtualHost) -> Result<String, NaxOneError>;

    fn render_apache_vhost(&self, vhost: &VirtualHost) -> Result<String, NaxOneError>;
}

/// The template engine with PHPStudy's configuration layout.
pub struct SimpleTemplateEngine;

/// A path with every `\\` turned into `/`.
pub open spec fn fwd_slash(s: Seq<char>) -> Seq<char> {
    s.map_values(|c: char| if c == '\\' { '/' } else { c })
}

/// The non-empty entries, in order.
pub open spec fn nonempty(ls: Seq<Seq<char>>) -> Seq<Seq<char>>
    decreases ls.len(),
{
    if ls.len() == 0 {
        Seq::empty()
    } else if ls.last().len() == 0 {
        nonempty(ls.drop_last())
    } else {
        nonempty(ls.drop_last()).push(ls.last())
    }
}

/// Each line indented by eight spaces.
pub open spec fn indent8(ls: Seq<Seq<char>>) -> Seq<Seq<char>> {
    ls.map_values(|l: Seq<char>| "        "@ + l)
}

/// The validation of every user-entered field of `v`.
pub open spec fn vhost_check(v: VirtualHost) -> Result<(), Seq<char>> {
    spec_validate(
        v.server_name@,
        strs(v.aliases@),
        v.index_files@,
        opt_view(v.access_log),
        opt_view(v.custom_directives),
    )
}

/// The index files, or `index.php index.html` when none are set.
pub open spec fn index_or_default(s: Seq<char>) -> Seq<char> {
    if s.len() == 0 {
        "index.php index.html"@
    } else {
        s
    }
}

/// `domain;`, or `domain alias1 alias2;` with the non-empty aliases.
pub open spec fn server_name_line(domain: Seq<char>, aliases: Seq<Seq<char>>) -> Seq<char> {
    let al = nonempty(aliases);
    if al.len() == 0 {
        domain + ";"@
    } else {
        domain + " "@ + join_sep(al, " "@) + ";"@
    }
}

pub open spec fn nginx_php_block(port: Option<u16>) -> Seq<char> {
    match port {
        Some(php_port) => "        location ~ \\.php(.*)$ {\n            fastcgi_pass   127.0.0.1:"@ + decimal(php_port as nat) + ";\n            fastcgi_index  index.php;\n            fastcgi_split_path_info  ^((?U).+\\.php)(/?.+)$;\n            fastcgi_param  SCRIPT_FILENAME  $document_root$fastcgi_script_name;\n            fastcgi_param  PATH_INFO  $fastcgi_path_info;\n            fastcgi_param  PATH_TRANSLATED  $document_root$fastcgi_path_info;\n            include        fastcgi_params;\n        }"@,
        None => Seq::empty(),
    }
}

pub open spec fn nginx_ssl_block(ssl: Option<SslConfig>) -> Seq<char> {
    match ssl {
        Some(s) => "\n        listen        443 ssl;\n        ssl_certificate     "@ + fwd_slash(s.cert_path@) + ";\n        ssl_certificate_key "@ + fwd_slash(s.key_path@) + ";"@ + (if s.force_https { "\n        if ($scheme = http) {\n            return 301 https://$host$request_uri;\n        }"@ } else { Seq::empty() }),
        None => Seq::empty(),
    }
}

pub open spec fn nginx_log_line(log: Option<String>) -> Seq<char> {
    match log {
        Some(l) => "\n        access_log  "@ + fwd_slash(l@) + ";"@,
        None => Seq::empty(),
    }
}

pub open spec fn nginx_custom(d: Option<String>) -> Seq<char> {
    match d {
        Some(d) => "\n"@ + join_lines(indent8(lines(d@))),
        None => Seq::empty(),
    }
}

pub open spec fn nginx_location_block(v: VirtualHost) -> Seq<char> {
    let doc_root = fwd_slash(v.document_root@);
    let include_line = if v.rewrite_rule@.len() > 0 {
        "\n            include "@ + doc_root + "/nginx.htaccess;"@
    } else {
        Seq::empty()
    };
    "        location / {\n            index "@ + index_or_default(v.index_files@) + " error/index.html;"@ + include_line + "\n            autoindex  "@ + (if v.autoindex { "on"@ } else { "off"@ }) + ";\n        }"@
}

/// The Nginx `server` block of `v`.
pub open spec fn nginx_conf(v: VirtualHost) -> Seq<char> {
    "server {\n        listen        "@ + decimal(v.listen_port as nat) + ";"@ + nginx_ssl_block(v.ssl) + "\n        server_name  "@ + server_name_line(v.server_name@, strs(v.aliases@)) + "\n        root   \""@ + fwd_slash(v.document_root@) + "\";"@ + nginx_log_line(v.access_log) + "\n"@ + nginx_location_block(v) + "\n"@ + nginx_php_block(v.php_fastcgi_port) + nginx_custom(v.custom_directives) + "\n}"@
}

pub open spec fn apache_php_block(p: Option<String>) -> Seq<char> {
    match p {
        Some(p) => "    FcgidInitialEnv PHPRC \""@ + fwd_slash(p@) + "\"\n    AddHandler fcgid-script .php\n    FcgidWrapper \""@ + fwd_slash(p@) + "/php-cgi.exe\" .php"@,
        None => Seq::empty(),
    }
}

pub open spec fn apache_ssl_block(ssl: Option<SslConfig>) -> Seq<char> {
    match ssl {
        Some(s) => "\n    SSLEngine on\n    SSLCertificateFile \""@ + fwd_slash(s.cert_path@) + "\"\n    SSLCertificateKeyFile \""@ + fwd_slash(s.key_path@) + "\""@,
        None => Seq::empty(),
    }
}

/// The Apache `VirtualHost` block of `v`.
pub open spec fn apache_conf(v: VirtualHost) -> Seq<char> {
    "<VirtualHost *:"@ + decimal(v.listen_port as nat) + ">\n    DocumentRoot \""@ + fwd_slash(v.document_root@) + "\"\n    ServerName "@ + v.server_name@ + "\n    ServerAlias "@ + join_sep(nonempty(strs(v.aliases@)), " "@) + "\n"@ + apache_php_block(v.php_install_path) + apache_ssl_block(v.ssl) + "\n  <Directory \""@ + fwd_slash(v.document_root@) + "\">\n      Options FollowSymLinks ExecCGI\n      AllowOverride All\n      Order allow,deny\n      Allow from all\n      Require all granted\n\t  DirectoryIndex "@ + index_or_default(v.index_files@) + " error/index.html\n  </Directory>\n  ErrorDocument 400 /error/400.html\n  ErrorDocument 403 /error/403.html\n  ErrorDocument 404 /error/404.html\n  ErrorDocument 500 /error/500.html\n  ErrorDocument 501 /error/501.html\n  ErrorDocument 502 /error/502.html\n  ErrorDocument 503 /error/503.html\n  ErrorDocument 504 /error/504.html\n  ErrorDocument 505 /error/505.html\n  ErrorDocument 506 /error/506.html\n  ErrorDocument 507 /error/507.html\n  ErrorDocument 510 /error/510.html\n</VirtualHost>"@
}

fn fwd_chars(s: &str) -> (r: Vec<char>)
    ensures
        r@ == fwd_slash(s@),
{
    let v = chars_of(s);
    let mut r: Vec<char> = Vec::new();
    let mut i: usize = 0;
    while i < v.len()
        invariant
            i <= v.len(),
            r@ == fwd_slash(v@.take(i as int)),
        decreases v.len() - i,
    {
        let c = v[i];
        r.push(if c == '\\' { '/' } else { c });
        assert(v@.take(i + 1) == v@.take(i as int).push(c));
        assert(r@ =~= fwd_slash(v@.take(i + 1)));
        i += 1;
    }
    assert(v@.take(v.len() as int) == v@);
    r
}

fn nonempty_exec(v: &Vec<String>) -> (r: Vec<Vec<char>>)
    ensures
        crate::text::views(r@) == nonempty(strs(v@)),
{
    let mut r: Vec<Vec<char>> = Vec::new();
    let mut i: usize = 0;
    while i < v.len()
        invariant
            i <= v.len(),
            crate::text::views(r@) == nonempty(strs(v@).take(i as int)),
        decreases v.len() - i,
    {
        let ghost pre = strs(v@).take(i as int);
        assert(strs(v@).take(i + 1).drop_last() == pre);
        assert(strs(v@).take(i + 1).last() == v@[i as int]@);
        let c = chars_of(v[i].as_str());
        if c.len() > 0 {
            r.push(c);
        }
        assert(crate::text::views(r@) =~= nonempty(strs(v@).take(i + 1)));
        i += 1;
    }
    assert(strs(v@).take(v.len() as int) == strs(v@));
    r
}

fn indent_lines_exec(d: &str) -> (r: Vec<char>)
    ensures
        r@ == join_lines(indent8(lines(d@))),
{
    let c = chars_of(d);
    let ls = crate::text::lines_of(&c);
    let ghost lv = crate::text::views(ls@);
    let mut out: Vec<Vec<char>> = Vec::new();
    let mut i: usize = 0;
    while i < ls.len()
        invariant
            i <= ls.len(),
            lv == crate::text::views(ls@),
            lv == lines(d@),
            out.len() == i,
            forall|k: int| 0 <= k < i ==> (#[trigger] out@[k])@ == "        "@ + lv[k],
        decreases ls.len() - i,
    {
        let mut l = chars_of("        ");
        append(&mut l, &ls[i]);
        assert(lv[i as int] == ls@[i as int]@);
        out.push(l);
        i += 1;
    }
    assert(crate::text::views(out@) =~= indent8(lv));
    crate::text::join_lines_of(&out)
}

fn index_exec(s: &String) -> (r: Vec<char>)
    ensures
        r@ == index_or_default(s@),
{
    let v = chars_of(s.as_str());
    if v.len() == 0 {
        chars_of("index.php index.html")
    } else {
        v
    }
}

fn server_name_exec(domain: &String, aliases: &Vec<String>) -> (r: Vec<char>)
    ensures
        r@ == server_name_line(domain@, strs(aliases@)),
{
    let al = nonempty_exec(aliases);
    let mut r = chars_of(domain.as_str());
    if al.len() == 0 {
        append_str(&mut r, ";");
    } else {
        append_str(&mut r, " ");
        append(&mut r, &crate::config_editor::join_sep_exec(&al, &chars_of(" ")));
        append_str(&mut r, ";");
    }
    r
}

fn nginx_php_exec(port: Option<u16>) -> (r: Vec<char>)
    ensures
        r@ == nginx_php_block(port),
{
    let mut r: Vec<char> = Vec::new();
    match port {
        Some(php_port) => {
            let p = decimal_chars(php_port as u64);
            append_str(&mut r, "        location ~ \\.php(.*)$ {\n            fastcgi_pass   127.0.0.1:");
            append(&mut r, &p);
            append_str(&mut r, ";\n            fastcgi_index  index.php;\n            fastcgi_split_path_info  ^((?U).+\\.php)(/?.+)$;\n            fastcgi_param  SCRIPT_FILENAME  $document_root$fastcgi_script_name;\n            fastcgi_param  PATH_INFO  $fastcgi_path_info;\n            fastcgi_param  PATH_TRANSLATED  $document_root$fastcgi_path_info;\n            include        fastcgi_params;\n        }");
        },
        None => {},
    }
    r
}

fn nginx_ssl_exec(ssl: &Option<SslConfig>) -> (r: Vec<char>)
    ensures
        r@ == nginx_ssl_block(*ssl),
{
    let mut r: Vec<char> = Vec::new();
    match ssl {
        Some(s) => {
            let cert = fwd_chars(s.cert_path.as_str());
            let key = fwd_chars(s.key_path.as_str());
            let redirect = if s.force_https {
                chars_of("\n        if ($scheme = http) {\n            return 301 https://$host$request_uri;\n        }")
            } else {
                Vec::new()
            };
            append_str(&mut r, "\n        listen        443 ssl;\n        ssl_certificate     ");
            append(&mut r, &cert);
            append_str(&mut r, ";\n        ssl_certificate_key ");
            append(&mut r, &key);
            append_str(&mut r, ";");
            append(&mut r, &redirect);
        },
        None => {},
    }
    r
}

fn nginx_log_exec(log: &Option<String>) -> (r: Vec<char>)
    ensures
        r@ == nginx_log_line(*log),
{
    let mut r: Vec<char> = Vec::new();
    match log {
        Some(l) => {
            append_str(&mut r, "\n        access_log  ");
            append(&mut r, &fwd_chars(l.as_str()));
            append_str(&mut r, ";");
        },
        None => {},
    }
    r
}

fn nginx_custom_exec(d: &Option<String>) -> (r: Vec<char>)
    ensures
        r@ == nginx_custom(*d),
{
    let mut r: Vec<char> = Vec::new();
    match d {
        Some(d) => {
            append_str(&mut r, "\n");
            append(&mut r, &indent_lines_exec(d.as_str()));
        },
        None => {},
    }
    r
}

fn nginx_location_exec(v: &VirtualHost) -> (r: Vec<char>)
    ensures
        r@ == nginx_location_block(*v),
{
    let doc_root = fwd_chars(v.document_root.as_str());
    let mut include_line: Vec<char> = Vec::new();
    if v.rewrite_rule.as_str().unicode_len() > 0 {
        append_str(&mut include_line, "\n            include ");
        append(&mut include_line, &doc_root);
        append_str(&mut include_line, "/nginx.htaccess;");
    }
    let index_files = index_exec(&v.index_files);
    let autoindex = if v.autoindex {
        chars_of("on")
    } else {
        chars_of("off")
    };
    let mut r: Vec<char> = Vec::new();
    append_str(&mut r, "        location / {\n            index ");
    append(&mut r, &index_files);
    append_str(&mut r, " error/index.html;");
    append(&mut r, &include_line);
    append_str(&mut r, "\n            autoindex  ");
    append(&mut r, &autoindex);
    append_str(&mut r, ";\n        }");
    r
}

fn apache_php_exec(p: &Option<String>) -> (r: Vec<char>)
    ensures
        r@ == apache_php_block(*p),
{
    let mut r: Vec<char> = Vec::new();
    match p {
        Some(p) => {
            let php_path_str = fwd_chars(p.as_str());
            append_str(&mut r, "    FcgidInitialEnv PHPRC \"");
            append(&mut r, &php_path_str);
            append_str(&mut r, "\"\n    AddHandler fcgid-script .php\n    FcgidWrapper \"");
            append(&mut r, &php_path_str);
            append_str(&mut r, "/php-cgi.exe\" .php");
        },
        None => {},
    }
    r
}

fn apache_ssl_exec(ssl: &Option<SslConfig>) -> (r: Vec<char>)
    ensures
        r@ == apache_ssl_block(*ssl),
{
    let mut r: Vec<char> = Vec::new();
    match ssl {
        Some(s) => {
            let cert = fwd_chars(s.cert_path.as_str());
            let key = fwd_chars(s.key_path.as_str());
            append_str(&mut r, "\n    SSLEngine on\n    SSLCertificateFile \"");
            append(&mut r, &cert);
            append_str(&mut r, "\"\n    SSLCertificateKeyFile \"");
            append(&mut r, &key);
            append_str(&mut r, "\"");
        },
        None => {},
    }
    r
}

impl SimpleTemplateEngine {
    /// The path with every backslash turned into a forward slash.
    pub fn to_forward_slash(path: &str) -> (r: String)
        ensures
            r@ == fwd_slash(path@),
    {
        string_of(&fwd_chars(path))
    }

    pub(crate) fn nginx_text(v: &VirtualHost) -> (r: String)
        ensures
            r@ == nginx_conf(*v),
    {
        let port = decimal_chars(v.listen_port as u64);
        let ssl_block = nginx_ssl_exec(&v.ssl);
        let server_name = server_name_exec(&v.server_name, &v.aliases);
        let doc_root = fwd_chars(v.document_root.as_str());
        let log_line = nginx_log_exec(&v.access_log);
        let location_block = nginx_location_exec(v);
        let php_block = nginx_php_exec(v.php_fastcgi_port);
        let custom = nginx_custom_exec(&v.custom_directives);
        let mut r: Vec<char> = Vec::new();
        append_str(&mut r, "server {\n        listen        ");
        append(&mut r, &port);
        append_str(&mut r, ";");
        append(&mut r, &ssl_block);
        append_str(&mut r, "\n        server_name  ");
        append(&mut r, &server_name);
        append_str(&mut r, "\n        root   \"");
        append(&mut r, &doc_root);
        append_str(&mut r, "\";");
        append(&mut r, &log_line);
        append_str(&mut r, "\n");
        append(&mut r, &location_block);
        append_str(&mut r, "\n");
        append(&mut r, &php_block);
        append(&mut r, &custom);
        append_str(&mut r, "\n}");
        string_of(&r)
    }

    pub(crate) fn apache_text(v: &VirtualHost) -> (r: String)
        ensures
            r@ == apache_conf(*v),
    {
        let port = decimal_chars(v.listen_port as u64);
        let doc_root = fwd_chars(v.document_root.as_str());
        let domain = chars_of(v.server_name.as_str());
        let al = nonempty_exec(&v.aliases);
        let aliases = crate::config_editor::join_sep_exec(&al, &chars_of(" "));
        let php_block = apache_php_exec(&v.php_install_path);
        let ssl_block = apache_ssl_exec(&v.ssl);
        let index_files = index_exec(&v.index_files);
        let mut r: Vec<char> = Vec::new();
        append_str(&mut r, "<VirtualHost *:");
        append(&mut r, &port);
        append_str(&mut r, ">\n    DocumentRoot \"");
        append(&mut r, &doc_root);
        append_str(&mut r, "\"\n    ServerName ");
        append(&mut r, &domain);
        append_str(&mut r, "\n    ServerAlias ");
        append(&mut r, &aliases);
        append_str(&mut r, "\n");
        append(&mut r, &php_block);
        append(&mut r, &ssl_block);
        append_str(&mut r, "\n  <Directory \"");
        append(&mut r, &doc_root);
        append_str(&mut r, "\">\n      Options FollowSymLinks ExecCGI\n      AllowOverride All\n      Order allow,deny\n      Allow from all\n      Require all granted\n\t  DirectoryIndex ");
        append(&mut r, &index_files);
        append_str(&mut r, " error/index.html\n  </Directory>\n  ErrorDocument 400 /error/400.html\n  ErrorDocument 403 /error/403.html\n  ErrorDocument 404 /error/404.html\n  ErrorDocument 500 /error/500.html\n  ErrorDocument 501 /error/501.html\n  ErrorDocument 502 /error/502.html\n  ErrorDocument 503 /error/503.html\n  ErrorDocument 504 /error/504.html\n  ErrorDocument 505 /error/505.html\n  ErrorDocument 506 /error/506.html\n  ErrorDocument 507 /error/507.html\n  ErrorDocument 510 /error/510.html\n</VirtualHost>");
        string_of(&r)
    }
}

impl TemplateEngine for SimpleTemplateEngine {
    /// The Nginx `server` block of a valid vhost; an invalid one gives a
    /// template error with the validation message.
    fn render_nginx_vhost(&self, vhost: &VirtualHost) -> (r: Result<String, NaxOneError>)
        ensures
            match vhost_check(*vhost) {
                Ok(()) => r matches Ok(s) && s@ == nginx_conf(*vhost),
                Err(m) => r matches Err(NaxOneError::Template(e)) && e@ == m,
            },
    {
        match vhost.validate() {
            Err(e) => Err(NaxOneError::Template(e)),
            Ok(()) => Ok(SimpleTemplateEngine::nginx_text(vhost)),
        }
    }

    /// The Apache `VirtualHost` block of a valid vhost; an invalid one
    /// gives a template error with the validation message.
    fn render_apache_vhost(&self, vhost: &VirtualHost) -> (r: Result<String, NaxOneError>)
        ensures
            match vhost_check(*vhost) {
                Ok(()) => r matches Ok(s) && s@ == apache_conf(*vhost),
                Err(m) => r matches Err(NaxOneError::Template(e)) && e@ == m,
            },
    {
        match vhost.validate() {
            Err(e) => Err(NaxOneError::Template(e)),
            Ok(()) => Ok(SimpleTemplateEngine::apache_text(vhost)),
        }
    }
}

} // verus!

verus! {

/// Every backslash of a path becomes a forward slash; every other
/// character stays.
pub proof fn law_fwd_slash(s: Seq<char>)
    ensures
        fwd_slash(s).len() == s.len(),
        forall|i: int| 0 <= i < s.len() ==> #[trigger] fwd_slash(s)[i] == (if s[i] == '\\' { '/' } else { s[i] }),
{
}

/// The Apache text of a vhost with SSL names the certificate after
/// `SSLCertificateFile` and the private key after `SSLCertificateKeyFile`,
/// each in double quotes with forward slashes.
pub proof fn law_apache_ssl_files(v: VirtualHost)
    requires
        v.ssl is Some,
    ensures
        crate::text::contains(
            apache_conf(v),
            "SSLCertificateFile \""@ + fwd_slash(v.ssl->0.cert_path@) + "\"\n"@,
        ),
        crate::text::contains(
            apache_conf(v),
            "SSLCertificateKeyFile \""@ + fwd_slash(v.ssl->0.key_path@) + "\"\n"@,
        ),
{
    let s = v.ssl->0;
    let cert = fwd_slash(s.cert_path@);
    let key = fwd_slash(s.key_path@);
    reveal_strlit("\n    SSLEngine on\n    SSLCertificateFile \"");
    reveal_strlit("\"\n    SSLCertificateKeyFile \"");
    reveal_strlit("\"");
    reveal_strlit("SSLCertificateFile \"");
    reveal_strlit("\"\n");
    reveal_strlit("SSLCertificateKeyFile \"");
    reveal_strlit("\n  <Directory \"");
    reveal_strlit("\n");
    reveal_strlit("\n    SSLEngine on\n    ");
    reveal_strlit("    SSLCertificateKeyFile \"");
    reveal_strlit("\"\n    ");
    reveal_strlit("  <Directory \"");
    assert("\n    SSLEngine on\n    SSLCertificateFile \""@ =~= "\n    SSLEngine on\n    "@ + "SSLCertificateFile \""@);
    assert("\"\n    SSLCertificateKeyFile \""@ =~= "\"\n"@ + "    SSLCertificateKeyFile \""@);
    assert("\"\n    SSLCertificateKeyFile \""@ =~= "\"\n    "@ + "SSLCertificateKeyFile \""@);
    assert("\n  <Directory \""@ =~= "\n"@ + "  <Directory \""@);
    let head = "<VirtualHost *:"@ + decimal(v.listen_port as nat) + ">\n    DocumentRoot \""@ + fwd_slash(v.document_root@)
        + "\"\n    ServerName "@ + v.server_name@ + "\n    ServerAlias "@ + join_sep(nonempty(strs(v.aliases@)), " "@)
        + "\n"@ + apache_php_block(v.php_install_path);
    let tail = "\n  <Directory \""@ + fwd_slash(v.document_root@) + "\">\n      Options FollowSymLinks ExecCGI\n      AllowOverride All\n      Order allow,deny\n      Allow from all\n      Require all granted\n\t  DirectoryIndex "@ + index_or_default(v.index_files@) + " error/index.html\n  </Directory>\n  ErrorDocument 400 /error/400.html\n  ErrorDocument 403 /error/403.html\n  ErrorDocument 404 /error/404.html\n  ErrorDocument 500 /error/500.html\n  ErrorDocument 501 /error/501.html\n  ErrorDocument 502 /error/502.html\n  ErrorDocument 503 /error/503.html\n  ErrorDocument 504 /error/504.html\n  ErrorDocument 505 /error/505.html\n  ErrorDocument 506 /error/506.html\n  ErrorDocument 507 /error/507.html\n  ErrorDocument 510 /error/510.html\n</VirtualHost>"@;
    assert(apache_conf(v) == head + apache_ssl_block(v.ssl) + tail);
    let p1 = "SSLCertificateFile \""@ + cert + "\"\n"@;
    let p2 = "SSLCertificateKeyFile \""@ + key + "\"\n"@;
    let a1 = head + "\n    SSLEngine on\n    "@;
    let c1 = "    SSLCertificateKeyFile \""@ + key + "\""@ + tail;
    assert(apache_ssl_block(v.ssl) =~= "\n    SSLEngine on\n    "@ + p1 + "    SSLCertificateKeyFile \""@ + key + "\""@);
    assert(apache_conf(v) =~= a1 + p1 + c1);
    crate::text::lemma_contains_mid(a1, p1, c1);
    let a2 = head + "\n    SSLEngine on\n    SSLCertificateFile \""@ + cert + "\"\n    "@;
    let c2 = "  <Directory \""@ + fwd_slash(v.document_root@) + "\">\n      Options FollowSymLinks ExecCGI\n      AllowOverride All\n      Order allow,deny\n      Allow from all\n      Require all granted\n\t  DirectoryIndex "@ + index_or_default(v.index_files@) + " error/index.html\n  </Directory>\n  ErrorDocument 400 /error/400.html\n  ErrorDocument 403 /error/403.html\n  ErrorDocument 404 /error/404.html\n  ErrorDocument 500 /error/500.html\n  ErrorDocument 501 /error/501.html\n  ErrorDocument 502 /error/502.html\n  ErrorDocument 503 /error/503.html\n  ErrorDocument 504 /error/504.html\n  ErrorDocument 505 /error/505.html\n  ErrorDocument 506 /error/506.html\n  ErrorDocument 507 /error/507.html\n  ErrorDocument 510 /error/510.html\n</VirtualHost>"@;
    assert(apache_ssl_block(v.ssl) + "\n"@ =~= "\n    SSLEngine on\n    SSLCertificateFile \""@ + cert + "\"\n    "@ + p2);
    assert(tail =~= "\n"@ + c2);
    assert(apache_conf(v) =~= a2 + p2 + c2);
    crate::text::lemma_contains_mid(a2, p2, c2);
}

} // verus!
