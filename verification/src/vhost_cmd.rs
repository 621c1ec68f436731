//! Turning a site form into a virtual host, the checks made before it is
//! written, the PHP versions offered in the form, when firewall rules are
//! opened and closed, and which sites have expired.

use vstd::prelude::*;
use crate::text::{chars_of, string_of, append, append_str, starts_with, lower, eq, eq_str};
use crate::num::decimal;
use crate::service::{ServiceInstance, ServiceKind};
use crate::vhost::{VirtualHost, SslConfig, VhostSource, strs, opt_view, result_view, spec_validate};
use crate::vhost_scan::{words, words_exec, php_dir_label, php_label_exec};
use crate::strangers::unicode_lower;
use crate::php::lex_le;

verus! {

/// The site form.
pub struct CreateVhostRequest {
    pub server_name: String,
    /// Aliases separated by whitespace.
    pub aliases: String,
    pub listen_port: u16,
    pub document_root: String,
    /// The label of the PHP instance, e.g. `php84nts`.
    pub php_version: Option<String>,
    pub index_files: String,
    pub rewrite_rule: String,
    pub autoindex: bool,
    pub ssl_cert: Option<String>,
    pub ssl_key: Option<String>,
    pub force_https: bool,
    pub custom_directives: Option<String>,
    pub access_log: Option<String>,
    pub sync_hosts: bool,
    pub expires_at: String,
}

/// The first PHP instance whose label is `label`.
pub open spec fn php_with_label(s: Seq<ServiceInstance>, label: Seq<char>) -> Option<int>
    decreases s.len(),
{
    if s.len() == 0 {
        None
    } else if s[0].kind == ServiceKind::Php && php_dir_label(s[0]) == label {
        Some(0)
    } else {
        match php_with_label(s.drop_first(), label) {
            Some(i) => Some(i + 1),
            None => None,
        }
    }
}

/// A non-empty text, else nothing.
pub open spec fn non_empty(o: Option<String>) -> Option<Seq<char>> {
    match o {
        Some(s) => if s@.len() > 0 { Some(s@) } else { None },
        None => None,
    }
}

/// `v` is the virtual host built from the form `req`, with the installed
/// `services` and the creation time `created_at`: its id is
/// `server_name_port`; the aliases are the words of the alias field; the
/// chosen PHP label leads to that instance's port and path (when
/// installed); SSL is on when both a certificate and a key are given;
/// empty index files fall back to the default; empty custom directives and
/// log path count as none; it is enabled and was made here.
pub open spec fn built_from(v: VirtualHost, req: CreateVhostRequest, services: Seq<ServiceInstance>, created_at: Seq<char>) -> bool {
    let php = match req.php_version {
        Some(p) => php_with_label(services, p@),
        None => None,
    };
    &&& v.id@ == req.server_name@ + "_"@ + decimal(req.listen_port as nat)
    &&& v.server_name@ == req.server_name@
    &&& strs(v.aliases@) == words(req.aliases@)
    &&& v.listen_port == req.listen_port
    &&& v.document_root@ == req.document_root@
    &&& opt_view(v.php_version) == opt_view(req.php_version)
    &&& v.php_fastcgi_port == (match php { Some(i) => Some(services[i].port), None => None })
    &&& opt_view(v.php_install_path) == (match php { Some(i) => Some(services[i].install_path@), None => None })
    &&& v.index_files@ == (if req.index_files@.len() == 0 { "index.php index.html"@ } else { req.index_files@ })
    &&& v.rewrite_rule@ == req.rewrite_rule@
    &&& v.autoindex == req.autoindex
    &&& match (non_empty(req.ssl_cert), non_empty(req.ssl_key)) {
        (Some(c), Some(k)) => v.ssl matches Some(s) && s.cert_path@ == c && s.key_path@ == k
            && s.force_https == req.force_https,
        _ => v.ssl is None,
    }
    &&& opt_view(v.custom_directives) == non_empty(req.custom_directives)
    &&& opt_view(v.access_log) == non_empty(req.access_log)
    &&& v.enabled
    &&& v.created_at@ == created_at
    &&& v.expires_at@ == req.expires_at@
    &&& v.sync_hosts == req.sync_hosts
    &&& v.source is Custom
}

proof fn lemma_php_with_label(s: Seq<ServiceInstance>, label: Seq<char>, i: int)
    requires
        0 <= i <= s.len(),
        forall|j: int| 0 <= j < i ==> !((#[trigger] s[j]).kind == ServiceKind::Php && php_dir_label(s[j]) == label),
    ensures
        i < s.len() && s[i].kind == ServiceKind::Php && php_dir_label(s[i]) == label ==> php_with_label(s, label) == Some(i),
        i == s.len() ==> php_with_label(s, label) is None,
    decreases i,
{
    if i > 0 {
        let t = s.drop_first();
        assert forall|j: int| 0 <= j < i - 1 implies !((#[trigger] t[j]).kind == ServiceKind::Php && php_dir_label(t[j]) == label) by {
            assert(t[j] == s[j + 1]);
        }
        assert(!(s[0].kind == ServiceKind::Php && php_dir_label(s[0]) == label));
        lemma_php_with_label(t, label, i - 1);
    }
}

fn find_php(services: &[ServiceInstance], label: &str) -> (r: Option<usize>)
    ensures
        match r {
            Some(i) => i < services.len() && php_with_label(services@, label@) == Some(i as int),
            None => php_with_label(services@, label@) is None,
        },
{
    let l = chars_of(label);
    let mut i: usize = 0;
    while i < services.len()
        invariant
            i <= services.len(),
            l@ == label@,
            forall|j: int| 0 <= j < i ==> !((#[trigger] services@[j]).kind == ServiceKind::Php && php_dir_label(services@[j]) == label@),
        decreases services.len() - i,
    {
        if services[i].kind == ServiceKind::Php && eq(&php_label_exec(&services[i]), &l) {
            proof {
                lemma_php_with_label(services@, label@, i as int);
            }
            return Some(i);
        }
        i += 1;
    }
    proof {
        lemma_php_with_label(services@, label@, i as int);
    }
    None
}

fn copy_opt(o: &Option<String>) -> (r: Option<String>)
    ensures
        opt_view(r) == opt_view(*o),
{
    match o {
        Some(s) => Some(s.clone()),
        None => None,
    }
}

fn non_empty_exec(o: &Option<String>) -> (r: Option<String>)
    ensures
        opt_view(r) == non_empty(*o),
{
    match o {
        Some(s) => if chars_of(s.as_str()).len() > 0 { Some(s.clone()) } else { None },
        None => None,
    }
}

/// The virtual host made from the site form, created at `created_at`.
pub fn build_vhost(req: &CreateVhostRequest, services: &[ServiceInstance], created_at: String) -> (v: VirtualHost)
    ensures
        built_from(v, *req, services@, created_at@),
{
    let words_v = words_exec(&chars_of(req.aliases.as_str()));
    let mut aliases: Vec<String> = Vec::new();
    let mut i: usize = 0;
    while i < words_v.len()
        invariant
            i <= words_v.len(),
            strs(aliases@) == crate::text::views(words_v@).take(i as int),
        decreases words_v.len() - i,
    {
        let ghost a0 = strs(aliases@);
        aliases.push(string_of(&words_v[i]));
        assert(strs(aliases@) =~= a0.push(words_v@[i as int]@));
        i += 1;
        assert(crate::text::views(words_v@).take(i as int) =~= crate::text::views(words_v@).take(
            (i - 1) as int,
        ).push(words_v@[i - 1]@));
    }
    assert(crate::text::views(words_v@).take(words_v.len() as int) =~= crate::text::views(words_v@));
    let mut id = chars_of(req.server_name.as_str());
    append_str(&mut id, "_");
    append_str(&mut id, crate::num::u64_to_string(req.listen_port as u64).as_str());
    let (port, path) = match &req.php_version {
        Some(p) => match find_php(services, p.as_str()) {
            Some(k) => (Some(services[k].port), Some(services[k].install_path.clone())),
            None => (None, None),
        },
        None => (None, None),
    };
    let cert = non_empty_exec(&req.ssl_cert);
    let key = non_empty_exec(&req.ssl_key);
    let ssl = match (cert, key) {
        (Some(c), Some(k)) => Some(SslConfig { cert_path: c, key_path: k, force_https: req.force_https }),
        _ => None,
    };
    let index_files = if chars_of(req.index_files.as_str()).len() == 0 {
        crate::vhost::default_index_files()
    } else {
        req.index_files.clone()
    };
    VirtualHost {
        id: string_of(&id),
        server_name: req.server_name.clone(),
        aliases,
        listen_port: req.listen_port,
        document_root: req.document_root.clone(),
        php_version: copy_opt(&req.php_version),
        php_fastcgi_port: port,
        php_install_path: path,
        index_files,
        rewrite_rule: req.rewrite_rule.clone(),
        autoindex: req.autoindex,
        ssl,
        custom_directives: non_empty_exec(&req.custom_directives),
        access_log: non_empty_exec(&req.access_log),
        enabled: true,
        created_at,
        expires_at: req.expires_at.clone(),
        sync_hosts: req.sync_hosts,
        source: VhostSource::Custom,
    }
}

/// Two ASCII digits at `i` and `i + 1`.
pub open spec fn two_digits(s: Seq<char>, i: int) -> bool {
    crate::num::is_digit(s[i]) && crate::num::is_digit(s[i + 1])
}

/// A date as chrono's `%Y-%m-%d` writes it: at least four year digits (a
/// year beyond four digits or before year 1 has a sign and more digits in
/// front), a dash, two month digits, a dash, two day digits.
pub open spec fn is_date_text(s: Seq<char>) -> bool {
    let n = s.len() as int;
    &&& n >= 10
    &&& two_digits(s, n - 10)
    &&& two_digits(s, n - 8)
    &&& s[n - 6] == '-'
    &&& two_digits(s, n - 5)
    &&& s[n - 3] == '-'
    &&& two_digits(s, n - 2)
}

/// A time stamp as chrono's `%Y-%m-%d %H:%M:%S` writes it: a date, a
/// space, then hours, minutes and seconds as two digits each, separated
/// by colons.
pub open spec fn is_timestamp_text(s: Seq<char>) -> bool {
    let n = s.len() as int;
    &&& n >= 19
    &&& is_date_text(s.take(n - 9))
    &&& s[n - 9] == ' '
    &&& two_digits(s, n - 8)
    &&& s[n - 6] == ':'
    &&& two_digits(s, n - 5)
    &&& s[n - 3] == ':'
    &&& two_digits(s, n - 2)
}

/// The local time as `YYYY-MM-DD HH:MM:SS` (`chrono::Local::now` formatted
/// with `%Y-%m-%d %H:%M:%S`). It depends on the clock and the time zone:
/// only its shape is stated (chrono pads every field but the year to two
/// digits and the year to at least four).
#[verifier::external_body]
fn local_timestamp() -> (r: String)
    ensures
        is_timestamp_text(r@),
{
    chrono::Local::now().format("%Y-%m-%d %H:%M:%S").to_string()
}

/// The local date as `YYYY-MM-DD` (`chrono::Local::now` formatted with
/// `%Y-%m-%d`). It depends on the clock and the time zone: only its shape
/// is stated.
#[verifier::external_body]
fn local_date() -> (r: String)
    ensures
        is_date_text(r@),
{
    chrono::Local::now().format("%Y-%m-%d").to_string()
}

/// The virtual host made from the site form now: as `build_vhost`, with
/// the creation time read from the local clock.
pub fn build_vhost_now(req: &CreateVhostRequest, services: &[ServiceInstance]) -> (v: VirtualHost)
    ensures
        exists|t: Seq<char>| built_from(v, *req, services@, t),
        is_timestamp_text(v.created_at@),
{
    let now = local_timestamp();
    let v = build_vhost(req, services, now);
    assert(built_from(v, *req, services@, v.created_at@));
    v
}

// ------------------------------------------------------------------
// The document root
// ------------------------------------------------------------------

/// A Windows absolute path: a drive letter, `:` and a separator, or a
/// path starting with two separators (a network share or `\\?\` form).
pub open spec fn win_absolute(p: Seq<char>) -> bool {
    ||| (p.len() >= 3 && (('A' <= p[0] && p[0] <= 'Z') || ('a' <= p[0] && p[0] <= 'z')) && p[1] == ':'
        && (p[2] == '\\' || p[2] == '/'))
    ||| (p.len() >= 2 && (p[0] == '\\' || p[0] == '/') && (p[1] == '\\' || p[1] == '/'))
}

/// The system directories no site may live in (lowercase, `/` separated).
pub open spec fn blocked_roots() -> Seq<Seq<char>> {
    seq![
        "c:/windows"@,
        "c:/program files"@,
        "c:/program files (x86)"@,
        "c:/programdata"@,
        "c:/$recycle.bin"@,
        "c:/boot"@,
        "c:/perflogs"@,
        "c:/system volume information"@,
    ]
}

/// `p` (lowercase, `/` separated) is a blocked directory or below one.
pub open spec fn in_blocked(p: Seq<char>) -> bool {
    exists|i: int| 0 <= i < blocked_roots().len() && (p == #[trigger] blocked_roots()[i]
        || starts_with(p, blocked_roots()[i] + "/"@))
}

/// The document root check: absolute, and not a system directory.
pub open spec fn spec_check_document_root(p: Seq<char>) -> Result<(), Seq<char>> {
    if !win_absolute(p) {
        Err("网站目录必须是绝对路径"@)
    } else if in_blocked(crate::text::replace_char(unicode_lower(p), '\\', '/')) {
        Err("不允许将网站目录设在系统路径下: "@ + p)
    } else {
        Ok(())
    }
}

/// The document root must be absolute and must not lie in a system
/// directory.
pub fn validate_document_root(p: &str) -> (r: Result<(), String>)
    ensures
        result_view(r) == spec_check_document_root(p@),
{
    let c = chars_of(p);
    let abs = (c.len() >= 3 && (('A' <= c[0] && c[0] <= 'Z') || ('a' <= c[0] && c[0] <= 'z')) && c[1] == ':'
        && (c[2] == '\\' || c[2] == '/')) || (c.len() >= 2 && (c[0] == '\\' || c[0] == '/') && (c[1]
        == '\\' || c[1] == '/'));
    if !abs {
        proof { reveal_strlit("网站目录必须是绝对路径"); }
        return Err(string_of(&chars_of("网站目录必须是绝对路径")));
    }
    let low = crate::strangers::to_lowercase(p);
    let s = crate::text::replace_char_exec(&chars_of(low.as_str()), '\\', '/');
    assert(win_absolute(p@));
    let blocked = vec![
        "c:/windows",
        "c:/program files",
        "c:/program files (x86)",
        "c:/programdata",
        "c:/$recycle.bin",
        "c:/boot",
        "c:/perflogs",
        "c:/system volume information",
    ];
    let ghost bv = blocked@.map_values(|b: &str| b@);
    assert(bv =~= blocked_roots());
    let mut i: usize = 0;
    while i < blocked.len()
        invariant
            i <= blocked.len(),
            bv == blocked@.map_values(|b: &str| b@),
            bv == blocked_roots(),
            win_absolute(p@),
            s@ == crate::text::replace_char(unicode_lower(p@), '\\', '/'),
            forall|j: int| 0 <= j < i ==> !(s@ == #[trigger] bv[j] || starts_with(s@, bv[j] + "/"@)),
        decreases blocked.len() - i,
    {
        assert(bv[i as int] == blocked@[i as int]@);
        let mut b1 = chars_of(blocked[i]);
        b1.push('/');
        proof {
            reveal_strlit("/");
            assert(b1@ =~= bv[i as int] + "/"@);
        }
        if eq_str(&s, blocked[i]) || crate::text::starts_with_chars(&s, &b1) {
            assert(blocked_roots()[i as int] == bv[i as int]);
            let mut m = chars_of("不允许将网站目录设在系统路径下: ");
            append_str(&mut m, p);
            return Err(string_of(&m));
        }
        i += 1;
    }
    assert(!in_blocked(s@));
    Ok(())
}

/// The checks before a site is written: its fields, then its document root.
pub fn prevalidate_vhost(v: &VirtualHost) -> (r: Result<(), String>)
    ensures
        result_view(r) == match spec_validate(
            v.server_name@,
            strs(v.aliases@),
            v.index_files@,
            opt_view(v.access_log),
            opt_view(v.custom_directives),
        ) {
            Ok(()) => spec_check_document_root(v.document_root@),
            Err(e) => Err(e),
        },
{
    match v.validate() {
        Ok(()) => validate_document_root(v.document_root.as_str()),
        Err(e) => Err(e),
    }
}

// ------------------------------------------------------------------
// PHP versions offered in the form
// ------------------------------------------------------------------

/// One PHP version offered in the form.
pub struct PhpVersionInfo {
    pub label: String,
    pub version: String,
    pub port: u16,
    pub install_path: String,
}

/// The label shown for a PHP instance: `PHP 8.4.2`, with the variant in
/// brackets when there is one.
pub open spec fn php_display_label(s: ServiceInstance) -> Seq<char> {
    match s.variant {
        Some(w) => "PHP "@ + s.version@ + " ("@ + w@ + ")"@,
        None => "PHP "@ + s.version@,
    }
}

/// The PHP versions offered, one per PHP instance, in order.
pub open spec fn spec_php_versions(s: Seq<ServiceInstance>) -> Seq<(Seq<char>, Seq<char>, u16, Seq<char>)>
    decreases s.len(),
{
    if s.len() == 0 {
        Seq::empty()
    } else {
        let prev = spec_php_versions(s.drop_last());
        let x = s.last();
        if x.kind == ServiceKind::Php {
            prev.push((php_display_label(x), php_dir_label(x), x.port, x.install_path@))
        } else {
            prev
        }
    }
}

/// The PHP versions offered in the form.
pub fn php_versions(services: &[ServiceInstance]) -> (r: Vec<PhpVersionInfo>)
    ensures
        r@.map_values(|p: PhpVersionInfo| (p.label@, p.version@, p.port, p.install_path@)) == spec_php_versions(services@),
{
    let mut r: Vec<PhpVersionInfo> = Vec::new();
    let mut i: usize = 0;
    while i < services.len()
        invariant
            i <= services.len(),
            r@.map_values(|p: PhpVersionInfo| (p.label@, p.version@, p.port, p.install_path@)) == spec_php_versions(
                services@.take(i as int),
            ),
        decreases services.len() - i,
    {
        let s = &services[i];
        assert(services@.take(i + 1).drop_last() =~= services@.take(i as int));
        assert(services@.take(i + 1).last() == services@[i as int]);
        if s.kind == ServiceKind::Php {
            let mut label = chars_of("PHP ");
            append_str(&mut label, s.version.as_str());
            match &s.variant {
                Some(w) => {
                    append_str(&mut label, " (");
                    append_str(&mut label, w.as_str());
                    append_str(&mut label, ")");
                },
                None => {},
            }
            let ghost r0 = r@.map_values(|p: PhpVersionInfo| (p.label@, p.version@, p.port, p.install_path@));
            let info = PhpVersionInfo {
                label: string_of(&label),
                version: string_of(&php_label_exec(s)),
                port: s.port,
                install_path: s.install_path.clone(),
            };
            r.push(info);
            assert(r@.map_values(|p: PhpVersionInfo| (p.label@, p.version@, p.port, p.install_path@)) =~= r0.push(
                (php_display_label(*s), php_dir_label(*s), s.port, s.install_path@),
            ));
        }
        i += 1;
    }
    assert(services@.take(services.len() as int) =~= services@);
    r
}

// ------------------------------------------------------------------
// Firewall rules and expiry
// ------------------------------------------------------------------

/// A site's port gets a firewall rule unless it is 80, which the web
/// server's first run already asked about.
pub fn should_open_firewall(port: u16) -> (r: bool)
    ensures
        r == (port != 80),
{
    port != 80
}

/// A port's firewall rule is removed when it is not 80 and no remaining
/// site listens on it.
pub fn should_close_firewall(port: u16, remaining: &[VirtualHost]) -> (r: bool)
    ensures
        r == (port != 80 && forall|i: int| 0 <= i < remaining.len() ==> (#[trigger] remaining@[i]).listen_port != port),
{
    if port == 80 {
        return false;
    }
    let mut i: usize = 0;
    while i < remaining.len()
        invariant
            i <= remaining.len(),
            forall|j: int| 0 <= j < i ==> (#[trigger] remaining@[j]).listen_port != port,
        decreases remaining.len() - i,
    {
        if remaining[i].listen_port == port {
            return false;
        }
        i += 1;
    }
    true
}

/// A site has expired on `today` (`YYYY-MM-DD`): it is enabled, has an
/// expiry date, and that date is not after today.
pub open spec fn is_expired(v: VirtualHost, today: Seq<char>) -> bool {
    v.enabled && v.expires_at@.len() > 0 && lex_le(v.expires_at@, today)
}

/// Disables every expired site; returns the indices disabled, in order.
pub fn disable_expired(vhosts: &mut Vec<VirtualHost>, today: &str) -> (r: Vec<usize>)
    ensures
        final(vhosts)@.len() == old(vhosts)@.len(),
        forall|i: int| 0 <= i < old(vhosts)@.len() ==> (#[trigger] final(vhosts)@[i]).enabled == (old(vhosts)@[i].enabled
            && !is_expired(old(vhosts)@[i], today@)),
        forall|k: int| 0 <= k < r@.len() ==> r@[k] < old(vhosts)@.len() && is_expired(old(vhosts)@[r@[k] as int], today@),
        forall|i: int| 0 <= i < old(vhosts)@.len() && is_expired(old(vhosts)@[i], today@) ==> r@.contains(i as usize),
{
    let t = chars_of(today);
    let ghost v0 = vhosts@;
    let mut r: Vec<usize> = Vec::new();
    let mut i: usize = 0;
    while i < vhosts.len()
        invariant
            i <= vhosts.len(),
            vhosts@.len() == v0.len(),
            t@ == today@,
            forall|j: int| i <= j < v0.len() ==> #[trigger] vhosts@[j] == v0[j],
            forall|j: int| 0 <= j < i ==> (#[trigger] vhosts@[j]).enabled == (v0[j].enabled && !is_expired(v0[j], today@)),
            forall|k: int| 0 <= k < r@.len() ==> r@[k] < i && is_expired(v0[r@[k] as int], today@),
            forall|j: int| 0 <= j < i && is_expired(v0[j], today@) ==> r@.contains(j as usize),
        decreases vhosts.len() - i,
    {
        let exp = vhosts[i].enabled && chars_of(vhosts[i].expires_at.as_str()).len() > 0
            && crate::php::lex_le_exec(&chars_of(vhosts[i].expires_at.as_str()), &t);
        if exp {
            let mut v = vhosts.remove(i);
            v.enabled = false;
            vhosts.insert(i, v);
            let ghost r0 = r@;
            r.push(i);
            assert(r@[r@.len() - 1] == i);
            assert forall|j: int| 0 <= j < i + 1 && is_expired(v0[j], today@) implies r@.contains(j as usize) by {
                if j < i {
                    assert(r0.contains(j as usize));
                    let k = choose|k: int| 0 <= k < r0.len() && r0[k] == j as usize;
                    assert(r@[k] == j as usize);
                } else {
                    assert(r@[r@.len() - 1] == j as usize);
                }
            }
        }
        i += 1;
    }
    r
}

/// The local date used to find expired sites, as `YYYY-MM-DD`.
pub fn today() -> (r: String)
    ensures
        is_date_text(r@),
{
    local_date()
}

/// The detail line logged for a created site.
pub open spec fn spec_created_details(v: VirtualHost) -> Seq<char> {
    "文档根: "@ + v.document_root@ + "\nPHP: "@ + (match v.php_version { Some(p) => p@, None => "无"@ })
        + "\n伪静态: "@ + (if v.rewrite_rule@.len() == 0 { "无"@ } else { "已设置"@ })
        + "\nSSL: "@ + (if v.ssl is Some { "已启用"@ } else { "未启用"@ })
}

/// The detail line logged for a created site.
pub fn created_details(v: &VirtualHost) -> (r: String)
    ensures
        r@ == spec_created_details(*v),
{
    let mut m = chars_of("文档根: ");
    append_str(&mut m, v.document_root.as_str());
    append_str(&mut m, "\nPHP: ");
    match &v.php_version {
        Some(p) => append_str(&mut m, p.as_str()),
        None => append_str(&mut m, "无"),
    }
    append_str(&mut m, "\n伪静态: ");
    if chars_of(v.rewrite_rule.as_str()).len() == 0 {
        append_str(&mut m, "无");
    } else {
        append_str(&mut m, "已设置");
    }
    append_str(&mut m, "\nSSL: ");
    if v.ssl.is_some() {
        append_str(&mut m, "已启用");
    } else {
        append_str(&mut m, "未启用");
    }
    string_of(&m)
}

} // verus!

verus! {

// ------------------------------------------------------------------
// Where site configurations are written
// ------------------------------------------------------------------

/// The first directory entry whose name starts with `prefix`.
pub open spec fn first_ext_dir(es: Seq<crate::scanner::DirEntryInfo>, prefix: Seq<char>) -> Option<int>
    decreases es.len(),
{
    if es.len() == 0 {
        None
    } else if es[0].is_dir && starts_with(es[0].name@, prefix) {
        Some(0)
    } else {
        match first_ext_dir(es.drop_first(), prefix) {
            Some(i) => Some(i + 1),
            None => None,
        }
    }
}

proof fn lemma_first_ext_dir(es: Seq<crate::scanner::DirEntryInfo>, prefix: Seq<char>, i: int)
    requires
        0 <= i <= es.len(),
        forall|j: int| 0 <= j < i ==> !((#[trigger] es[j]).is_dir && starts_with(es[j].name@, prefix)),
    ensures
        i < es.len() && es[i].is_dir && starts_with(es[i].name@, prefix) ==> first_ext_dir(es, prefix) == Some(i),
        i == es.len() ==> first_ext_dir(es, prefix) is None,
    decreases i,
{
    if i > 0 {
        let t = es.drop_first();
        assert forall|j: int| 0 <= j < i - 1 implies !((#[trigger] t[j]).is_dir && starts_with(t[j].name@, prefix)) by {
            assert(t[j] == es[j + 1]);
        }
        assert(!(es[0].is_dir && starts_with(es[0].name@, prefix)));
        lemma_first_ext_dir(t, prefix, i - 1);
    }
}

/// The path of the first directory in a listing whose name starts with
/// `prefix` (case-sensitive).
pub fn find_extension_dir(entries: &Vec<crate::scanner::DirEntryInfo>, prefix: &str) -> (r: Option<String>)
    ensures
        match first_ext_dir(entries@, prefix@) {
            Some(i) => r matches Some(p) && p@ == entries@[i].path@,
            None => r is None,
        },
{
    let pc = chars_of(prefix);
    let mut i: usize = 0;
    while i < entries.len()
        invariant
            i <= entries.len(),
            pc@ == prefix@,
            forall|j: int| 0 <= j < i ==> !((#[trigger] entries@[j]).is_dir && starts_with(entries@[j].name@, prefix@)),
        decreases entries.len() - i,
    {
        if entries[i].is_dir && crate::text::starts_with_chars(&chars_of(entries[i].name.as_str()), &pc) {
            proof {
                lemma_first_ext_dir(entries@, prefix@, i as int);
            }
            return Some(entries[i].path.clone());
        }
        i += 1;
    }
    proof {
        lemma_first_ext_dir(entries@, prefix@, i as int);
    }
    None
}

/// Where site configurations go.
pub struct VhostDirs {
    pub nginx_vhosts: Option<String>,
    pub apache_vhosts: Option<String>,
    pub apache_listen: Option<String>,
}

/// The install path of the first service of kind `k`.
pub open spec fn first_of_kind(s: Seq<ServiceInstance>, k: ServiceKind) -> Option<int>
    decreases s.len(),
{
    if s.len() == 0 {
        None
    } else if s[0].kind == k {
        Some(0)
    } else {
        match first_of_kind(s.drop_first(), k) {
            Some(i) => Some(i + 1),
            None => None,
        }
    }
}

/// The web server directory used for kind `k`: the first such service's
/// install path, else the first PHPStudy extension directory named after
/// it (`prefix`), when a listing is given.
pub open spec fn web_dir(
    s: Seq<ServiceInstance>,
    k: ServiceKind,
    ext: Option<Seq<crate::scanner::DirEntryInfo>>,
    prefix: Seq<char>,
) -> Option<Seq<char>> {
    match first_of_kind(s, k) {
        Some(i) => Some(s[i].install_path@),
        None => match ext {
            Some(es) => match first_ext_dir(es, prefix) {
                Some(j) => Some(es[j].path@),
                None => None,
            },
            None => None,
        },
    }
}

proof fn lemma_first_of_kind(s: Seq<ServiceInstance>, k: ServiceKind, i: int)
    requires
        0 <= i <= s.len(),
        forall|j: int| 0 <= j < i ==> (#[trigger] s[j]).kind != k,
    ensures
        i < s.len() && s[i].kind == k ==> first_of_kind(s, k) == Some(i),
        i == s.len() ==> first_of_kind(s, k) is None,
    decreases i,
{
    if i > 0 {
        let t = s.drop_first();
        assert forall|j: int| 0 <= j < i - 1 implies (#[trigger] t[j]).kind != k by {
            assert(t[j] == s[j + 1]);
        }
        lemma_first_of_kind(t, k, i - 1);
    }
}

fn web_dir_exec(
    services: &[ServiceInstance],
    k: ServiceKind,
    ext: Option<&Vec<crate::scanner::DirEntryInfo>>,
    prefix: &str,
) -> (r: Option<String>)
    ensures
        opt_view(r) == web_dir(services@, k, match ext { Some(e) => Some(e@), None => None }, prefix@),
{
    let mut i: usize = 0;
    while i < services.len()
        invariant
            i <= services.len(),
            forall|j: int| 0 <= j < i ==> (#[trigger] services@[j]).kind != k,
        decreases services.len() - i,
    {
        if services[i].kind == k {
            proof {
                lemma_first_of_kind(services@, k, i as int);
            }
            return Some(services[i].install_path.clone());
        }
        i += 1;
    }
    proof {
        lemma_first_of_kind(services@, k, i as int);
    }
    match ext {
        Some(es) => find_extension_dir(es, prefix),
        None => None,
    }
}

/// `<dir>\conf\vhosts`.
pub open spec fn vhosts_dir_of(dir: Seq<char>) -> Seq<char> {
    crate::paths::win_join(crate::paths::win_join(dir, "conf"@), "vhosts"@)
}

fn vd(d: &String) -> (r: Vec<char>)
    ensures
        r@ == vhosts_dir_of(d@),
{
    proof {
        reveal_strlit("conf");
        reveal_strlit("vhosts");
    }
    let c = crate::paths::win_join_exec(&chars_of(d.as_str()), &chars_of("conf"));
    crate::paths::win_join_exec(&c, &chars_of("vhosts"))
}

/// Where site configurations go: the `conf\vhosts` directories of the
/// Nginx and Apache in use (and Apache's `Listen.conf` there), found among
/// the services or else in the PHPStudy extension listing; refused when
/// neither web server is found.
pub fn resolve_dirs(services: &[ServiceInstance], phpstudy_ext: Option<&Vec<crate::scanner::DirEntryInfo>>) -> (r: Result<VhostDirs, String>)
    ensures
        ({
            let ext = match phpstudy_ext { Some(e) => Some(e@), None => None };
            let n = web_dir(services@, ServiceKind::Nginx, ext, "Nginx"@);
            let a = web_dir(services@, ServiceKind::Apache, ext, "Apache"@);
            if n is None && a is None {
                r matches Err(m) && m@ == "未检测到可用的 Web 服务器，请先安装或扫描 Nginx / Apache"@
            } else {
                r matches Ok(d)
                    && opt_view(d.nginx_vhosts) == (match n { Some(x) => Some(vhosts_dir_of(x)), None => None })
                    && opt_view(d.apache_vhosts) == (match a { Some(x) => Some(vhosts_dir_of(x)), None => None })
                    && opt_view(d.apache_listen) == (match a {
                        Some(x) => Some(crate::paths::win_join(vhosts_dir_of(x), "Listen.conf"@)),
                        None => None,
                    })
            }
        }),
{
    proof {
        reveal_strlit("conf");
        reveal_strlit("vhosts");
        reveal_strlit("Listen.conf");
    }
    let n = web_dir_exec(services, ServiceKind::Nginx, phpstudy_ext, "Nginx");
    let a = web_dir_exec(services, ServiceKind::Apache, phpstudy_ext, "Apache");
    if n.is_none() && a.is_none() {
        proof {
            reveal_strlit("未检测到可用的 Web 服务器，请先安装或扫描 Nginx / Apache");
        }
        return Err(string_of(&chars_of("未检测到可用的 Web 服务器，请先安装或扫描 Nginx / Apache")));
    }
    let nginx_vhosts = match &n {
        Some(d) => Some(string_of(&vd(d))),
        None => None,
    };
    let (apache_vhosts, apache_listen) = match &a {
        Some(d) => {
            let v = vd(d);
            let l = crate::paths::win_join_exec(&v, &chars_of("Listen.conf"));
            (Some(string_of(&v)), Some(string_of(&l)))
        },
        None => (None, None),
    };
    Ok(VhostDirs { nginx_vhosts, apache_vhosts, apache_listen })
}

} // verus!

verus! {

/// A site as the sites page shows it.
pub struct VhostInfo {
    pub id: String,
    pub server_name: String,
    pub aliases: Vec<String>,
    pub listen_port: u16,
    pub document_root: String,
    pub php_version: Option<String>,
    pub index_files: String,
    pub rewrite_rule: String,
    pub autoindex: bool,
    pub has_ssl: bool,
    pub ssl_cert: String,
    pub ssl_key: String,
    pub force_https: bool,
    pub custom_directives: String,
    pub access_log: String,
    pub enabled: bool,
    pub created_at: String,
    pub expires_at: String,
    /// `phpstudy`, `custom` or `standalone`.
    pub source: String,
    /// The package name of a standalone site.
    pub source_name: Option<String>,
}

/// `i` is how the sites page shows `v`: unset texts show as empty, the
/// origin as its name.
pub open spec fn info_of(v: VirtualHost, i: VhostInfo) -> bool {
    &&& i.id@ == v.id@
    &&& i.server_name@ == v.server_name@
    &&& strs(i.aliases@) == strs(v.aliases@)
    &&& i.listen_port == v.listen_port
    &&& i.document_root@ == v.document_root@
    &&& opt_view(i.php_version) == opt_view(v.php_version)
    &&& i.index_files@ == v.index_files@
    &&& i.rewrite_rule@ == v.rewrite_rule@
    &&& i.autoindex == v.autoindex
    &&& i.has_ssl == (v.ssl is Some)
    &&& i.ssl_cert@ == (match v.ssl { Some(s) => s.cert_path@, None => Seq::empty() })
    &&& i.ssl_key@ == (match v.ssl { Some(s) => s.key_path@, None => Seq::empty() })
    &&& i.force_https == (match v.ssl { Some(s) => s.force_https, None => false })
    &&& i.custom_directives@ == crate::settings::or_empty(v.custom_directives)
    &&& i.access_log@ == crate::settings::or_empty(v.access_log)
    &&& i.enabled == v.enabled
    &&& i.created_at@ == v.created_at@
    &&& i.expires_at@ == v.expires_at@
    &&& i.source@ == (match v.source {
        VhostSource::PhpStudy => "phpstudy"@,
        VhostSource::Custom => "custom"@,
        VhostSource::Standalone(_) => "standalone"@,
    })
    &&& opt_view(i.source_name) == (match v.source { VhostSource::Standalone(n) => Some(n@), _ => None })
}

fn copy_strs(v: &Vec<String>) -> (r: Vec<String>)
    ensures
        strs(r@) == strs(v@),
{
    let mut r: Vec<String> = Vec::new();
    let mut i: usize = 0;
    while i < v.len()
        invariant
            i <= v.len(),
            strs(r@) == strs(v@).take(i as int),
        decreases v.len() - i,
    {
        let ghost r0 = strs(r@);
        r.push(v[i].clone());
        assert(strs(r@) =~= r0.push(v@[i as int]@));
        i += 1;
        assert(strs(v@).take(i as int) =~= strs(v@).take((i - 1) as int).push(v@[i - 1]@));
    }
    assert(strs(v@).take(v.len() as int) =~= strs(v@));
    r
}

fn or_empty_exec(o: &Option<String>) -> (r: String)
    ensures
        r@ == crate::settings::or_empty(*o),
{
    match o {
        Some(s) => s.clone(),
        None => String::new(),
    }
}

/// How the sites page shows a site.
pub fn vhost_info(v: &VirtualHost) -> (i: VhostInfo)
    ensures
        info_of(*v, i),
{
    proof {
        reveal_strlit("phpstudy");
        reveal_strlit("custom");
        reveal_strlit("standalone");
    }
    let (source, source_name) = match &v.source {
        VhostSource::PhpStudy => (string_of(&chars_of("phpstudy")), None),
        VhostSource::Custom => (string_of(&chars_of("custom")), None),
        VhostSource::Standalone(n) => (string_of(&chars_of("standalone")), Some(n.clone())),
    };
    let (has_ssl, ssl_cert, ssl_key, force_https) = match &v.ssl {
        Some(s) => (true, s.cert_path.clone(), s.key_path.clone(), s.force_https),
        None => (false, String::new(), String::new(), false),
    };
    VhostInfo {
        id: v.id.clone(),
        server_name: v.server_name.clone(),
        aliases: copy_strs(&v.aliases),
        listen_port: v.listen_port,
        document_root: v.document_root.clone(),
        php_version: copy_opt(&v.php_version),
        index_files: v.index_files.clone(),
        rewrite_rule: v.rewrite_rule.clone(),
        autoindex: v.autoindex,
        has_ssl,
        ssl_cert,
        ssl_key,
        force_https,
        custom_directives: or_empty_exec(&v.custom_directives),
        access_log: or_empty_exec(&v.access_log),
        enabled: v.enabled,
        created_at: v.created_at.clone(),
        expires_at: v.expires_at.clone(),
        source,
        source_name,
    }
}

/// How the sites page shows each site, in order.
pub fn vhost_infos(vs: &Vec<VirtualHost>) -> (r: Vec<VhostInfo>)
    ensures
        r@.len() == vs@.len(),
        forall|k: int| 0 <= k < vs@.len() ==> info_of(vs@[k], #[trigger] r@[k]),
{
    let mut r: Vec<VhostInfo> = Vec::new();
    let mut k: usize = 0;
    while k < vs.len()
        invariant
            k <= vs.len(),
            r@.len() == k,
            forall|j: int| 0 <= j < k ==> info_of(vs@[j], #[trigger] r@[j]),
        decreases vs.len() - k,
    {
        r.push(vhost_info(&vs[k]));
        k += 1;
    }
    r
}

} // verus!
