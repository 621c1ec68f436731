//! Choosing the PHP that runs PIE, the PHP extension installer: PIE needs
//! PHP 8.1 or later.

use vstd::prelude::*;
use crate::text::{chars_of, split_char, string_of, starts_with, views};
use crate::num::parse_unsigned;
use crate::service::{ServiceInstance, ServiceKind, ServiceOrigin};

verus! {

/// A PHP extension found on Packagist.
pub struct PieExtensionInfo {
    pub name: String,
    pub description: String,
}

/// The PHP that runs PIE, when there is one.
pub struct PieRuntimeInfo {
    pub runtime_php_path: Option<String>,
    pub runtime_version: Option<String>,
}

/// `8.1.10` → (8, 1): the first two dot-separated segments as `u32`s.
pub open spec fn spec_parse_version(v: Seq<char>) -> Option<(nat, nat)> {
    let ps = split_char(v, '.');
    if ps.len() >= 2 && parse_unsigned(ps[0], 4294967295) is Some && parse_unsigned(ps[1], 4294967295) is Some {
        Some((parse_unsigned(ps[0], 4294967295)->0, parse_unsigned(ps[1], 4294967295)->0))
    } else {
        None
    }
}

/// The major and minor version of a PHP version text.
pub fn parse_version(v: &str) -> (r: Option<(u32, u32)>)
    ensures
        match r {
            Some((a, b)) => spec_parse_version(v@) == Some((a as nat, b as nat)),
            None => spec_parse_version(v@) is None,
        },
{
    let c = chars_of(v);
    let ps = crate::text::split_char_exec(&c, '.');
    proof {
        crate::text::lemma_split_char_len(c@, '.');
    }
    assert(views(ps@)[0] == ps@[0]@);
    let major = match crate::num::parse_unsigned_exec(&ps[0], 0xffff_ffff) {
        Some(n) => n,
        None => {
            return None;
        },
    };
    if ps.len() < 2 {
        return None;
    }
    assert(views(ps@)[1] == ps@[1]@);
    let minor = match crate::num::parse_unsigned_exec(&ps[1], 0xffff_ffff) {
        Some(n) => n,
        None => {
            return None;
        },
    };
    Some((major as u32, minor as u32))
}

/// (a, b) ≥ (c, d) in tuple order.
pub open spec fn ver_ge(x: (nat, nat), y: (nat, nat)) -> bool {
    x.0 > y.0 || (x.0 == y.0 && x.1 >= y.1)
}

/// A PHP of 8.1 or later, and, when `store_only`, installed from the store.
pub open spec fn pie_candidate(s: ServiceInstance, store_only: bool) -> bool {
    &&& s.kind == ServiceKind::Php
    &&& spec_parse_version(s.version@) matches Some(v) && ver_ge(v, (8, 1))
    &&& store_only ==> s.origin == ServiceOrigin::Store
}

/// The candidate with the highest version; of equal versions the later
/// one.
pub open spec fn best_candidate(s: Seq<ServiceInstance>, store_only: bool) -> Option<int>
    decreases s.len(),
{
    if s.len() == 0 {
        None
    } else {
        let r = best_candidate(s.drop_last(), store_only);
        let x = s.last();
        if !pie_candidate(x, store_only) {
            r
        } else {
            match r {
                None => Some(s.len() - 1),
                Some(j) => if ver_ge(
                    spec_parse_version(x.version@)->0,
                    spec_parse_version(s[j].version@)->0,
                ) {
                    Some(s.len() - 1)
                } else {
                    r
                },
            }
        }
    }
}

/// The PHP to run PIE with: the newest store-installed one, else the
/// newest of any origin.
pub open spec fn spec_pie_runtime(s: Seq<ServiceInstance>) -> Option<int> {
    match best_candidate(s, true) {
        Some(i) => Some(i),
        None => best_candidate(s, false),
    }
}

proof fn lemma_best_in_range(s: Seq<ServiceInstance>, store_only: bool)
    ensures
        best_candidate(s, store_only) matches Some(i) ==> 0 <= i < s.len() && pie_candidate(s[i], store_only),
    decreases s.len(),
{
    if s.len() > 0 {
        lemma_best_in_range(s.drop_last(), store_only);
        let r = best_candidate(s.drop_last(), store_only);
        if let Some(j) = r {
            assert(s.drop_last()[j] == s[j]);
        }
    }
}

fn best_exec(s: &Vec<ServiceInstance>, store_only: bool) -> (r: Option<usize>)
    ensures
        match r {
            Some(i) => best_candidate(s@, store_only) == Some(i as int),
            None => best_candidate(s@, store_only) is None,
        },
{
    let mut best: Option<usize> = None;
    let mut best_v: (u32, u32) = (0, 0);
    let mut i: usize = 0;
    while i < s.len()
        invariant
            i <= s.len(),
            match best {
                Some(j) => best_candidate(s@.take(i as int), store_only) == Some(j as int) && j < i
                    && spec_parse_version(s@[j as int].version@) == Some((best_v.0 as nat, best_v.1 as nat)),
                None => best_candidate(s@.take(i as int), store_only) is None,
            },
        decreases s.len() - i,
    {
        let ghost pre = s@.take(i as int);
        assert(s@.take(i + 1).drop_last() == pre);
        assert(s@.take(i + 1).last() == s@[i as int]);
        let x = &s[i];
        let ok_kind = x.kind == ServiceKind::Php && (!store_only || x.origin == ServiceOrigin::Store);
        if ok_kind {
            match parse_version(x.version.as_str()) {
                Some(v) => {
                    if v.0 > 8 || (v.0 == 8 && v.1 >= 1) {
                        match best {
                            None => {
                                best = Some(i);
                                best_v = v;
                            },
                            Some(j) => {
                                proof {
                                    assert(pre[j as int] == s@[j as int]);
                                }
                                if v.0 > best_v.0 || (v.0 == best_v.0 && v.1 >= best_v.1) {
                                    best = Some(i);
                                    best_v = v;
                                }
                            },
                        }
                    }
                },
                None => {},
            }
        }
        proof {
            if let Some(j) = best {
                if j < i {
                    assert(s@.take(i + 1)[j as int] == s@[j as int]);
                }
            }
        }
        i += 1;
    }
    assert(s@.take(s.len() as int) == s@);
    best
}

/// The install path and version of the PHP to run PIE with (see
/// `spec_pie_runtime`).
pub fn find_pie_runtime(services: &Vec<ServiceInstance>) -> (r: Option<(String, String)>)
    ensures
        match r {
            Some((p, v)) => spec_pie_runtime(services@) matches Some(i) && 0 <= i < services@.len()
                && p@ == services@[i].install_path@ && v@ == services@[i].version@,
            None => spec_pie_runtime(services@) is None,
        },
{
    let i = match best_exec(services, true) {
        Some(i) => i,
        None => match best_exec(services, false) {
            Some(i) => i,
            None => {
                return None;
            },
        },
    };
    proof {
        lemma_best_in_range(services@, true);
        lemma_best_in_range(services@, false);
    }
    Some((services[i].install_path.clone(), services[i].version.clone()))
}

/// What the extension page shows of the PIE runtime.
pub fn pie_runtime_info(services: &Vec<ServiceInstance>) -> (r: PieRuntimeInfo)
    ensures
        match spec_pie_runtime(services@) {
            Some(i) => r.runtime_php_path matches Some(p) && r.runtime_version matches Some(v)
                && p@ == services@[i].install_path@ && v@ == services@[i].version@,
            None => r.runtime_php_path is None && r.runtime_version is None,
        },
{
    match find_pie_runtime(services) {
        Some((p, v)) => PieRuntimeInfo { runtime_php_path: Some(p), runtime_version: Some(v) },
        None => PieRuntimeInfo { runtime_php_path: None, runtime_version: None },
    }
}

/// A path without the `\\?\` verbatim prefix, which PHP's phar streams
/// do not understand.
pub fn strip_verbatim(p: &str) -> (r: String)
    ensures
        r@ == (if starts_with(p@, "\\\\?\\"@) { p@.skip(4) } else { p@ }),
{
    proof {
        reveal_strlit("\\\\?\\");
    }
    let c = chars_of(p);
    if crate::text::starts_with_str(&c, "\\\\?\\") {
        string_of(&crate::text::slice_of(&c, 4, c.len()))
    } else {
        string_of(&c)
    }
}

} // verus!

verus! {

// ------------------------------------------------------------------
// Running `pie install`
// ------------------------------------------------------------------

/// The extensions enabled for the PHP that runs PIE, whatever its ini says.
pub open spec fn pie_required_exts() -> Seq<Seq<char>> {
    seq!["openssl"@, "curl"@, "mbstring"@, "fileinfo"@, "zip"@, "intl"@]
}

/// `-d extension=<e>` for each required extension, in order.
pub open spec fn ext_args(exts: Seq<Seq<char>>) -> Seq<Seq<char>>
    decreases exts.len(),
{
    if exts.len() == 0 {
        Seq::empty()
    } else {
        ext_args(exts.drop_last()) + seq!["-d"@, "extension="@ + exts.last()]
    }
}

/// The arguments before the extension switches: the runtime's ini when it
/// has one, and its `ext` directory.
pub open spec fn pie_head_args(runtime_php: Seq<char>, runtime_ini_exists: bool) -> Seq<Seq<char>> {
    (if runtime_ini_exists { seq!["-c"@, crate::paths::win_join(runtime_php, "php.ini"@)] } else { Seq::empty() })
        + seq!["-d"@, "extension_dir="@ + crate::paths::win_join(runtime_php, "ext"@)]
}

/// The arguments after the extension switches.
pub open spec fn pie_tail_args(phar: Seq<char>, package: Seq<char>, target_php: Seq<char>) -> Seq<Seq<char>> {
    seq![phar, "install"@, package, "--with-php-path="@ + crate::paths::win_join(target_php, "php.exe"@), "--no-interaction"@]
}

/// The command line of `pie install`: the runtime PHP (pointed at its own
/// ini when it has one, at its own `ext` directory, with the extensions PIE
/// needs), then the archive, the package and the target PHP.
pub open spec fn spec_pie_install_cmd(
    runtime_php: Seq<char>,
    runtime_ini_exists: bool,
    phar: Seq<char>,
    package: Seq<char>,
    target_php: Seq<char>,
) -> (Seq<char>, Seq<Seq<char>>) {
    (
        crate::paths::win_join(runtime_php, "php.exe"@),
        pie_head_args(runtime_php, runtime_ini_exists) + ext_args(pie_required_exts()) + pie_tail_args(
            phar,
            package,
            target_php,
        ),
    )
}

fn lit(s: &str) -> (r: String)
    ensures
        r@ == s@,
{
    string_of(&chars_of(s))
}

fn joined(a: &str, b: &str) -> (r: Vec<char>)
    ensures
        r@ == crate::paths::win_join(a@, b@),
{
    crate::paths::win_join_exec(&chars_of(a), &chars_of(b))
}

/// The program and arguments of `pie install`.
pub fn pie_install_cmd(runtime_php: &str, runtime_ini_exists: bool, phar: &str, package: &str, target_php: &str) -> (r: (String, Vec<String>))
    ensures
        (r.0@, crate::ssl_cert::string_views(r.1@)) == spec_pie_install_cmd(
            runtime_php@,
            runtime_ini_exists,
            phar@,
            package@,
            target_php@,
        ),
{
    proof {
        reveal_strlit("php.exe");
        reveal_strlit("php.ini");
        reveal_strlit("ext");
        reveal_strlit("-c");
        reveal_strlit("-d");
        reveal_strlit("extension_dir=");
        reveal_strlit("extension=");
        reveal_strlit("install");
        reveal_strlit("--with-php-path=");
        reveal_strlit("--no-interaction");
        reveal_strlit("openssl");
        reveal_strlit("curl");
        reveal_strlit("mbstring");
        reveal_strlit("fileinfo");
        reveal_strlit("zip");
        reveal_strlit("intl");
    }
    let mut args: Vec<String> = Vec::new();
    if runtime_ini_exists {
        args.push(lit("-c"));
        args.push(string_of(&joined(runtime_php, "php.ini")));
    }
    args.push(lit("-d"));
    let mut ed = chars_of("extension_dir=");
    crate::text::append(&mut ed, &joined(runtime_php, "ext"));
    args.push(string_of(&ed));
    let ghost pre = crate::ssl_cert::string_views(args@);
    assert(pre =~= pie_head_args(runtime_php@, runtime_ini_exists));
    let exts = vec!["openssl", "curl", "mbstring", "fileinfo", "zip", "intl"];
    let ghost ev = exts@.map_values(|e: &str| e@);
    assert(ev =~= pie_required_exts());
    let mut i: usize = 0;
    while i < exts.len()
        invariant
            i <= exts.len(),
            ev == exts@.map_values(|e: &str| e@),
            crate::ssl_cert::string_views(args@) == pre + ext_args(ev.take(i as int)),
        decreases exts.len() - i,
    {
        assert(ev.take(i + 1).drop_last() =~= ev.take(i as int));
        assert(ev.take(i + 1).last() == exts@[i as int]@);
        let ghost a0 = crate::ssl_cert::string_views(args@);
        args.push(lit("-d"));
        let mut e = chars_of("extension=");
        crate::text::append_str(&mut e, exts[i]);
        args.push(string_of(&e));
        assert(crate::ssl_cert::string_views(args@) =~= a0 + seq!["-d"@, "extension="@ + exts@[i as int]@]);
        i += 1;
    }
    assert(ev.take(exts.len() as int) =~= ev);
    let ghost mid = crate::ssl_cert::string_views(args@);
    args.push(lit(phar));
    args.push(lit("install"));
    args.push(lit(package));
    let mut w = chars_of("--with-php-path=");
    crate::text::append(&mut w, &joined(target_php, "php.exe"));
    args.push(string_of(&w));
    args.push(lit("--no-interaction"));
    assert(crate::ssl_cert::string_views(args@) =~= mid + pie_tail_args(phar@, package@, target_php@));
    let r = (string_of(&joined(runtime_php, "php.exe")), args);
    assert(crate::ssl_cert::string_views(r.1@) =~= spec_pie_install_cmd(
        runtime_php@,
        runtime_ini_exists,
        phar@,
        package@,
        target_php@,
    ).1);
    r
}

/// A plain-language reading of a failed PIE run, for the known causes.
pub open spec fn spec_humanize_pie_error(log: Seq<char>) -> Option<Seq<char>> {
    if crate::text::contains(log, "Could not find release by tag name"@) {
        Some("❌ 该扩展作者未在 GitHub release 上传 Windows 安装包，PIE 无法安装。\n建议：换其他扩展，或等待作者上传 Windows binary。"@)
    } else if crate::text::contains(log, "Windows archive with prebuilt extension"@)
        && crate::text::contains(log, "was not attached on release"@) {
        Some("❌ 该扩展未提供匹配你 PHP 版本的 Windows 安装包。\n建议：把目标 PHP 切到该扩展支持的版本（看 packagist 上的 README），或换其他扩展。"@)
    } else if crate::text::contains(log, "No package found:"@) {
        Some("❌ Packagist 找不到这个包名。检查包名是否写对（精选清单是验证过的，搜索结果可能不准）。"@)
    } else if crate::text::contains(log, "Composer detected issues in your platform"@) {
        Some("❌ PIE 检查 PHP 平台依赖失败。可能 runtime PHP 缺核心扩展（openssl/curl 等），NaxOne 已尝试覆盖但仍未通过。请检查 runtime PHP 的 ini。"@)
    } else {
        None
    }
}

fn lit_some(s: &str) -> (r: Option<String>)
    ensures
        r matches Some(x) && x@ == s@,
{
    Some(lit(s))
}

/// A plain-language reading of a failed PIE run's log, when the cause is
/// a known one.
pub fn humanize_pie_error(log: &str) -> (r: Option<String>)
    ensures
        match spec_humanize_pie_error(log@) {
            Some(m) => r matches Some(x) && x@ == m,
            None => r is None,
        },
{
    let c = chars_of(log);
    if crate::text::contains_str(&c, "Could not find release by tag name") {
        lit_some("❌ 该扩展作者未在 GitHub release 上传 Windows 安装包，PIE 无法安装。\n建议：换其他扩展，或等待作者上传 Windows binary。")
    } else if crate::text::contains_str(&c, "Windows archive with prebuilt extension")
        && crate::text::contains_str(&c, "was not attached on release") {
        lit_some("❌ 该扩展未提供匹配你 PHP 版本的 Windows 安装包。\n建议：把目标 PHP 切到该扩展支持的版本（看 packagist 上的 README），或换其他扩展。")
    } else if crate::text::contains_str(&c, "No package found:") {
        lit_some("❌ Packagist 找不到这个包名。检查包名是否写对（精选清单是验证过的，搜索结果可能不准）。")
    } else if crate::text::contains_str(&c, "Composer detected issues in your platform") {
        lit_some("❌ PIE 检查 PHP 平台依赖失败。可能 runtime PHP 缺核心扩展（openssl/curl 等），NaxOne 已尝试覆盖但仍未通过。请检查 runtime PHP 的 ini。")
    } else {
        None
    }
}

/// The outcome of a PIE run from its exit, its printed exit status and its
/// collected log: the trimmed log on success; on failure the plain reading
/// (when known) above the raw log, else the exit status above it.
pub open spec fn spec_pie_outcome(success: bool, status: Seq<char>, log: Seq<char>) -> Result<Seq<char>, Seq<char>> {
    if success {
        Ok(crate::text::trim(log))
    } else {
        Err(match spec_humanize_pie_error(log) {
            Some(h) => h + "\n\n──── 原始日志 ────\n"@,
            None => "PIE install 失败 ("@ + status + "):\n"@,
        } + crate::text::trim(log))
    }
}

/// The outcome of a PIE run.
pub fn pie_outcome(success: bool, status: &str, log: &str) -> (r: Result<String, String>)
    ensures
        match (r, spec_pie_outcome(success, status@, log@)) {
            (Ok(a), Ok(b)) => a@ == b,
            (Err(a), Err(b)) => a@ == b,
            _ => false,
        },
{
    let t = crate::text::trim_of(&chars_of(log));
    if success {
        return Ok(string_of(&t));
    }
    let mut m: Vec<char> = match humanize_pie_error(log) {
        Some(h) => {
            let mut v = chars_of(h.as_str());
            crate::text::append_str(&mut v, "\n\n──── 原始日志 ────\n");
            v
        },
        None => {
            let mut v = chars_of("PIE install 失败 (");
            crate::text::append_str(&mut v, status);
            crate::text::append_str(&mut v, "):\n");
            v
        },
    };
    crate::text::append(&mut m, &t);
    Err(string_of(&m))
}

// ------------------------------------------------------------------
// Searching Packagist
// ------------------------------------------------------------------

/// What `serde_json::from_str` reads from a Packagist search response:
/// `None` when the body is not JSON; else, when there is a `results`
/// array, the `name` and `description` of each element as text (`None`
/// where the field is missing or not a string).
pub uninterp spec fn packagist_results(body: Seq<char>) -> Option<Option<Seq<(Option<Seq<char>>, Option<Seq<char>>)>>>;

pub open spec fn opt_text(o: Option<String>) -> Option<Seq<char>> {
    match o {
        Some(s) => Some(s@),
        None => None,
    }
}

pub open spec fn raw_items_view(v: Seq<(Option<String>, Option<String>)>) -> Seq<(Option<Seq<char>>, Option<Seq<char>>)> {
    v.map_values(|x: (Option<String>, Option<String>)| (opt_text(x.0), opt_text(x.1)))
}

/// `serde_json::from_str` of a Packagist search response, with the
/// `results` array and each element's `name` and `description` picked out
/// (`Value::get`, `as_array`, `as_str`); the error is the parse error's
/// text.
#[verifier::external_body]
fn parse_packagist(body: &str) -> (r: Result<Option<Vec<(Option<String>, Option<String>)>>, String>)
    ensures
        r matches Ok(v) ==> packagist_results(body@) == Some(match v {
            Some(items) => Some(raw_items_view(items@)),
            None => None,
        }),
        r is Err ==> packagist_results(body@) is None,
{
    let field = |item: &serde_json::Value, key: &str| item.get(key).and_then(|v| v.as_str()).map(|s| s.to_string());
    match serde_json::from_str::<serde_json::Value>(body) {
        Ok(json) => Ok(json.get("results").and_then(|v| v.as_array()).map(|arr| {
            arr.iter().map(|item| (field(item, "name"), field(item, "description"))).collect()
        })),
        Err(e) => Err(e.to_string()),
    }
}

/// A text field that is missing reads as empty.
pub open spec fn text_or_empty(o: Option<Seq<char>>) -> Seq<char> {
    match o {
        Some(t) => t,
        None => Seq::empty(),
    }
}

/// The (name, description) items of a Packagist search response body:
/// missing or non-text fields read as empty, a missing `results` list as
/// no items; `None` when the body is not JSON.
pub open spec fn packagist_items(body: Seq<char>) -> Option<Seq<(Seq<char>, Seq<char>)>> {
    match packagist_results(body) {
        None => None,
        Some(None) => Some(Seq::empty()),
        Some(Some(raw)) => Some(raw.map_values(
            |x: (Option<Seq<char>>, Option<Seq<char>>)| (text_or_empty(x.0), text_or_empty(x.1)),
        )),
    }
}

fn string_or_empty(o: &Option<String>) -> (r: String)
    ensures
        r@ == text_or_empty(opt_text(*o)),
{
    match o {
        Some(s) => string_of(&chars_of(s.as_str())),
        None => String::new(),
    }
}

/// The (name, description) items of one page of Packagist search results
/// (see `packagist_items`), or the parse error's text.
pub fn packagist_page(body: &str) -> (r: Result<Vec<(String, String)>, String>)
    ensures
        match packagist_items(body@) {
            Some(items) => r matches Ok(v) && v@.map_values(|x: (String, String)| (x.0@, x.1@)) == items,
            None => r is Err,
        },
{
    let raw = match parse_packagist(body) {
        Ok(Some(v)) => v,
        Ok(None) => return Ok(Vec::new()),
        Err(e) => return Err(e),
    };
    let ghost rv = raw_items_view(raw@);
    let mut out: Vec<(String, String)> = Vec::new();
    let mut i: usize = 0;
    while i < raw.len()
        invariant
            i <= raw.len(),
            out@.len() == i,
            rv == raw_items_view(raw@),
            out@.map_values(|x: (String, String)| (x.0@, x.1@)) == rv.take(i as int).map_values(
                |x: (Option<Seq<char>>, Option<Seq<char>>)| (text_or_empty(x.0), text_or_empty(x.1)),
            ),
        decreases raw.len() - i,
    {
        assert(rv[i as int] == (opt_text(raw@[i as int].0), opt_text(raw@[i as int].1)));
        assert(rv.take(i + 1).drop_last() =~= rv.take(i as int));
        let ghost before = out@;
        let n = string_or_empty(&raw[i].0);
        let d = string_or_empty(&raw[i].1);
        out.push((n.clone(), d.clone()));
        let ghost lhs = out@.map_values(|x: (String, String)| (x.0@, x.1@));
        let ghost rhs = rv.take(i + 1).map_values(
            |x: (Option<Seq<char>>, Option<Seq<char>>)| (text_or_empty(x.0), text_or_empty(x.1)),
        );
        let ghost prev = rv.take(i as int).map_values(
            |x: (Option<Seq<char>>, Option<Seq<char>>)| (text_or_empty(x.0), text_or_empty(x.1)),
        );
        assert forall|k: int| 0 <= k < i + 1 implies lhs[k] == rhs[k] by {
            if k < i {
                assert(out@[k] == before[k]);
                let pl = before.map_values(|x: (String, String)| (x.0@, x.1@));
                assert(pl == prev);
                assert(pl[k] == (before[k].0@, before[k].1@));
                assert(lhs[k] == pl[k]);
                assert(rv.take(i + 1)[k] == rv.take(i as int)[k]);
            } else {
                assert(out@[k] == (n, d));
                assert(rv.take(i + 1)[k] == rv[i as int]);
            }
        }
        assert(lhs =~= rhs);
        i += 1;
    }
    assert(rv.take(raw.len() as int) =~= rv);
    Ok(out)
}

/// Some listed extension is named `name`.
pub open spec fn has_name(v: Seq<(Seq<char>, Seq<char>)>, name: Seq<char>) -> bool {
    exists|i: int| 0 <= i < v.len() && (#[trigger] v[i]).0 == name
}

/// The search results after a batch of items: items with an empty name or
/// a name already listed are left out.
pub open spec fn merge_items(all: Seq<(Seq<char>, Seq<char>)>, batch: Seq<(Seq<char>, Seq<char>)>) -> Seq<(Seq<char>, Seq<char>)>
    decreases batch.len(),
{
    if batch.len() == 0 {
        all
    } else {
        let prev = merge_items(all, batch.drop_last());
        let x = batch.last();
        if x.0.len() == 0 || has_name(prev, x.0) { prev } else { prev.push(x) }
    }
}

/// The views of search results.
pub open spec fn infos_view(v: Seq<PieExtensionInfo>) -> Seq<(Seq<char>, Seq<char>)> {
    v.map_values(|x: PieExtensionInfo| (x.name@, x.description@))
}

/// Adds a page of Packagist results to the search results (see
/// `merge_items`).
pub fn merge_search_page(all: &mut Vec<PieExtensionInfo>, body: &str) -> (r: Result<(), String>)
    ensures
        match packagist_items(body@) {
            Some(items) => r is Ok && infos_view(final(all)@) == merge_items(infos_view(old(all)@), items),
            None => r is Err && final(all)@ == old(all)@,
        },
        r matches Err(m) ==> exists|e: Seq<char>| m@ == "解析 Packagist 响应失败: "@ + e,
{
    let batch = match packagist_page(body) {
        Ok(b) => b,
        Err(e) => {
            let mut m = chars_of("解析 Packagist 响应失败: ");
            crate::text::append_str(&mut m, e.as_str());
            assert(m@ == "解析 Packagist 响应失败: "@ + e@);
            return Err(string_of(&m));
        },
    };
    let ghost bv = batch@.map_values(|x: (String, String)| (x.0@, x.1@));
    let ghost a0 = infos_view(all@);
    let mut i: usize = 0;
    while i < batch.len()
        invariant
            i <= batch.len(),
            bv == batch@.map_values(|x: (String, String)| (x.0@, x.1@)),
            infos_view(all@) == merge_items(a0, bv.take(i as int)),
        decreases batch.len() - i,
    {
        assert(bv.take(i + 1).drop_last() =~= bv.take(i as int));
        assert(bv.take(i + 1).last() == (batch@[i as int].0@, batch@[i as int].1@));
        let name = chars_of(batch[i].0.as_str());
        let mut seen = false;
        let ghost av = infos_view(all@);
        let mut j: usize = 0;
        while j < all.len()
            invariant
                j <= all.len(),
                av == infos_view(all@),
                name@ == batch@[i as int].0@,
                seen <==> exists|k: int| 0 <= k < j && (#[trigger] av[k]).0 == name@,
            decreases all.len() - j,
        {
            assert(av[j as int].0 == all@[j as int].name@);
            if crate::text::eq_str(&name, all[j].name.as_str()) {
                seen = true;
            }
            j += 1;
        }
        if name.len() > 0 && !seen {
            all.push(PieExtensionInfo { name: batch[i].0.clone(), description: batch[i].1.clone() });
            assert(infos_view(all@) =~= av.push((batch@[i as int].0@, batch@[i as int].1@)));
        }
        i += 1;
    }
    assert(bv.take(batch.len() as int) =~= bv);
    Ok(())
}

} // verus!
