//! The settings page: the form's view of the settings, saving it back,
//! and the standalone install paths the user adds and removes.

use vstd::prelude::*;
use crate::text::{chars_of, string_of, append_str, eq};
use crate::num::{decimal, signed_decimal};
use crate::service::{ServiceKind, spec_kind_str, kind_to_str, spec_parse_kind, parse_kind};
use crate::app_config::{AppConfig, ExtraInstallPath};
use crate::vhost::opt_view;

verus! {

/// A standalone install path as the form shows it.
pub struct ExtraInstallPathDto {
    pub id: String,
    /// `nginx`, `apache`, `mysql`, `redis` or `php`.
    pub kind: String,
    pub path: String,
    pub label: Option<String>,
}

/// The form that adds a standalone install path.
pub struct AddExtraPathRequest {
    /// The kind's name (any letter case, `httpd` for Apache).
    pub kind: String,
    pub path: String,
    pub label: Option<String>,
}

/// The settings form.
pub struct ConfigDto {
    pub phpstudy_path: String,
    pub www_root: String,
    pub active_web_server: String,
    pub auto_start: Vec<String>,
    pub mysql_port: u16,
    pub redis_port: u16,
    pub log_dir: String,
    pub log_retention_days: u32,
    pub extra_install_paths: Vec<ExtraInstallPathDto>,
    pub stop_services_on_exit: bool,
}

/// The view of an optional path as the form shows it: empty when unset.
pub open spec fn or_empty(o: Option<String>) -> Seq<char> {
    match o {
        Some(s) => s@,
        None => Seq::empty(),
    }
}

/// The view of an empty text as unset.
pub open spec fn empty_as_none(s: Seq<char>) -> Option<Seq<char>> {
    if s.len() == 0 { None } else { Some(s) }
}

/// `d` is how the form shows the standalone path `e`.
pub open spec fn dto_of(e: ExtraInstallPath, d: ExtraInstallPathDto) -> bool {
    d.id@ == e.id@ && d.kind@ == spec_kind_str(e.kind) && d.path@ == e.path@ && opt_view(d.label) == opt_view(e.label)
}

fn copy_opt(o: &Option<String>) -> (r: Option<String>)
    ensures
        opt_view(r) == opt_view(*o),
{
    match o {
        Some(s) => Some(s.clone()),
        None => None,
    }
}

/// How the form shows a standalone install path.
pub fn extra_path_dto(e: &ExtraInstallPath) -> (d: ExtraInstallPathDto)
    ensures
        dto_of(*e, d),
{
    ExtraInstallPathDto {
        id: e.id.clone(),
        kind: string_of(&chars_of(kind_to_str(e.kind))),
        path: e.path.clone(),
        label: copy_opt(&e.label),
    }
}

/// How the form shows each standalone install path, in order.
pub fn extra_path_dtos(v: &Vec<ExtraInstallPath>) -> (r: Vec<ExtraInstallPathDto>)
    ensures
        r@.len() == v@.len(),
        forall|i: int| 0 <= i < v@.len() ==> dto_of(#[trigger] v@[i], r@[i]),
{
    let mut r: Vec<ExtraInstallPathDto> = Vec::new();
    let mut i: usize = 0;
    while i < v.len()
        invariant
            i <= v.len(),
            r@.len() == i,
            forall|j: int| 0 <= j < i ==> dto_of(#[trigger] v@[j], r@[j]),
        decreases v.len() - i,
    {
        r.push(extra_path_dto(&v[i]));
        i += 1;
    }
    r
}

fn copy_strings(v: &Vec<String>) -> (r: Vec<String>)
    ensures
        r@.len() == v@.len(),
        forall|i: int| 0 <= i < v@.len() ==> (#[trigger] r@[i])@ == v@[i]@,
{
    let mut r: Vec<String> = Vec::new();
    let mut i: usize = 0;
    while i < v.len()
        invariant
            i <= v.len(),
            r@.len() == i,
            forall|j: int| 0 <= j < i ==> (#[trigger] r@[j])@ == v@[j]@,
        decreases v.len() - i,
    {
        r.push(v[i].clone());
        i += 1;
    }
    r
}

/// The settings form filled from the settings.
pub fn config_dto(c: &AppConfig) -> (d: ConfigDto)
    ensures
        d.phpstudy_path@ == or_empty(c.general.phpstudy_path),
        d.www_root@ == c.general.www_root@,
        d.active_web_server@ == c.web_server.active@,
        d.auto_start@.len() == c.general.auto_start@.len(),
        forall|i: int| 0 <= i < d.auto_start@.len() ==> (#[trigger] d.auto_start@[i])@ == c.general.auto_start@[i]@,
        d.mysql_port == c.mysql.port,
        d.redis_port == c.redis.port,
        d.log_dir@ == or_empty(c.general.log_dir),
        d.log_retention_days == c.general.log_retention_days,
        d.extra_install_paths@.len() == c.general.extra_install_paths@.len(),
        forall|i: int| 0 <= i < d.extra_install_paths@.len() ==> dto_of(
            c.general.extra_install_paths@[i],
            #[trigger] d.extra_install_paths@[i],
        ),
        d.stop_services_on_exit == c.general.stop_services_on_exit,
{
    ConfigDto {
        phpstudy_path: match &c.general.phpstudy_path {
            Some(p) => p.clone(),
            None => String::new(),
        },
        www_root: c.general.www_root.clone(),
        active_web_server: c.web_server.active.clone(),
        auto_start: copy_strings(&c.general.auto_start),
        mysql_port: c.mysql.port,
        redis_port: c.redis.port,
        log_dir: match &c.general.log_dir {
            Some(p) => p.clone(),
            None => String::new(),
        },
        log_retention_days: c.general.log_retention_days,
        extra_install_paths: extra_path_dtos(&c.general.extra_install_paths),
        stop_services_on_exit: c.general.stop_services_on_exit,
    }
}

fn none_if_empty(s: String) -> (r: Option<String>)
    ensures
        opt_view(r) == empty_as_none(s@),
{
    if chars_of(s.as_str()).len() == 0 {
        None
    } else {
        Some(s)
    }
}

/// Saves the form into the settings: empty paths become unset; the
/// standalone paths and everything not on the form stay as they were.
pub fn apply_config_dto(c: &mut AppConfig, d: ConfigDto)
    ensures
        opt_view(final(c).general.phpstudy_path) == empty_as_none(d.phpstudy_path@),
        final(c).general.www_root@ == d.www_root@,
        final(c).web_server.active@ == d.active_web_server@,
        final(c).general.auto_start@ == d.auto_start@,
        final(c).mysql.port == d.mysql_port,
        final(c).redis.port == d.redis_port,
        opt_view(final(c).general.log_dir) == empty_as_none(d.log_dir@),
        final(c).general.log_retention_days == d.log_retention_days,
        final(c).general.stop_services_on_exit == d.stop_services_on_exit,
        final(c).general.extra_install_paths@ == old(c).general.extra_install_paths@,
        final(c).general.data_dir@ == old(c).general.data_dir@,
        final(c).general.package_install_root == old(c).general.package_install_root,
        final(c).web_server.nginx_version == old(c).web_server.nginx_version,
        final(c).web_server.apache_version == old(c).web_server.apache_version,
        final(c).mysql.version == old(c).mysql.version,
        final(c).redis.version == old(c).redis.version,
        final(c).php_instances@ == old(c).php_instances@,
{
    c.general.phpstudy_path = none_if_empty(d.phpstudy_path);
    c.general.www_root = d.www_root;
    c.web_server.active = d.active_web_server;
    c.general.auto_start = d.auto_start;
    c.mysql.port = d.mysql_port;
    c.redis.port = d.redis_port;
    c.general.log_dir = none_if_empty(d.log_dir);
    c.general.log_retention_days = d.log_retention_days;
    c.general.stop_services_on_exit = d.stop_services_on_exit;
}

// ------------------------------------------------------------------
// Standalone install paths
// ------------------------------------------------------------------

/// The id of a standalone path added at `millis`: `<kind>-<millis>`.
pub open spec fn extra_path_id(kind: ServiceKind, millis: i64) -> Seq<char> {
    spec_kind_str(kind) + "-"@ + signed_decimal(millis as int)
}

/// Some entry already has this kind and path.
pub open spec fn has_extra(v: Seq<ExtraInstallPath>, kind: ServiceKind, path: Seq<char>) -> bool {
    exists|i: int| 0 <= i < v.len() && (#[trigger] v[i]).kind == kind && v[i].path@ == path
}

/// Adds a standalone install path of the kind named `kind` (any letter
/// case, `httpd` for Apache) at `path`, stamped `millis`: an unknown kind,
/// a missing directory or a path already listed for that kind is refused.
pub fn add_extra_install_path(
    paths: &mut Vec<ExtraInstallPath>,
    kind: &str,
    path: &str,
    path_exists: bool,
    label: Option<String>,
    millis: i64,
) -> (r: Result<(), String>)
    ensures
        match spec_parse_kind(kind@) {
            None => r matches Err(m) && m@ == "未知服务类型: "@ + kind@ && final(paths)@ == old(paths)@,
            Some(k) => if !path_exists {
                r matches Err(m) && m@ == "路径不存在: "@ + path@ && final(paths)@ == old(paths)@
            } else if has_extra(old(paths)@, k, path@) {
                r matches Err(m) && m@ == "该路径已存在"@ && final(paths)@ == old(paths)@
            } else {
                &&& r is Ok
                &&& final(paths)@.len() == old(paths)@.len() + 1
                &&& final(paths)@.take(old(paths)@.len() as int) == old(paths)@
                &&& final(paths)@.last().kind == k
                &&& final(paths)@.last().path@ == path@
                &&& final(paths)@.last().id@ == extra_path_id(k, millis)
                &&& opt_view(final(paths)@.last().label) == opt_view(label)
            },
        },
{
    let k = match parse_kind(kind) {
        Ok(k) => k,
        Err(e) => return Err(e),
    };
    if !path_exists {
        let mut m = chars_of("路径不存在: ");
        append_str(&mut m, path);
        return Err(string_of(&m));
    }
    let p = chars_of(path);
    let mut i: usize = 0;
    while i < paths.len()
        invariant
            i <= paths.len(),
            p@ == path@,
            paths@ == old(paths)@,
            path_exists,
            spec_parse_kind(kind@) == Some(k),
            forall|j: int| 0 <= j < i ==> !((#[trigger] paths@[j]).kind == k && paths@[j].path@ == path@),
        decreases paths.len() - i,
    {
        if paths[i].kind == k && eq(&chars_of(paths[i].path.as_str()), &p) {
            assert(paths@[i as int].kind == k && paths@[i as int].path@ == path@);
            proof {
                reveal_strlit("该路径已存在");
            }
            return Err(string_of(&chars_of("该路径已存在")));
        }
        i += 1;
    }
    let mut id = chars_of(kind_to_str(k));
    append_str(&mut id, "-");
    append_str(&mut id, crate::num::i64_to_string(millis).as_str());
    let ghost p0 = paths@;
    paths.push(ExtraInstallPath { id: string_of(&id), kind: k, path: string_of(&p), label });
    assert(paths@.take(p0.len() as int) =~= p0);
    Ok(())
}

/// The entries whose id is not `id`, in order.
pub open spec fn without_id(v: Seq<ExtraInstallPath>, id: Seq<char>) -> Seq<ExtraInstallPath>
    decreases v.len(),
{
    if v.len() == 0 {
        Seq::empty()
    } else {
        let prev = without_id(v.drop_last(), id);
        if v.last().id@ == id { prev } else { prev.push(v.last()) }
    }
}

/// Removes the standalone install paths with id `id`; refused when there
/// is none.
pub fn remove_extra_install_path(paths: &mut Vec<ExtraInstallPath>, id: &str) -> (r: Result<(), String>)
    ensures
        final(paths)@ == without_id(old(paths)@, id@),
        final(paths)@.len() == old(paths)@.len() ==> (r matches Err(m) && m@ == "未找到该路径条目"@),
        final(paths)@.len() != old(paths)@.len() ==> r is Ok,
{
    let ghost p0 = paths@;
    let target = chars_of(id);
    let mut out: Vec<ExtraInstallPath> = Vec::new();
    let n = paths.len();
    let mut k: usize = 0;
    assert(p0.skip(0) =~= p0);
    while paths.len() > 0
        invariant
            k <= p0.len(),
            n == p0.len(),
            target@ == id@,
            paths@ == p0.skip(k as int),
            out@ == without_id(p0.take(k as int), id@),
        decreases paths.len(),
    {
        let e = paths.remove(0);
        assert(e == p0[k as int]);
        assert(p0.take(k + 1).drop_last() =~= p0.take(k as int));
        if !eq(&chars_of(e.id.as_str()), &target) {
            out.push(e);
        }
        k += 1;
        assert(paths@ =~= p0.skip(k as int));
    }
    assert(p0.take(p0.len() as int) =~= p0);
    let removed_none = out.len() == n;
    *paths = out;
    if removed_none {
        proof {
            reveal_strlit("未找到该路径条目");
        }
        Err(string_of(&chars_of("未找到该路径条目")))
    } else {
        Ok(())
    }
}

} // verus!
