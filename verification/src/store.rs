//! The in-app software store: the catalog, merging mirror versions into it,
//! what counts as installed from it, and the checks made before installing
//! or removing a package.

use vstd::prelude::*;
use crate::text::{chars_of, string_of, append_str, eq_str};
use crate::service::{ServiceInstance, ServiceKind, ServiceOrigin, spec_kind_str, kind_to_str};
use crate::installer::PackageVersion;
use crate::versions::{Order3, pkg_desc_from, str_order};


verus! {

/// A package of the catalog.
pub struct PackageEntry {
    /// The key, e.g. `nginx`.
    pub name: String,
    pub display_name: String,
    /// `web`, `db`, `php` or `cache`.
    pub category: String,
    pub brand_color: String,
    pub brand_letter: String,
    pub homepage: String,
    pub description: String,
    pub versions: Vec<PackageVersion>,
}

/// The catalog.
pub struct Manifest {
    pub packages: Vec<PackageEntry>,
}

/// A package the store put on this machine.
pub struct InstalledPackage {
    pub name: String,
    pub version: String,
    pub install_path: String,
}

/// The service kind a catalog key names.
pub open spec fn spec_store_kind(name: Seq<char>) -> Option<ServiceKind> {
    if name == "nginx"@ {
        Some(ServiceKind::Nginx)
    } else if name == "apache"@ {
        Some(ServiceKind::Apache)
    } else if name == "mysql"@ {
        Some(ServiceKind::Mysql)
    } else if name == "redis"@ {
        Some(ServiceKind::Redis)
    } else if name == "php"@ {
        Some(ServiceKind::Php)
    } else {
        None
    }
}

/// The service kind a catalog key names, if any.
pub fn store_kind(name: &str) -> (r: Option<ServiceKind>)
    ensures
        r == spec_store_kind(name@),
{
    let n = chars_of(name);
    proof {
        reveal_strlit("nginx");
        reveal_strlit("apache");
        reveal_strlit("mysql");
        reveal_strlit("redis");
        reveal_strlit("php");
    }
    if eq_str(&n, "nginx") {
        Some(ServiceKind::Nginx)
    } else if eq_str(&n, "apache") {
        Some(ServiceKind::Apache)
    } else if eq_str(&n, "mysql") {
        Some(ServiceKind::Mysql)
    } else if eq_str(&n, "redis") {
        Some(ServiceKind::Redis)
    } else if eq_str(&n, "php") {
        Some(ServiceKind::Php)
    } else {
        None
    }
}

/// Installs that came from the store or a user path count as ours.
pub open spec fn counts_as_installed(o: ServiceOrigin) -> bool {
    o == ServiceOrigin::Store || o == ServiceOrigin::Manual
}

/// What an installed service is reported as.
pub open spec fn installed_view(s: ServiceInstance) -> (Seq<char>, Seq<char>, Seq<char>) {
    (spec_kind_str(s.kind), s.version@, s.install_path@)
}

/// The installed packages reported for `services`, in order.
pub open spec fn spec_installed(services: Seq<ServiceInstance>) -> Seq<(Seq<char>, Seq<char>, Seq<char>)>
    decreases services.len(),
{
    if services.len() == 0 {
        Seq::empty()
    } else {
        let prev = spec_installed(services.drop_last());
        if counts_as_installed(services.last().origin) {
            prev.push(installed_view(services.last()))
        } else {
            prev
        }
    }
}

/// The views of installed packages.
pub open spec fn installed_views(v: Seq<InstalledPackage>) -> Seq<(Seq<char>, Seq<char>, Seq<char>)> {
    v.map_values(|p: InstalledPackage| (p.name@, p.version@, p.install_path@))
}

/// The packages the store reports as installed: every service from the
/// store or a user path, under its catalog key and version.
pub fn installed_packages(services: &Vec<ServiceInstance>) -> (r: Vec<InstalledPackage>)
    ensures
        installed_views(r@) == spec_installed(services@),
{
    let mut out: Vec<InstalledPackage> = Vec::new();
    let mut i: usize = 0;
    while i < services.len()
        invariant
            i <= services.len(),
            installed_views(out@) == spec_installed(services@.take(i as int)),
        decreases services.len() - i,
    {
        let s = &services[i];
        assert(services@.take(i + 1).drop_last() =~= services@.take(i as int));
        let ours = match s.origin {
            ServiceOrigin::Store | ServiceOrigin::Manual => true,
            _ => false,
        };
        if ours {
            let ghost o0 = out@;
            let p = InstalledPackage {
                name: string_of(&chars_of(kind_to_str(s.kind))),
                version: s.version.clone(),
                install_path: s.install_path.clone(),
            };
            out.push(p);
            assert(installed_views(out@) =~= installed_views(o0).push(installed_view(*s)));
        }
        i += 1;
    }
    assert(services@.take(services.len() as int) =~= services@);
    out
}

/// A service of `kind` at `version` is running.
pub open spec fn running_at(services: Seq<ServiceInstance>, kind: ServiceKind, version: Seq<char>) -> bool {
    exists|i: int| 0 <= i < services.len() && (#[trigger] services[i]).kind == kind
        && services[i].version@ == version && services[i].status is Running
}

fn find_running(services: &Vec<ServiceInstance>, kind: ServiceKind, version: &str) -> (r: bool)
    ensures
        r == running_at(services@, kind, version@),
{
    let mut i: usize = 0;
    while i < services.len()
        invariant
            i <= services.len(),
            forall|j: int| 0 <= j < i ==> !((#[trigger] services@[j]).kind == kind
                && services@[j].version@ == version@ && services@[j].status is Running),
        decreases services.len() - i,
    {
        let s = &services[i];
        if s.kind == kind && crate::text::eq_str(&chars_of(s.version.as_str()), version)
            && s.status.is_running() {
            return true;
        }
        i += 1;
    }
    false
}

/// The message when a package to (re)install is running.
pub open spec fn running_install_message(display_name: Seq<char>, version: Seq<char>) -> Seq<char> {
    display_name + " v"@ + version + " 正在运行，请先停止后再重新安装"@
}

/// Installing `name` at `version` is refused while a service of that kind
/// and version runs: overwriting it would fail on locked files.
pub fn install_guard(name: &str, version: &str, display_name: &str, services: &Vec<ServiceInstance>) -> (r: Result<(), String>)
    ensures
        match spec_store_kind(name@) {
            Some(k) if running_at(services@, k, version@) => r matches Err(m)
                && m@ == running_install_message(display_name@, version@),
            _ => r is Ok,
        },
{
    match store_kind(name) {
        Some(k) => {
            if find_running(services, k, version) {
                let mut m = chars_of(display_name);
                append_str(&mut m, " v");
                append_str(&mut m, version);
                append_str(&mut m, " 正在运行，请先停止后再重新安装");
                Err(string_of(&m))
            } else {
                Ok(())
            }
        },
        None => Ok(()),
    }
}

/// Services of `kind` at `version` exist and all are PHPStudy's own.
pub open spec fn only_phpstudy(services: Seq<ServiceInstance>, kind: ServiceKind, version: Seq<char>) -> bool {
    &&& exists|i: int| 0 <= i < services.len() && (#[trigger] services[i]).kind == kind
        && services[i].version@ == version
    &&& forall|i: int| 0 <= i < services.len() && (#[trigger] services[i]).kind == kind
        && services[i].version@ == version ==> services[i].origin == ServiceOrigin::PhpStudy
}

fn check_only_phpstudy(services: &Vec<ServiceInstance>, kind: ServiceKind, version: &str) -> (r: bool)
    ensures
        r == only_phpstudy(services@, kind, version@),
{
    let mut any = false;
    let mut i: usize = 0;
    while i < services.len()
        invariant
            i <= services.len(),
            any == exists|j: int| 0 <= j < i && (#[trigger] services@[j]).kind == kind
                && services@[j].version@ == version@,
            forall|j: int| 0 <= j < i && (#[trigger] services@[j]).kind == kind
                && services@[j].version@ == version@ ==> services@[j].origin == ServiceOrigin::PhpStudy,
        decreases services.len() - i,
    {
        let s = &services[i];
        if s.kind == kind && crate::text::eq_str(&chars_of(s.version.as_str()), version) {
            any = true;
            match s.origin {
                ServiceOrigin::PhpStudy => {},
                _ => {
                    return false;
                },
            }
        }
        i += 1;
    }
    any
}

/// The message for a catalog key the store cannot remove.
pub open spec fn unknown_kind_message(name: Seq<char>) -> Seq<char> {
    "未知软件类型: "@ + name
}

/// The message when only PHPStudy's own copy exists.
pub open spec fn phpstudy_owned_message() -> Seq<char> {
    "不能卸载 PHPStudy 自带的软件"@
}

/// The message when a package to remove is running.
pub open spec fn running_uninstall_message(display_name: Seq<char>, version: Seq<char>) -> Seq<char> {
    display_name + " v"@ + version + " 正在运行，请先停止后再卸载"@
}

/// The checks before removing `name` at `version`: the key must name a
/// service kind; PHPStudy's own installs are not ours to remove; a running
/// service is not removed. On success, the kind.
pub fn uninstall_guard(name: &str, version: &str, display_name: &str, services: &Vec<ServiceInstance>) -> (r: Result<ServiceKind, String>)
    ensures
        match spec_store_kind(name@) {
            None => r matches Err(m) && m@ == unknown_kind_message(name@),
            Some(k) => if only_phpstudy(services@, k, version@) {
                r matches Err(m) && m@ == phpstudy_owned_message()
            } else if running_at(services@, k, version@) {
                r matches Err(m) && m@ == running_uninstall_message(display_name@, version@)
            } else {
                r == Ok::<ServiceKind, String>(k)
            },
        },
{
    let k = match store_kind(name) {
        Some(k) => k,
        None => {
            let mut m = chars_of("未知软件类型: ");
            append_str(&mut m, name);
            proof { reveal_strlit("未知软件类型: "); }
            return Err(string_of(&m));
        },
    };
    if check_only_phpstudy(services, k, version) {
        proof { reveal_strlit("不能卸载 PHPStudy 自带的软件"); }
        return Err(string_of(&chars_of("不能卸载 PHPStudy 自带的软件")));
    }
    if find_running(services, k, version) {
        let mut m = chars_of(display_name);
        append_str(&mut m, " v");
        append_str(&mut m, version);
        append_str(&mut m, " 正在运行，请先停止后再卸载");
        return Err(string_of(&m));
    }
    Ok(k)
}

// ------------------------------------------------------------------
// Looking up a package and version
// ------------------------------------------------------------------

/// The first package with key `name`.
pub open spec fn find_package(pkgs: Seq<PackageEntry>, name: Seq<char>) -> Option<int>
    decreases pkgs.len(),
{
    if pkgs.len() == 0 {
        None
    } else if pkgs[0].name@ == name {
        Some(0)
    } else {
        match find_package(pkgs.drop_first(), name) {
            Some(i) => Some(i + 1),
            None => None,
        }
    }
}

/// The first version named `version`.
pub open spec fn find_version(vs: Seq<PackageVersion>, version: Seq<char>) -> Option<int>
    decreases vs.len(),
{
    if vs.len() == 0 {
        None
    } else if vs[0].version@ == version {
        Some(0)
    } else {
        match find_version(vs.drop_first(), version) {
            Some(i) => Some(i + 1),
            None => None,
        }
    }
}

proof fn lemma_find_package(pkgs: Seq<PackageEntry>, name: Seq<char>, i: int)
    requires
        0 <= i <= pkgs.len(),
        forall|j: int| 0 <= j < i ==> (#[trigger] pkgs[j]).name@ != name,
    ensures
        i < pkgs.len() && pkgs[i].name@ == name ==> find_package(pkgs, name) == Some(i),
        i == pkgs.len() ==> find_package(pkgs, name) is None,
    decreases i,
{
    if i > 0 {
        let t = pkgs.drop_first();
        assert forall|j: int| 0 <= j < i - 1 implies (#[trigger] t[j]).name@ != name by {
            assert(t[j] == pkgs[j + 1]);
        }
        assert(pkgs[0].name@ != name);
        lemma_find_package(t, name, i - 1);
    }
}

proof fn lemma_find_version(vs: Seq<PackageVersion>, version: Seq<char>, i: int)
    requires
        0 <= i <= vs.len(),
        forall|j: int| 0 <= j < i ==> (#[trigger] vs[j]).version@ != version,
    ensures
        i < vs.len() && vs[i].version@ == version ==> find_version(vs, version) == Some(i),
        i == vs.len() ==> find_version(vs, version) is None,
    decreases i,
{
    if i > 0 {
        let t = vs.drop_first();
        assert forall|j: int| 0 <= j < i - 1 implies (#[trigger] t[j]).version@ != version by {
            assert(t[j] == vs[j + 1]);
        }
        assert(vs[0].version@ != version);
        lemma_find_version(t, version, i - 1);
    }
}

/// The message for a key not in the catalog.
pub open spec fn unknown_package_message(name: Seq<char>) -> Seq<char> {
    "未知软件: "@ + name
}

/// The message for a version not in the catalog.
pub open spec fn unknown_version_message(name: Seq<char>, version: Seq<char>) -> Seq<char> {
    "未知版本: "@ + name + " v"@ + version
}

/// The catalog entry and version an install or removal is about: the
/// first package with key `name` and its first version `version`, or why
/// there is none.
pub fn lookup_version(pkgs: &Vec<PackageEntry>, name: &str, version: &str) -> (r: Result<(usize, usize), String>)
    ensures
        match find_package(pkgs@, name@) {
            None => r matches Err(m) && m@ == unknown_package_message(name@),
            Some(p) => match find_version(pkgs@[p].versions@, version@) {
                None => r matches Err(m) && m@ == unknown_version_message(name@, version@),
                Some(v) => r == Ok::<(usize, usize), String>((p as usize, v as usize)),
            },
        },
{
    let mut p: usize = 0;
    while p < pkgs.len()
        invariant
            p <= pkgs.len(),
            forall|j: int| 0 <= j < p ==> (#[trigger] pkgs@[j]).name@ != name@,
        ensures
            p <= pkgs.len(),
            forall|j: int| 0 <= j < p ==> (#[trigger] pkgs@[j]).name@ != name@,
            p < pkgs.len() ==> pkgs@[p as int].name@ == name@,
        decreases pkgs.len() - p,
    {
        if eq_str(&chars_of(pkgs[p].name.as_str()), name) {
            break;
        }
        p += 1;
    }
    proof {
        lemma_find_package(pkgs@, name@, p as int);
    }
    if p == pkgs.len() {
        let mut m = chars_of("未知软件: ");
        append_str(&mut m, name);
        proof { reveal_strlit("未知软件: "); }
        return Err(string_of(&m));
    }
    let vs = &pkgs[p].versions;
    let mut v: usize = 0;
    while v < vs.len()
        invariant
            v <= vs.len(),
            forall|j: int| 0 <= j < v ==> (#[trigger] vs@[j]).version@ != version@,
        ensures
            v <= vs.len(),
            forall|j: int| 0 <= j < v ==> (#[trigger] vs@[j]).version@ != version@,
            v < vs.len() ==> vs@[v as int].version@ == version@,
        decreases vs.len() - v,
    {
        if eq_str(&chars_of(vs[v].version.as_str()), version) {
            break;
        }
        v += 1;
    }
    proof {
        lemma_find_version(vs@, version@, v as int);
    }
    if v == vs.len() {
        let mut m = chars_of("未知版本: ");
        append_str(&mut m, name);
        append_str(&mut m, " v");
        append_str(&mut m, version);
        proof { reveal_strlit("未知版本: "); }
        return Err(string_of(&m));
    }
    Ok((p, v))
}

} // verus!

verus! {

// ------------------------------------------------------------------
// Merging mirror versions into the catalog
// ------------------------------------------------------------------

/// Some version in `vs` is named `version`.
pub open spec fn has_version(vs: Seq<PackageVersion>, version: Seq<char>) -> bool {
    exists|i: int| 0 <= i < vs.len() && (#[trigger] vs[i]).version@ == version
}

/// The versions of `existing` that `incoming` does not replace, in order.
pub open spec fn kept_existing(existing: Seq<PackageVersion>, incoming: Seq<PackageVersion>) -> Seq<PackageVersion>
    decreases existing.len(),
{
    if existing.len() == 0 {
        Seq::empty()
    } else {
        let prev = kept_existing(existing.drop_last(), incoming);
        if has_version(incoming, existing.last().version@) {
            prev
        } else {
            prev.push(existing.last())
        }
    }
}

/// The store order of two package versions.
#[verifier::opaque]
pub open spec fn version_order(a: PackageVersion, b: PackageVersion) -> Order3 {
    pkg_desc_from(a.version@, b.version@, 0)
}

/// Where a stable sort puts `x` after the sorted `s`: before the first
/// element that goes after it.
pub open spec fn ins_pos(s: Seq<PackageVersion>, x: PackageVersion) -> int
    decreases s.len(),
{
    if s.len() == 0 {
        0
    } else if version_order(s[0], x) == Order3::Greater {
        0
    } else {
        1 + ins_pos(s.drop_first(), x)
    }
}

/// `s` in store order, equal versions in their original order.
pub open spec fn sorted_versions(s: Seq<PackageVersion>) -> Seq<PackageVersion>
    decreases s.len(),
{
    if s.len() == 0 {
        Seq::empty()
    } else {
        let r = sorted_versions(s.drop_last());
        r.insert(ins_pos(r, s.last()), s.last())
    }
}

/// The merged version list: the mirror's versions, then the versions they
/// do not replace, all in store order.
pub open spec fn spec_merge_versions(existing: Seq<PackageVersion>, incoming: Seq<PackageVersion>) -> Seq<PackageVersion> {
    sorted_versions(incoming + kept_existing(existing, incoming))
}

proof fn lemma_ins_pos_bounds(s: Seq<PackageVersion>, x: PackageVersion)
    ensures
        0 <= ins_pos(s, x) <= s.len(),
        forall|k: int| 0 <= k < ins_pos(s, x) ==> version_order(#[trigger] s[k], x) != Order3::Greater,
        ins_pos(s, x) < s.len() ==> version_order(s[ins_pos(s, x)], x) == Order3::Greater,
    decreases s.len(),
{
    if s.len() > 0 && version_order(s[0], x) != Order3::Greater {
        lemma_ins_pos_bounds(s.drop_first(), x);
        assert forall|k: int| 0 <= k < ins_pos(s, x) implies version_order(#[trigger] s[k], x) != Order3::Greater by {
            if k > 0 {
                assert(s[k] == s.drop_first()[k - 1]);
            }
        }
    }
}

fn version_in_seq(vs: &Vec<PackageVersion>, n: usize, version: &String, Ghost(inc): Ghost<Seq<PackageVersion>>) -> (r: bool)
    requires
        n == inc.len(),
        n <= vs.len(),
        vs@.take(n as int) == inc,
    ensures
        r == has_version(inc, version@),
{
    let mut i: usize = 0;
    while i < n
        invariant
            i <= n,
            n == inc.len(),
            n <= vs.len(),
            vs@.take(n as int) == inc,
            forall|j: int| 0 <= j < i ==> (#[trigger] inc[j]).version@ != version@,
        decreases n - i,
    {
        assert(inc[i as int] == vs@[i as int]);
        if crate::text::eq_str(&chars_of(vs[i].version.as_str()), version.as_str()) {
            assert(inc[i as int].version@ == version@);
            return true;
        }
        i += 1;
    }
    false
}

fn ins_pos_exec(r: &Vec<PackageVersion>, x: &PackageVersion) -> (p: usize)
    ensures
        p == ins_pos(r@, *x),
{
    let mut p: usize = 0;
    assert(r@.skip(0) =~= r@);
    while p < r.len()
        invariant
            p <= r.len(),
            ins_pos(r@, *x) == p + ins_pos(r@.skip(p as int), *x),
        decreases r.len() - p,
    {
        let o = crate::versions::pkg_desc_order(r[p].version.as_str(), x.version.as_str());
        assert(r@.skip(p as int)[0] == r@[p as int]);
        proof {
            reveal(version_order);
        }
        if o == Order3::Greater {
            return p;
        }
        assert(r@.skip(p as int).drop_first() =~= r@.skip(p + 1));
        p += 1;
    }
    p
}

/// The catalog's version list after a mirror's versions came in: the
/// mirror's versions replace those with the same name, the others stay,
/// and the whole list is in store order (newest first), equal versions in
/// their earlier order.
pub fn merge_versions(existing: &mut Vec<PackageVersion>, incoming: Vec<PackageVersion>)
    ensures
        final(existing)@ == spec_merge_versions(old(existing)@, incoming@),
{
    let ghost ex0 = existing@;
    let ghost inc = incoming@;
    let n_ex = existing.len();
    let mut ex: Vec<PackageVersion> = Vec::new();
    std::mem::swap(&mut ex, existing);
    let n_inc = incoming.len();
    let mut merged: Vec<PackageVersion> = incoming;
    let mut j: usize = 0;
    let ghost n = ex0.len();
    while ex.len() > 0
        invariant
            ex@ == ex0.skip(j as int),
            j <= ex0.len(),
            n == ex0.len(),
            n_ex == ex0.len(),
            n_inc == inc.len(),
            merged@ == inc + kept_existing(ex0.take(j as int), inc),
        decreases ex.len(),
    {
        let v = ex.remove(0);
        assert(v == ex0[j as int]);
        assert(ex0.take(j + 1).drop_last() =~= ex0.take(j as int));
        assert(merged@.take(n_inc as int) =~= inc);
        let known = version_in_seq(&merged, n_inc, &v.version, Ghost(inc));
        if !known {
            merged.push(v);
        }
        j += 1;
        assert(ex@ =~= ex0.skip(j as int));
    }
    assert(j == ex0.len());
    assert(ex0.take(ex0.len() as int) =~= ex0);
    let ghost m = merged@;
    let n_m = merged.len();
    let mut sorted: Vec<PackageVersion> = Vec::new();
    let mut k: usize = 0;
    assert(m.skip(0) =~= m);
    while merged.len() > 0
        invariant
            k <= m.len(),
            n_m == m.len(),
            merged@ == m.skip(k as int),
            sorted@ == sorted_versions(m.take(k as int)),
        decreases merged.len(),
    {
        let x = merged.remove(0);
        assert(x == m[k as int]);
        assert(m.take(k + 1).drop_last() =~= m.take(k as int));
        let p = ins_pos_exec(&sorted, &x);
        proof {
            lemma_ins_pos_bounds(sorted@, x);
        }
        sorted.insert(p, x);
        k += 1;
        assert(merged@ =~= m.skip(k as int));
    }
    assert(m.take(m.len() as int) =~= m);
    *existing = sorted;
}

} // verus!

verus! {

proof fn lemma_lex_antisym(a: Seq<char>, b: Seq<char>)
    requires
        crate::php::lex_le(a, b),
        crate::php::lex_le(b, a),
    ensures
        a == b,
    decreases a.len(),
{
    if a.len() > 0 && b.len() > 0 {
        lemma_lex_antisym(a.drop_first(), b.drop_first());
        assert(a =~= seq![a[0]] + a.drop_first());
        assert(b =~= seq![b[0]] + b.drop_first());
    }
}

proof fn lemma_str_order_flip(a: Seq<char>, b: Seq<char>)
    ensures
        str_order(a, b) == Order3::Greater <==> str_order(b, a) == Order3::Less,
        str_order(a, b) == Order3::Equal <==> str_order(b, a) == Order3::Equal,
{
    crate::php::lemma_lex_total(a, b);
    if crate::php::lex_le(a, b) && crate::php::lex_le(b, a) {
        lemma_lex_antisym(a, b);
    }
}

proof fn lemma_pkg_desc_flip(a: Seq<char>, b: Seq<char>, i: int)
    ensures
        pkg_desc_from(a, b, i) == Order3::Greater <==> pkg_desc_from(b, a, i) == Order3::Less,
    decreases crate::text::split_char(a, '.').len() + crate::text::split_char(b, '.').len() - i,
{
    let xs = crate::text::split_char(a, '.');
    let ys = crate::text::split_char(b, '.');
    if i < 0 || (i >= xs.len() && i >= ys.len()) {
    } else if i < xs.len() && i < ys.len() {
        lemma_str_order_flip(ys[i], xs[i]);
        lemma_pkg_desc_flip(a, b, i + 1);
    }
}

proof fn lemma_version_order_flip(a: PackageVersion, b: PackageVersion)
    ensures
        version_order(a, b) == Order3::Greater ==> version_order(b, a) != Order3::Greater,
{
    reveal(version_order);
    lemma_pkg_desc_flip(a.version@, b.version@, 0);
}

/// Neighbours are in store order: no version is listed right before one
/// that the store order puts ahead of it.
pub open spec fn in_store_order(s: Seq<PackageVersion>) -> bool {
    forall|k: int| 0 <= k < s.len() - 1 ==> #[trigger] version_order(s[k], s[k + 1]) != Order3::Greater
}

proof fn lemma_insert_keeps_order(s: Seq<PackageVersion>, x: PackageVersion)
    requires
        in_store_order(s),
    ensures
        in_store_order(s.insert(ins_pos(s, x), x)),
{
    lemma_ins_pos_bounds(s, x);
    let p = ins_pos(s, x);
    let t = s.insert(p, x);
    if p < s.len() {
        lemma_version_order_flip(s[p], x);
    }
    assert forall|k: int| 0 <= k < t.len() - 1 implies #[trigger] version_order(t[k], t[k + 1]) != Order3::Greater by {
        if k + 1 < p {
            assert(t[k] == s[k] && t[k + 1] == s[k + 1]);
            assert(version_order(s[k], s[k + 1]) != Order3::Greater);
        } else if k + 1 == p {
            assert(t[k] == s[k] && t[k + 1] == x);
        } else if k == p {
            assert(t[k] == x && t[k + 1] == s[p]);
        } else {
            assert(t[k] == s[k - 1] && t[k + 1] == s[k]);
            assert(version_order(s[k - 1], s[(k - 1) + 1]) != Order3::Greater);
        }
    }
}

proof fn lemma_sorted_in_order(s: Seq<PackageVersion>)
    ensures
        in_store_order(sorted_versions(s)),
    decreases s.len(),
{
    if s.len() > 0 {
        lemma_sorted_in_order(s.drop_last());
        lemma_insert_keeps_order(sorted_versions(s.drop_last()), s.last());
    }
}

proof fn lemma_sorted_same_items(s: Seq<PackageVersion>)
    ensures
        sorted_versions(s).to_multiset() == s.to_multiset(),
    decreases s.len(),
{
    broadcast use vstd::seq_lib::group_to_multiset_ensures;
    if s.len() > 0 {
        lemma_sorted_same_items(s.drop_last());
        let r = sorted_versions(s.drop_last());
        lemma_ins_pos_bounds(r, s.last());
        vstd::seq_lib::to_multiset_insert(r, ins_pos(r, s.last()), s.last());
        assert(s =~= s.drop_last().push(s.last()));
        vstd::seq_lib::to_multiset_build(s.drop_last(), s.last());
    }
}

/// Merging mirror versions into the catalog lists the versions in store
/// order, and lists exactly the mirror's versions together with the
/// catalog's versions that no mirror version replaces.
pub proof fn law_merge_versions(existing: Seq<PackageVersion>, incoming: Seq<PackageVersion>)
    ensures
        in_store_order(spec_merge_versions(existing, incoming)),
        spec_merge_versions(existing, incoming).to_multiset()
            == (incoming + kept_existing(existing, incoming)).to_multiset(),
{
    lemma_sorted_in_order(incoming + kept_existing(existing, incoming));
    lemma_sorted_same_items(incoming + kept_existing(existing, incoming));
}

/// A catalog version stays after a merge exactly when no mirror version
/// has its name.
pub proof fn law_kept_existing(existing: Seq<PackageVersion>, incoming: Seq<PackageVersion>, v: PackageVersion)
    requires
        existing.contains(v),
    ensures
        kept_existing(existing, incoming).contains(v) <==> !has_version(incoming, v.version@),
    decreases existing.len(),
{
    lemma_kept_only_unreplaced(existing, incoming, v);
    if existing.last() == v {
        if !has_version(incoming, v.version@) {
            assert(kept_existing(existing, incoming).last() == v);
        }
    } else {
        let i = choose|i: int| 0 <= i < existing.len() && existing[i] == v;
        assert(i < existing.len() - 1);
        assert(existing.drop_last()[i] == v);
        law_kept_existing(existing.drop_last(), incoming, v);
        if kept_existing(existing.drop_last(), incoming).contains(v) {
            let prev = kept_existing(existing.drop_last(), incoming);
            let k = choose|k: int| 0 <= k < prev.len() && prev[k] == v;
            if !has_version(incoming, existing.last().version@) {
                assert(prev.push(existing.last())[k] == v);
            }
        }
    }
}

proof fn lemma_kept_only_unreplaced(existing: Seq<PackageVersion>, incoming: Seq<PackageVersion>, v: PackageVersion)
    ensures
        kept_existing(existing, incoming).contains(v) ==> !has_version(incoming, v.version@),
    decreases existing.len(),
{
    if existing.len() > 0 {
        lemma_kept_only_unreplaced(existing.drop_last(), incoming, v);
        let prev = kept_existing(existing.drop_last(), incoming);
        if kept_existing(existing, incoming).contains(v) && !prev.contains(v) {
            let cur = kept_existing(existing, incoming);
            let k = choose|k: int| 0 <= k < cur.len() && cur[k] == v;
            if !has_version(incoming, existing.last().version@) {
                if k < prev.len() {
                    assert(prev[k] == v);
                }
            }
        }
    }
}

} // verus!

verus! {

/// Whether a directory name joined to a root would leave it: one that
/// begins with a path separator or names a drive (`X:`).
pub open spec fn escapes_root(d: Seq<char>) -> bool {
    ||| d.len() > 0 && (d[0] == '\\' || d[0] == '/')
    ||| d.len() > 1 && d[1] == ':'
}

/// The directory an uninstall removes: the package's directory under the
/// packages root. A directory name that would leave the root is refused.
pub fn uninstall_target(packages_root: &str, name: &str, version: &str) -> (r: Result<String, String>)
    ensures
        ({
            let d = crate::paths::spec_phpstudy_dir_name(name@, version@);
            if escapes_root(d) {
                r matches Err(m) && m@ == "安全检查失败：目标路径逃出安装根"@
            } else {
                r matches Ok(t) && t@ == crate::paths::win_join(packages_root@, d)
            }
        }),
{
    let d = chars_of(crate::paths::phpstudy_style_dir_name(name, version).as_str());
    let escapes = (d.len() > 0 && (d[0] == '\\' || d[0] == '/')) || (d.len() > 1 && d[1] == ':');
    if escapes {
        return Err(string_of(&chars_of("安全检查失败：目标路径逃出安装根")));
    }
    let root = chars_of(packages_root);
    let t = crate::paths::win_join_exec(&root, &d);
    Ok(string_of(&t))
}

/// The directory of a package of the store never leaves the packages root:
/// it is the root followed by the package's own directory name.
pub proof fn law_store_target_stays_under_root(root: Seq<char>, name: Seq<char>, version: Seq<char>)
    requires
        spec_store_kind(name) is Some,
    ensures
        !escapes_root(crate::paths::spec_phpstudy_dir_name(name, version)),
        crate::text::starts_with(crate::paths::win_join(root, crate::paths::spec_phpstudy_dir_name(name, version)), root),
{
    reveal_strlit("nginx");
    reveal_strlit("apache");
    reveal_strlit("mysql");
    reveal_strlit("redis");
    reveal_strlit("php");
    reveal_strlit("Nginx");
    reveal_strlit("Apache");
    reveal_strlit("MySQL");
    reveal_strlit("Redis");
    reveal_strlit("php/php");
    let d = crate::paths::spec_phpstudy_dir_name(name, version);
    let j = crate::paths::win_join(root, d);
    assert(j.take(root.len() as int) =~= root);
}

} // verus!
