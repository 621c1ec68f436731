//! Finding services installed as Windows services: which service names
//! are web, database and cache servers, which of them run according to
//! `sc query`, where their executable lies according to `sc qc`, and which
//! installs belong to PHPStudy or to this manager and are skipped.

use vstd::prelude::*;
use crate::text::{chars_of, string_of, trim, trim_of, lines, lines_of, contains, contains_str, starts_with, views, slice_of};
use crate::service::{ServiceInstance, ServiceKind};
use crate::strangers::{unicode_lower, last_sep};
use crate::vhost_scan::{words, words_exec, find_str, find_str_exec};

verus! {

/// Service-name fragments and the kind they stand for, in the order tried.
pub open spec fn patterns() -> Seq<(Seq<char>, ServiceKind)> {
    seq![
        ("mysql"@, ServiceKind::Mysql),
        ("mariadb"@, ServiceKind::Mysql),
        ("apache"@, ServiceKind::Apache),
        ("httpd"@, ServiceKind::Apache),
        ("redis"@, ServiceKind::Redis),
        ("nginx"@, ServiceKind::Nginx),
    ]
}

/// The kind of the first pattern found in `lower` from index `i` on.
pub open spec fn classify_from(lower: Seq<char>, i: int) -> Option<ServiceKind>
    decreases patterns().len() - i,
{
    if i < 0 || i >= patterns().len() {
        None
    } else if contains(lower, patterns()[i].0) {
        Some(patterns()[i].1)
    } else {
        classify_from(lower, i + 1)
    }
}

/// The kind a Windows service name stands for: the first pattern its
/// lowercase contains.
pub open spec fn spec_classify(name: Seq<char>) -> Option<ServiceKind> {
    classify_from(unicode_lower(name), 0)
}

/// The kind a Windows service name stands for, if any.
pub fn classify_service(name: &str) -> (r: Option<ServiceKind>)
    ensures
        r == spec_classify(name@),
{
    let l = chars_of(crate::strangers::to_lowercase(name).as_str());
    let pats = vec!["mysql", "mariadb", "apache", "httpd", "redis", "nginx"];
    let kinds = vec![
        ServiceKind::Mysql,
        ServiceKind::Mysql,
        ServiceKind::Apache,
        ServiceKind::Apache,
        ServiceKind::Redis,
        ServiceKind::Nginx,
    ];
    let ghost pv = pats@.map_values(|p: &str| p@);
    proof {
        assert(pv =~= patterns().map_values(|x: (Seq<char>, ServiceKind)| x.0));
        assert(kinds@ =~= patterns().map_values(|x: (Seq<char>, ServiceKind)| x.1));
    }
    let mut i: usize = 0;
    while i < pats.len()
        invariant
            i <= pats.len(),
            pats.len() == 6,
            kinds.len() == 6,
            pv == pats@.map_values(|p: &str| p@),
            pv == patterns().map_values(|x: (Seq<char>, ServiceKind)| x.0),
            kinds@ == patterns().map_values(|x: (Seq<char>, ServiceKind)| x.1),
            l@ == unicode_lower(name@),
            classify_from(l@, 0) == classify_from(l@, i as int),
        decreases pats.len() - i,
    {
        assert(pv[i as int] == pats@[i as int]@);
        assert(pv[i as int] == patterns()[i as int].0);
        assert(kinds@[i as int] == patterns()[i as int].1);
        if contains_str(&l, pats[i]) {
            return Some(kinds[i]);
        }
        i += 1;
    }
    None
}

/// The `sc query` reader: the services found running so far, the name of
/// the service being read, and whether it was seen running.
pub open spec fn sc_state(ls: Seq<Seq<char>>) -> (Seq<(Seq<char>, ServiceKind)>, Option<Seq<char>>, bool)
    decreases ls.len(),
{
    if ls.len() == 0 {
        (Seq::empty(), None, false)
    } else {
        let (found, name, running) = sc_state(ls.drop_last());
        let line = trim(ls.last());
        if starts_with(line, "SERVICE_NAME:"@) {
            (flush(found, name, running), Some(trim(line.skip(13))), false)
        } else if contains(line, "STATE"@) && contains(line, "RUNNING"@) {
            (found, name, true)
        } else {
            (found, name, running)
        }
    }
}

/// The services found, with the one being read added when it runs and
/// is of a known kind.
pub open spec fn flush(found: Seq<(Seq<char>, ServiceKind)>, name: Option<Seq<char>>, running: bool) -> Seq<(Seq<char>, ServiceKind)> {
    match name {
        Some(n) => if running && spec_classify(n) is Some { found.push((n, spec_classify(n)->0)) } else { found },
        None => found,
    }
}

/// The running services of known kinds in a `sc query` listing, in order.
pub open spec fn spec_running_services(out: Seq<char>) -> Seq<(Seq<char>, ServiceKind)> {
    let (found, name, running) = sc_state(lines(out));
    flush(found, name, running)
}

fn flush_exec(found: &mut Vec<(String, ServiceKind)>, name: &Option<String>, running: bool)
    ensures
        final(found)@.map_values(|x: (String, ServiceKind)| (x.0@, x.1)) == flush(
            old(found)@.map_values(|x: (String, ServiceKind)| (x.0@, x.1)),
            match name { Some(n) => Some(n@), None => None },
            running,
        ),
{
    match name {
        Some(n) => {
            if running {
                match classify_service(n.as_str()) {
                    Some(k) => {
                        let ghost f0 = found@.map_values(|x: (String, ServiceKind)| (x.0@, x.1));
                        found.push((n.clone(), k));
                        assert(found@.map_values(|x: (String, ServiceKind)| (x.0@, x.1)) =~= f0.push((n@, k)));
                    },
                    None => {},
                }
            }
        },
        None => {},
    }
}

/// The running services of known kinds in the output of
/// `sc query type= service state= all`: each `SERVICE_NAME:` line starts
/// a service, a `STATE` line saying `RUNNING` marks it running.
pub fn running_services(sc_query_output: &str) -> (r: Vec<(String, ServiceKind)>)
    ensures
        r@.map_values(|x: (String, ServiceKind)| (x.0@, x.1)) == spec_running_services(sc_query_output@),
{
    let ls = lines_of(&chars_of(sc_query_output));
    let ghost lv = views(ls@);
    let mut found: Vec<(String, ServiceKind)> = Vec::new();
    let mut name: Option<String> = None;
    let mut running = false;
    let mut i: usize = 0;
    proof {
        reveal_strlit("SERVICE_NAME:");
    }
    while i < ls.len()
        invariant
            i <= ls.len(),
            lv == views(ls@),
            (found@.map_values(|x: (String, ServiceKind)| (x.0@, x.1)), match name { Some(n) => Some(n@), None => None }, running)
                == sc_state(lv.take(i as int)),
        decreases ls.len() - i,
    {
        assert(lv.take(i + 1).drop_last() =~= lv.take(i as int));
        assert(lv.take(i + 1).last() == ls@[i as int]@);
        let line = trim_of(&ls[i]);
        proof {
            reveal_strlit("SERVICE_NAME:");
        }
        if crate::text::starts_with_str(&line, "SERVICE_NAME:") {
            flush_exec(&mut found, &name, running);
            let rest = slice_of(&line, 13, line.len());
            assert(rest@ =~= line@.skip(13));
            name = Some(string_of(&trim_of(&rest)));
            running = false;
        } else if contains_str(&line, "STATE") && contains_str(&line, "RUNNING") {
            running = true;
        }
        i += 1;
    }
    assert(lv.take(ls.len() as int) =~= lv);
    flush_exec(&mut found, &name, running);
    found
}

/// The executable path of a `BINARY_PATH_NAME` line of `sc qc`: after the
/// key and the spaces and colons that follow it, the quoted path, or else
/// the first word.
pub open spec fn spec_exe_path(line: Seq<char>) -> Option<Seq<char>> {
    match find_str(line, "BINARY_PATH_NAME"@) {
        None => None,
        Some(k) => {
            let after = skip_sep(line.skip(k + 16));
            if after.len() > 0 && after[0] == '"' {
                match crate::text::find_char(after.drop_first(), '"') {
                    Some(e) => Some(after.drop_first().take(e)),
                    None => None,
                }
            } else {
                let ws = words(after);
                if ws.len() > 0 { Some(ws[0]) } else { None }
            }
        },
    }
}

/// `s` without its leading spaces and colons.
pub open spec fn skip_sep(s: Seq<char>) -> Seq<char>
    decreases s.len(),
{
    if s.len() > 0 && (s[0] == ' ' || s[0] == ':') { skip_sep(s.drop_first()) } else { s }
}

fn skip_sep_exec(s: &[char]) -> (r: Vec<char>)
    ensures
        r@ == skip_sep(s@),
{
    let mut i: usize = 0;
    assert(s@.skip(0) =~= s@);
    while i < s.len() && (s[i] == ' ' || s[i] == ':')
        invariant
            i <= s.len(),
            skip_sep(s@) == skip_sep(s@.skip(i as int)),
        decreases s.len() - i,
    {
        assert(s@.skip(i as int).drop_first() =~= s@.skip(i + 1));
        i += 1;
    }
    let r = slice_of(s, i, s.len());
    assert(r@ =~= s@.skip(i as int));
    r
}

/// The executable path named on a `BINARY_PATH_NAME` line, if any.
pub fn extract_exe_path(line: &str) -> (r: Option<String>)
    ensures
        match spec_exe_path(line@) {
            Some(p) => r matches Some(s) && s@ == p,
            None => r is None,
        },
{
    let c = chars_of(line);
    proof {
        reveal_strlit("BINARY_PATH_NAME");
    }
    let k = match find_str_exec(&c, &chars_of("BINARY_PATH_NAME")) {
        Some(k) => k,
        None => return None,
    };
    let tail = slice_of(&c, k + 16, c.len());
    assert(tail@ =~= c@.skip(k + 16));
    let after = skip_sep_exec(&tail);
    if after.len() > 0 && after[0] == '"' {
        let inner = slice_of(&after, 1, after.len());
        assert(inner@ =~= after@.drop_first());
        match crate::text::find_char_exec(&inner, '"') {
            Some(e) => {
                let p = slice_of(&inner, 0, e);
                assert(p@ =~= inner@.take(e as int));
                Some(string_of(&p))
            },
            None => None,
        }
    } else {
        let ws = words_exec(&after);
        if ws.len() > 0 {
            assert(views(ws@)[0] == ws@[0]@);
            Some(string_of(&ws[0]))
        } else {
            None
        }
    }
}

/// The parent of a Windows path, by its last separator: the root
/// separator is kept (`C:\x` → `C:\`), a bare name has an empty parent.
pub open spec fn win_parent(p: Seq<char>) -> Seq<char> {
    match last_sep(p) {
        Some(i) => if i == 0 || (i == 2 && p[1] == ':') { p.take(i + 1) } else { p.take(i) },
        None => Seq::empty(),
    }
}

pub(crate) fn win_parent_exec(p: &[char]) -> (r: Vec<char>)
    ensures
        r@ == win_parent(p@),
{
    match crate::strangers::last_sep_exec(p) {
        Some(i) => {
            if i == 0 || (i == 2 && p[1] == ':') {
                slice_of(p, 0, i + 1)
            } else {
                slice_of(p, 0, i)
            }
        },
        None => Vec::new(),
    }
}

/// The install root of a service from its executable: the executable's
/// directory, one level higher for Apache and MySQL (their executables
/// live in `bin`).
pub open spec fn spec_install_root(exe: Seq<char>, kind: ServiceKind) -> Seq<char> {
    match kind {
        ServiceKind::Apache | ServiceKind::Mysql => win_parent(win_parent(exe)),
        _ => win_parent(exe),
    }
}

/// The install root of a service from its executable path.
pub fn install_root(exe: &str, kind: ServiceKind) -> (r: String)
    ensures
        r@ == spec_install_root(exe@, kind),
{
    let p = win_parent_exec(&chars_of(exe));
    match kind {
        ServiceKind::Apache | ServiceKind::Mysql => string_of(&win_parent_exec(&p)),
        _ => string_of(&p),
    }
}

/// An install inside PHPStudy's extensions or this manager's own install
/// roots (compared in lowercase): found by those scans instead.
pub open spec fn spec_is_managed_root(root: Seq<char>) -> bool {
    let s = unicode_lower(root);
    (contains(s, "phpstudy"@) && contains(s, "extensions"@)) || (contains(s, "ruststudy"@) && contains(s, "extensions"@))
        || (contains(s, "ruststudy"@) && contains(s, "packages"@))
}

/// Whether a Windows service's install root is one another scan covers.
pub fn is_managed_root(root: &str) -> (r: bool)
    ensures
        r == spec_is_managed_root(root@),
{
    let s = chars_of(crate::strangers::to_lowercase(root).as_str());
    (contains_str(&s, "phpstudy") && contains_str(&s, "extensions")) || (contains_str(&s, "ruststudy")
        && contains_str(&s, "extensions")) || (contains_str(&s, "ruststudy") && contains_str(&s, "packages"))
}

} // verus!

verus! {

/// The output of `sc qc` for the `i`-th running service; empty when the
/// query gave none.
pub open spec fn qc_at(qcs: Seq<Seq<char>>, i: int) -> Seq<char> {
    if 0 <= i < qcs.len() {
        qcs[i]
    } else {
        Seq::empty()
    }
}

/// The install root of a running service of `kind` whose `sc qc` output is
/// `qc`: the root of the executable named on its `BINARY_PATH_NAME` line,
/// unless that root is one another scan covers.
pub open spec fn system_root(kind: ServiceKind, qc: Seq<char>) -> Option<Seq<char>> {
    match spec_qc_exe(qc) {
        Some(exe) => {
            let root = spec_install_root(exe, kind);
            if spec_is_managed_root(root) {
                None
            } else {
                Some(root)
            }
        },
        None => None,
    }
}

/// The installs to probe, in order: for each running service of a known
/// kind (`svcs`, from `sc query`), its kind and install root, when its
/// `sc qc` output names an executable outside the managed trees.
pub open spec fn spec_system_installs(
    svcs: Seq<(Seq<char>, ServiceKind)>,
    qcs: Seq<Seq<char>>,
) -> Seq<(ServiceKind, Seq<char>)>
    decreases svcs.len(),
{
    if svcs.len() == 0 {
        Seq::empty()
    } else {
        let rest = spec_system_installs(svcs.drop_last(), qcs);
        let i = svcs.len() - 1;
        match system_root(svcs[i].1, qc_at(qcs, i)) {
            Some(root) => rest.push((svcs[i].1, root)),
            None => rest,
        }
    }
}

/// The view of a list of installs.
pub open spec fn installs_view(v: Seq<(ServiceKind, String)>) -> Seq<(ServiceKind, Seq<char>)> {
    v.map_values(|x: (ServiceKind, String)| (x.0, x.1@))
}

/// Every install found comes from one of the running services, with that
/// service's kind, and lies outside the managed trees.
pub proof fn law_system_installs_origin(svcs: Seq<(Seq<char>, ServiceKind)>, qcs: Seq<Seq<char>>)
    ensures
        forall|k: int|
            0 <= k < spec_system_installs(svcs, qcs).len() ==> {
                let e = #[trigger] spec_system_installs(svcs, qcs)[k];
                &&& !spec_is_managed_root(e.1)
                &&& exists|j: int| 0 <= j < svcs.len() && svcs[j].1 == e.0 && system_root(e.0, qc_at(qcs, j)) == Some(e.1)
            },
    decreases svcs.len(),
{
    if svcs.len() > 0 {
        let p = svcs.drop_last();
        law_system_installs_origin(p, qcs);
        let rest = spec_system_installs(p, qcs);
        let all = spec_system_installs(svcs, qcs);
        let i = svcs.len() - 1;
        assert forall|k: int| 0 <= k < all.len() implies {
            let e = #[trigger] all[k];
            &&& !spec_is_managed_root(e.1)
            &&& exists|j: int| 0 <= j < svcs.len() && svcs[j].1 == e.0 && system_root(e.0, qc_at(qcs, j)) == Some(e.1)
        } by {
            if k < rest.len() {
                assert(all[k] == rest[k]);
                let j = choose|j: int| 0 <= j < p.len() && p[j].1 == rest[k].0 && system_root(rest[k].0, qc_at(qcs, j)) == Some(rest[k].1);
                assert(svcs[j] == p[j]);
            } else {
                assert(svcs[i].1 == all[k].0);
            }
        }
    }
}

/// Discovery of services installed as Windows services.
pub struct SystemScanner;

impl SystemScanner {
    /// The installs that Windows services point at: each service that
    /// `sc query` lists as running and whose name holds a known pattern
    /// (first match decides the kind), with the install root of the
    /// executable its `sc qc` output names (`qc_outputs[i]` for the `i`-th
    /// such service, in the order `running_services` gives them), left out
    /// when the root lies in a PHPStudy or manager tree or no executable is
    /// named.
    pub fn installs(sc_query_output: &str, qc_outputs: &Vec<String>) -> (r: Vec<(ServiceKind, String)>)
        ensures
            installs_view(r@) == spec_system_installs(
                spec_running_services(sc_query_output@),
                crate::ssl_cert::string_views(qc_outputs@),
            ),
    {
        let svcs = running_services(sc_query_output);
        let ghost sv = svcs@.map_values(|x: (String, ServiceKind)| (x.0@, x.1));
        let ghost qv = crate::ssl_cert::string_views(qc_outputs@);
        let mut r: Vec<(ServiceKind, String)> = Vec::new();
        let mut i: usize = 0;
        while i < svcs.len()
            invariant
                i <= svcs.len(),
                sv == svcs@.map_values(|x: (String, ServiceKind)| (x.0@, x.1)),
                qv == crate::ssl_cert::string_views(qc_outputs@),
                installs_view(r@) == spec_system_installs(sv.take(i as int), qv),
            decreases svcs.len() - i,
        {
            assert(sv.take(i + 1).drop_last() == sv.take(i as int));
            assert(sv.take(i + 1)[i as int] == sv[i as int]);
            let kind = svcs[i].1;
            let qc: &str = if i < qc_outputs.len() {
                qc_outputs[i].as_str()
            } else {
                ""
            };
            proof {
                if i < qc_outputs.len() {
                    assert(qv[i as int] == qc_outputs@[i as int]@);
                } else {
                    reveal_strlit("");
                }
            }
            assert(qc@ == qc_at(qv, i as int));
            match qc_exe_path(qc) {
                Some(exe) => {
                    let root = install_root(exe.as_str(), kind);
                    if !is_managed_root(root.as_str()) {
                        r.push((kind, root));
                    }
                },
                None => {},
            }
            assert(installs_view(r@) =~= spec_system_installs(sv.take(i + 1), qv));
            i += 1;
        }
        assert(sv.take(svcs.len() as int) == sv);
        r
    }

    /// The installations built from the running Windows services, each
    /// `(kind, install path)` once, in the order they were found.
    pub fn scan(found: Vec<ServiceInstance>) -> (r: Vec<ServiceInstance>)
        ensures
            r@ == crate::composite::push_all(Seq::empty(), found@),
    {
        let mut out: Vec<ServiceInstance> = Vec::new();
        crate::composite::push_all_exec(&mut out, found, false);
        out
    }
}

/// The executable named on the first `BINARY_PATH_NAME` line of the
/// output of `sc qc <service>`.
pub open spec fn bin_line() -> spec_fn(Seq<char>) -> bool {
    |l: Seq<char>| contains(l, "BINARY_PATH_NAME"@)
}

pub open spec fn spec_qc_exe(qc_output: Seq<char>) -> Option<Seq<char>> {
    match crate::text::first_where(lines(qc_output), bin_line()) {
        Some(i) => spec_exe_path(lines(qc_output)[i]),
        None => None,
    }
}

/// The executable of a Windows service, from `sc qc` output.
pub fn qc_exe_path(qc_output: &str) -> (r: Option<String>)
    ensures
        match r {
            Some(p) => spec_qc_exe(qc_output@) == Some(p@),
            None => spec_qc_exe(qc_output@) is None,
        },
{
    let ls = crate::text::lines_of(&chars_of(qc_output));
    let ghost p = bin_line();
    let mut i: usize = 0;
    while i < ls.len()
        invariant
            i <= ls.len(),
            p == bin_line(),
            views(ls@) == lines(qc_output@),
            forall|j: int| 0 <= j < i ==> !p(#[trigger] views(ls@)[j]),
        decreases ls.len() - i,
    {
        assert(views(ls@)[i as int] == ls@[i as int]@);
        if crate::text::contains_str(&ls[i], "BINARY_PATH_NAME") {
            proof {
                crate::text::lemma_first_where_found(views(ls@), p, i as int);
            }
            return extract_exe_path(string_of(&ls[i]).as_str());
        }
        i += 1;
    }
    proof {
        crate::text::lemma_first_where_none(views(ls@), p);
    }
    None
}

} // verus!
