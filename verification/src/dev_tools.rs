//! The developer-tools page: which MySQL installations exist and which one
//! is on `PATH`, what on the system `PATH` shadows it, which Composer is the
//! global one, and the launcher script that makes a Composer global.

use vstd::prelude::*;
use crate::text::{chars_of, string_of, append, append_str, eq, lower, lower_of, replace_char, replace_char_exec, trim, trim_of, trim_end_char, trim_end_char_exec, split_char, split_char_exec, views, contains, contains_chars};
use crate::paths::spec_path_contains;
use crate::strangers::unicode_lower;

verus! {

/// One MySQL installation offered on the page.
pub struct MysqlOption {
    pub version: String,
    pub install_path: String,
    pub data_dir: String,
    pub bin_dir: String,
    pub port: u16,
    pub initialized: bool,
    pub root_password: String,
    /// `store`, `phpstudy`, `manual` or `system`.
    pub source: String,
}

/// The MySQL part of the page.
pub struct MysqlToolInfo {
    /// The first installation whose `bin` directory is on the user or
    /// system `PATH`.
    pub active_version: Option<String>,
    pub available: Vec<MysqlOption>,
    /// System `PATH` directories holding a `mysqld.exe` other than the
    /// active one: they shadow the user `PATH`.
    pub conflicts: Vec<String>,
}

/// The key under which two install paths are the same installation:
/// `/` as `\`, trailing `\` dropped, ASCII lowercase.
pub open spec fn install_key(p: Seq<char>) -> Seq<char> {
    lower(trim_end_char(replace_char(p, '/', '\\'), '\\'))
}

/// An install path in its comparison form.
pub fn normalize_install(p: &str) -> (r: String)
    ensures
        r@ == install_key(p@),
{
    let a = replace_char_exec(&chars_of(p), '/', '\\');
    let b = trim_end_char_exec(&a, '\\');
    string_of(&lower_of(&b))
}

/// Some option before `n` is the same installation as `key`.
pub open spec fn key_seen(opts: Seq<MysqlOption>, key: Seq<char>) -> bool {
    exists|i: int| 0 <= i < opts.len() && install_key((#[trigger] opts[i]).install_path@) == key
}

/// The options in order, an installation seen before left out.
pub open spec fn dedup_installs(opts: Seq<MysqlOption>) -> Seq<MysqlOption>
    decreases opts.len(),
{
    if opts.len() == 0 {
        Seq::empty()
    } else {
        let prev = dedup_installs(opts.drop_last());
        if key_seen(prev, install_key(opts.last().install_path@)) {
            prev
        } else {
            prev.push(opts.last())
        }
    }
}

/// The first option whose `bin` directory is on `path_value`.
pub open spec fn first_on_path(opts: Seq<MysqlOption>, path_value: Seq<char>) -> Option<int>
    decreases opts.len(),
{
    if opts.len() == 0 {
        None
    } else if spec_path_contains(path_value, opts[0].bin_dir@) {
        Some(0)
    } else {
        match first_on_path(opts.drop_first(), path_value) {
            Some(i) => Some(i + 1),
            None => None,
        }
    }
}

/// The system `PATH` directories with a `mysqld.exe` that are not the
/// active installation's `bin` directory (compared in install-key form).
pub open spec fn spec_conflicts(with_mysqld: Seq<Seq<char>>, keep_bin: Option<Seq<char>>) -> Seq<Seq<char>>
    decreases with_mysqld.len(),
{
    if with_mysqld.len() == 0 {
        Seq::empty()
    } else {
        let prev = spec_conflicts(with_mysqld.drop_last(), keep_bin);
        let e = with_mysqld.last();
        match keep_bin {
            Some(k) if install_key(e) == install_key(k) => prev,
            _ => prev.push(e),
        }
    }
}

/// The non-blank entries of a `PATH` value, trimmed, in order.
pub open spec fn spec_path_entries(parts: Seq<Seq<char>>) -> Seq<Seq<char>>
    decreases parts.len(),
{
    if parts.len() == 0 {
        Seq::empty()
    } else {
        let prev = spec_path_entries(parts.drop_last());
        if trim(parts.last()).len() == 0 { prev } else { prev.push(trim(parts.last())) }
    }
}

/// The directories of the system `PATH` value, trimmed, blanks left out.
pub fn system_path_entries(path_value: &str) -> (r: Vec<String>)
    ensures
        r@.map_values(|s: String| s@) == spec_path_entries(split_char(path_value@, ';')),
{
    let parts = split_char_exec(&chars_of(path_value), ';');
    let ghost pv = views(parts@);
    let mut r: Vec<String> = Vec::new();
    let mut i: usize = 0;
    while i < parts.len()
        invariant
            i <= parts.len(),
            pv == views(parts@),
            r@.map_values(|s: String| s@) == spec_path_entries(pv.take(i as int)),
        decreases parts.len() - i,
    {
        assert(pv.take(i + 1).drop_last() =~= pv.take(i as int));
        assert(pv.take(i + 1).last() == parts@[i as int]@);
        let t = trim_of(&parts[i]);
        if t.len() > 0 {
            let ghost r0 = r@.map_values(|s: String| s@);
            r.push(string_of(&t));
            assert(r@.map_values(|s: String| s@) =~= r0.push(t@));
        }
        i += 1;
    }
    assert(pv.take(parts.len() as int) =~= pv);
    r
}

/// The system `PATH` directories that shadow the active MySQL, from those
/// that hold a `mysqld.exe`.
pub fn mysql_conflicts(with_mysqld: &Vec<String>, keep_bin: Option<&str>) -> (r: Vec<String>)
    ensures
        r@.map_values(|s: String| s@) == spec_conflicts(
            with_mysqld@.map_values(|s: String| s@),
            match keep_bin { Some(k) => Some(k@), None => None },
        ),
{
    let ghost wv = with_mysqld@.map_values(|s: String| s@);
    let ghost kb: Option<Seq<char>> = match keep_bin { Some(k) => Some(k@), None => None };
    let keep_norm: Option<String> = match keep_bin {
        Some(k) => Some(normalize_install(k)),
        None => None,
    };
    let mut r: Vec<String> = Vec::new();
    let mut i: usize = 0;
    while i < with_mysqld.len()
        invariant
            i <= with_mysqld.len(),
            wv == with_mysqld@.map_values(|s: String| s@),
            kb == (match keep_bin { Some(k) => Some(k@), None => None }),
            match keep_norm {
                Some(n) => kb matches Some(k) && n@ == install_key(k),
                None => kb is None,
            },
            r@.map_values(|s: String| s@) == spec_conflicts(wv.take(i as int), kb),
        decreases with_mysqld.len() - i,
    {
        assert(wv.take(i + 1).drop_last() =~= wv.take(i as int));
        assert(wv.take(i + 1).last() == with_mysqld@[i as int]@);
        let e = &with_mysqld[i];
        let skip = match &keep_norm {
            Some(n) => {
                let en = normalize_install(e.as_str());
                eq(&chars_of(en.as_str()), &chars_of(n.as_str()))
            },
            None => false,
        };
        if !skip {
            let ghost r0 = r@.map_values(|s: String| s@);
            r.push(e.clone());
            assert(r@.map_values(|s: String| s@) =~= r0.push(e@));
        }
        i += 1;
    }
    assert(wv.take(with_mysqld.len() as int) =~= wv);
    r
}

/// The MySQL part of the page from the installations found (the store's
/// first, then the services'), the user and system `PATH` joined by `;`,
/// and the system `PATH` directories holding a `mysqld.exe`: `None` when
/// nothing was found.
pub open spec fn spec_mysql_info(
    found: Seq<MysqlOption>,
    combined_path: Seq<char>,
    with_mysqld: Seq<Seq<char>>,
) -> Option<(Option<Seq<char>>, Seq<MysqlOption>, Seq<Seq<char>>)> {
    let avail = dedup_installs(found);
    if avail.len() == 0 {
        None
    } else {
        let active = first_on_path(avail, combined_path);
        let keep = match active {
            Some(i) => Some(avail[i].bin_dir@),
            None => None,
        };
        Some((
            match active { Some(i) => Some(avail[i].version@), None => None },
            avail,
            spec_conflicts(with_mysqld, keep),
        ))
    }
}

proof fn lemma_first_on_path(opts: Seq<MysqlOption>, p: Seq<char>, i: int)
    requires
        0 <= i <= opts.len(),
        forall|j: int| 0 <= j < i ==> !spec_path_contains(p, (#[trigger] opts[j]).bin_dir@),
    ensures
        i < opts.len() && spec_path_contains(p, opts[i].bin_dir@) ==> first_on_path(opts, p) == Some(i),
        i == opts.len() ==> first_on_path(opts, p) is None,
    decreases i,
{
    if i > 0 {
        let t = opts.drop_first();
        assert forall|j: int| 0 <= j < i - 1 implies !spec_path_contains(p, (#[trigger] t[j]).bin_dir@) by {
            assert(t[j] == opts[j + 1]);
        }
        assert(!spec_path_contains(p, opts[0].bin_dir@));
        lemma_first_on_path(t, p, i - 1);
    }
}

fn first_on_path_exec(avail: &Vec<MysqlOption>, combined_path: &str) -> (r: Option<usize>)
    ensures
        match r {
            Some(a) => a < avail.len() && first_on_path(avail@, combined_path@) == Some(a as int),
            None => first_on_path(avail@, combined_path@) is None,
        },
{
    let mut i: usize = 0;
    while i < avail.len()
        invariant
            i <= avail.len(),
            forall|j: int| 0 <= j < i ==> !spec_path_contains(combined_path@, (#[trigger] avail@[j]).bin_dir@),
        decreases avail.len() - i,
    {
        if crate::paths::path_contains(combined_path, avail[i].bin_dir.as_str()) {
            proof {
                lemma_first_on_path(avail@, combined_path@, i as int);
            }
            return Some(i);
        }
        i += 1;
    }
    proof {
        lemma_first_on_path(avail@, combined_path@, avail.len() as int);
    }
    None
}

/// The MySQL part of the page (see `spec_mysql_info`).
pub fn mysql_tool_info(found: Vec<MysqlOption>, combined_path: &str, with_mysqld: &Vec<String>) -> (r: Option<MysqlToolInfo>)
    ensures
        match spec_mysql_info(found@, combined_path@, with_mysqld@.map_values(|s: String| s@)) {
            None => r is None,
            Some((active, avail, conflicts)) => r matches Some(info)
                && (match info.active_version { Some(v) => active == Some(v@), None => active is None })
                && info.available@ == avail
                && info.conflicts@.map_values(|s: String| s@) == conflicts,
        },
{
    let ghost f0 = found@;
    let mut rest = found;
    let mut avail: Vec<MysqlOption> = Vec::new();
    let mut keys: Vec<Vec<char>> = Vec::new();
    let mut k: usize = 0;
    let n = rest.len();
    assert(f0.skip(0) =~= f0);
    while rest.len() > 0
        invariant
            k <= f0.len(),
            n == f0.len(),
            rest@ == f0.skip(k as int),
            avail@ == dedup_installs(f0.take(k as int)),
            keys@.len() == avail@.len(),
            forall|j: int| 0 <= j < keys@.len() ==> (#[trigger] keys@[j])@ == install_key(avail@[j].install_path@),
        decreases rest.len(),
    {
        let o = rest.remove(0);
        assert(o == f0[k as int]);
        assert(f0.take(k + 1).drop_last() =~= f0.take(k as int));
        let key = chars_of(normalize_install(o.install_path.as_str()).as_str());
        let mut seen = false;
        let mut j: usize = 0;
        while j < keys.len()
            invariant
                j <= keys.len(),
                keys@.len() == avail@.len(),
                forall|q: int| 0 <= q < keys@.len() ==> (#[trigger] keys@[q])@ == install_key(avail@[q].install_path@),
                seen <==> exists|q: int| 0 <= q < j && install_key((#[trigger] avail@[q]).install_path@) == key@,
            decreases keys.len() - j,
        {
            assert(keys@[j as int]@ == install_key(avail@[j as int].install_path@));
            if eq(&keys[j], &key) {
                seen = true;
            }
            j += 1;
        }
        if !seen {
            avail.push(o);
            keys.push(key);
        }
        k += 1;
        assert(rest@ =~= f0.skip(k as int));
    }
    assert(f0.take(f0.len() as int) =~= f0);
    if avail.len() == 0 {
        return None;
    }
    let active = first_on_path_exec(&avail, combined_path);
    let (active_version, conflicts) = match active {
        Some(a) => (Some(avail[a].version.clone()), mysql_conflicts(with_mysqld, Some(avail[a].bin_dir.as_str()))),
        None => (None, mysql_conflicts(with_mysqld, None)),
    };
    Some(MysqlToolInfo { active_version, available: avail, conflicts })
}

// ------------------------------------------------------------------
// Composer
// ------------------------------------------------------------------

/// One Composer offered on the page.
pub struct ComposerOption {
    pub version: String,
    /// `system` or `store`.
    pub source: String,
    pub phar_path: String,
}

/// A path in the form the launcher script is searched in: `/` as `\`,
/// Unicode lowercase.
pub open spec fn shim_form(s: Seq<char>) -> Seq<char> {
    unicode_lower(replace_char(s, '/', '\\'))
}

/// The first option whose archive the launcher script names.
pub open spec fn first_named(opts: Seq<ComposerOption>, shim: Seq<char>) -> Option<int>
    decreases opts.len(),
{
    if opts.len() == 0 {
        None
    } else if contains(shim_form(shim), shim_form(opts[0].phar_path@)) {
        Some(0)
    } else {
        match first_named(opts.drop_first(), shim) {
            Some(i) => Some(i + 1),
            None => None,
        }
    }
}

/// The global Composer: the one the launcher script runs, else the first
/// one available.
pub open spec fn spec_active_composer(opts: Seq<ComposerOption>, shim: Option<Seq<char>>) -> Option<Seq<char>> {
    let named = match shim {
        Some(s) => first_named(opts, s),
        None => None,
    };
    match named {
        Some(i) => Some(opts[i].version@),
        None => if opts.len() > 0 { Some(opts[0].version@) } else { None },
    }
}

fn shim_form_exec(s: &str) -> (r: Vec<char>)
    ensures
        r@ == shim_form(s@),
{
    let rep = string_of(&replace_char_exec(&chars_of(s), '/', '\\'));
    chars_of(crate::strangers::to_lowercase(rep.as_str()).as_str())
}

proof fn lemma_first_named(opts: Seq<ComposerOption>, shim: Seq<char>, i: int)
    requires
        0 <= i <= opts.len(),
        forall|j: int| 0 <= j < i ==> !contains(shim_form(shim), shim_form((#[trigger] opts[j]).phar_path@)),
    ensures
        i < opts.len() && contains(shim_form(shim), shim_form(opts[i].phar_path@)) ==> first_named(opts, shim) == Some(i),
        i == opts.len() ==> first_named(opts, shim) is None,
    decreases i,
{
    if i > 0 {
        let t = opts.drop_first();
        assert forall|j: int| 0 <= j < i - 1 implies !contains(shim_form(shim), shim_form((#[trigger] t[j]).phar_path@)) by {
            assert(t[j] == opts[j + 1]);
        }
        assert(!contains(shim_form(shim), shim_form(opts[0].phar_path@)));
        lemma_first_named(t, shim, i - 1);
    }
}

/// The version of the global Composer, from the launcher script's text
/// when there is one.
pub fn active_composer(opts: &Vec<ComposerOption>, shim: Option<&str>) -> (r: Option<String>)
    ensures
        match spec_active_composer(opts@, match shim { Some(s) => Some(s@), None => None }) {
            Some(v) => r matches Some(x) && x@ == v,
            None => r is None,
        },
{
    match shim {
        Some(s) => {
            let content = shim_form_exec(s);
            let mut i: usize = 0;
            while i < opts.len()
                invariant
                    i <= opts.len(),
                    shim matches Some(x) && x@ == s@,
                    content@ == shim_form(s@),
                    forall|j: int| 0 <= j < i ==> !contains(shim_form(s@), shim_form((#[trigger] opts@[j]).phar_path@)),
                decreases opts.len() - i,
            {
                let p = shim_form_exec(opts[i].phar_path.as_str());
                if contains_chars(&content, &p) {
                    proof {
                        lemma_first_named(opts@, s@, i as int);
                    }
                    return Some(opts[i].version.clone());
                }
                i += 1;
            }
            proof {
                lemma_first_named(opts@, s@, opts.len() as int);
            }
        },
        None => {},
    }
    if opts.len() > 0 {
        Some(opts[0].version.clone())
    } else {
        None
    }
}

/// The text of `composer.bat`, which runs the chosen archive with the
/// global PHP launcher.
pub open spec fn spec_composer_shim(php_shim: Seq<char>, phar: Seq<char>) -> Seq<char> {
    "@echo off\r\n\""@ + php_shim + "\" \""@ + phar + "\" %*\r\n"@
}

/// The text of `composer.bat` for the chosen archive.
pub fn composer_shim(php_shim: &str, phar: &str) -> (r: String)
    ensures
        r@ == spec_composer_shim(php_shim@, phar@),
{
    let mut m = chars_of("@echo off\r\n\"");
    append_str(&mut m, php_shim);
    append_str(&mut m, "\" \"");
    append_str(&mut m, phar);
    append_str(&mut m, "\" %*\r\n");
    string_of(&m)
}

/// The message when a new MySQL root password is empty.
pub fn check_new_password(new_password: &str) -> (r: Result<(), String>)
    ensures
        new_password@.len() == 0 ==> (r matches Err(m) && m@ == "新密码不能为空"@),
        new_password@.len() > 0 ==> r is Ok,
{
    if chars_of(new_password).len() == 0 {
        proof { reveal_strlit("新密码不能为空"); }
        Err(string_of(&chars_of("新密码不能为空")))
    } else {
        Ok(())
    }
}

} // verus!

verus! {

/// No installation is offered twice: the options kept have pairwise
/// different install keys.
pub proof fn law_installs_distinct(found: Seq<MysqlOption>)
    ensures
        forall|i: int, j: int| 0 <= i < j < dedup_installs(found).len() ==>
            install_key((#[trigger] dedup_installs(found)[i]).install_path@)
                != install_key((#[trigger] dedup_installs(found)[j]).install_path@),
    decreases found.len(),
{
    if found.len() > 0 {
        law_installs_distinct(found.drop_last());
        let prev = dedup_installs(found.drop_last());
        let cur = dedup_installs(found);
        if !key_seen(prev, install_key(found.last().install_path@)) {
            assert forall|i: int, j: int| 0 <= i < j < cur.len() implies
                install_key((#[trigger] cur[i]).install_path@) != install_key((#[trigger] cur[j]).install_path@) by {
                if j == prev.len() {
                    assert(cur[i] == prev[i]);
                    if install_key(prev[i].install_path@) == install_key(found.last().install_path@) {
                        assert(key_seen(prev, install_key(found.last().install_path@)));
                    }
                } else {
                    assert(cur[i] == prev[i] && cur[j] == prev[j]);
                }
            }
        }
    }
}

} // verus!

verus! {

/// The Composer part of the page.
pub struct ComposerToolInfo {
    pub active_version: Option<String>,
    pub available: Vec<ComposerOption>,
}

/// The Node.js version manager part of the page.
pub struct NvmToolInfo {
    pub nvm_version: String,
    /// `store` or `system`.
    pub nvm_source: String,
    pub nvm_home: String,
    pub current_node: Option<String>,
    pub installed_nodes: Vec<String>,
}

/// The developer-tools page.
pub struct DevToolsInfo {
    pub composer: Option<ComposerToolInfo>,
    pub nvm: Option<NvmToolInfo>,
    pub mysql: Option<MysqlToolInfo>,
}

/// The Composer part of the page from the Composers found (the system's
/// first, then the store's) and the launcher script's text: none when no
/// Composer was found.
pub fn composer_tool_info(available: Vec<ComposerOption>, shim: Option<&str>) -> (r: Option<ComposerToolInfo>)
    ensures
        available@.len() == 0 ==> r is None,
        available@.len() > 0 ==> (r matches Some(info) && info.available@ == available@
            && match spec_active_composer(available@, match shim { Some(s) => Some(s@), None => None }) {
                Some(v) => info.active_version matches Some(x) && x@ == v,
                None => info.active_version is None,
            }),
{
    if available.len() == 0 {
        return None;
    }
    let active_version = active_composer(&available, shim);
    Some(ComposerToolInfo { active_version, available })
}

/// The message when no installation of a tool is found.
pub fn none_found_message(tool: &str) -> (r: String)
    ensures
        r@ == "未找到任何 "@ + tool@ + " 安装"@,
{
    let mut m = chars_of("未找到任何 ");
    crate::text::append_str(&mut m, tool);
    crate::text::append_str(&mut m, " 安装");
    string_of(&m)
}

/// The message when the chosen version of a tool is not installed.
pub fn version_not_found_message(tool: &str, version: &str) -> (r: String)
    ensures
        r@ == "未找到 "@ + tool@ + " v"@ + version@,
{
    let mut m = chars_of("未找到 ");
    crate::text::append_str(&mut m, tool);
    crate::text::append_str(&mut m, " v");
    crate::text::append_str(&mut m, version);
    string_of(&m)
}

/// The message when MySQL must run before its password can change.
pub fn mysql_not_running_message(port: u16) -> (r: String)
    ensures
        r@ == "MySQL 服务未运行（127.0.0.1:"@ + crate::num::decimal(port as nat) + " 未监听），请先在仪表盘启动它再修改密码"@,
{
    let mut m = chars_of("MySQL 服务未运行（127.0.0.1:");
    crate::text::append_str(&mut m, crate::num::u64_to_string(port as u64).as_str());
    crate::text::append_str(&mut m, " 未监听），请先在仪表盘启动它再修改密码");
    string_of(&m)
}

} // verus!
