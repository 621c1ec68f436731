//! Directory names and Windows `PATH` handling.

use vstd::prelude::*;
use crate::text::{
    append, append_str, chars_of, lower, replace_char, split_char, string_of, trim, trim_end_char,
    views,
};
use crate::config_editor::join_sep;

verus! {

// ======================== PATH entries ========================

/// The form in which two `PATH` entries are compared: trimmed, with `/`
/// read as `\\`, without trailing separators, in ASCII lower case.
pub open spec fn norm_path(s: Seq<char>) -> Seq<char> {
    lower(trim_end_char(replace_char(trim(s), '/', '\\'), '\\'))
}

fn norm_chars(s: &[char]) -> (r: Vec<char>)
    ensures
        r@ == norm_path(s@),
{
    let t = crate::text::trim_of(s);
    let u = crate::text::replace_char_exec(&t, '/', '\\');
    let w = crate::text::trim_end_char_exec(&u, '\\');
    crate::text::lower_of(&w)
}

/// A `PATH` entry normalized for comparison.
pub fn normalize_path(s: &str) -> (r: String)
    ensures
        r@ == norm_path(s@),
{
    string_of(&norm_chars(&chars_of(s)))
}

/// Some `;`-separated entry of `haystack` equals `target` once both are
/// normalized.
pub open spec fn spec_path_contains(haystack: Seq<char>, target: Seq<char>) -> bool {
    exists|i: int|
        0 <= i < split_char(haystack, ';').len() && norm_path(#[trigger] split_char(haystack, ';')[i])
            == norm_path(target)
}

fn contains_chars(h: &[char], t: &[char]) -> (r: bool)
    ensures
        r == spec_path_contains(h@, t@),
{
    let nt = norm_chars(t);
    let parts = crate::text::split_char_exec(h, ';');
    let mut i: usize = 0;
    while i < parts.len()
        invariant
            i <= parts.len(),
            views(parts@) == split_char(h@, ';'),
            nt@ == norm_path(t@),
            forall|j: int| 0 <= j < i ==> norm_path(#[trigger] split_char(h@, ';')[j]) != norm_path(t@),
        decreases parts.len() - i,
    {
        assert(views(parts@)[i as int] == parts@[i as int]@);
        let np = norm_chars(&parts[i]);
        if crate::text::eq(&np, &nt) {
            return true;
        }
        i += 1;
    }
    false
}

/// Whether the `PATH` value `haystack` already holds `target`, ignoring
/// case, surrounding spaces, trailing backslashes and the slash kind.
pub fn path_contains(haystack: &str, target: &str) -> (r: bool)
    ensures
        r == spec_path_contains(haystack@, target@),
{
    contains_chars(&chars_of(haystack), &chars_of(target))
}

/// `PATH` with `value` added at the end, or `None` when it is already
/// there; trailing `;` of the old value are dropped first.
pub open spec fn spec_appended_path(current: Seq<char>, value: Seq<char>) -> Option<Seq<char>> {
    if spec_path_contains(current, value) {
        None
    } else {
        let base = trim_end_char(current, ';');
        if base.len() == 0 {
            Some(value)
        } else {
            Some(base + ";"@ + value)
        }
    }
}

/// The new `PATH` value with `value` appended (see `spec_appended_path`).
pub fn appended_path(current: &str, value: &str) -> (r: Option<String>)
    ensures
        match r {
            Some(s) => spec_appended_path(current@, value@) == Some(s@),
            None => spec_appended_path(current@, value@) is None,
        },
{
    let c = chars_of(current);
    let v = chars_of(value);
    if contains_chars(&c, &v) {
        return None;
    }
    let mut base = crate::text::trim_end_char_exec(&c, ';');
    if base.len() == 0 {
        Some(string_of(&v))
    } else {
        append_str(&mut base, ";");
        append(&mut base, &v);
        Some(string_of(&base))
    }
}

/// The entries kept when `target` is taken out: the non-blank ones that
/// differ from it once normalized.
pub open spec fn kept_entries(parts: Seq<Seq<char>>, target: Seq<char>) -> Seq<Seq<char>>
    decreases parts.len(),
{
    if parts.len() == 0 {
        Seq::empty()
    } else {
        let r = kept_entries(parts.drop_last(), target);
        let p = parts.last();
        if trim(p).len() > 0 && norm_path(p) != norm_path(target) {
            r.push(p)
        } else {
            r
        }
    }
}

/// `PATH` without the entries equal to `value`, or `None` when it holds
/// none.
pub open spec fn spec_path_without(current: Seq<char>, value: Seq<char>) -> Option<Seq<char>> {
    if !spec_path_contains(current, value) {
        None
    } else {
        Some(join_sep(kept_entries(split_char(current, ';'), value), ";"@))
    }
}

/// The new `PATH` value with `value` removed (see `spec_path_without`).
pub fn path_without(current: &str, value: &str) -> (r: Option<String>)
    ensures
        match r {
            Some(s) => spec_path_without(current@, value@) == Some(s@),
            None => spec_path_without(current@, value@) is None,
        },
{
    let c = chars_of(current);
    let v = chars_of(value);
    if !contains_chars(&c, &v) {
        return None;
    }
    let nt = norm_chars(&v);
    let parts = crate::text::split_char_exec(&c, ';');
    let mut kept: Vec<Vec<char>> = Vec::new();
    let mut i: usize = 0;
    while i < parts.len()
        invariant
            i <= parts.len(),
            nt@ == norm_path(v@),
            views(kept@) == kept_entries(views(parts@).take(i as int), v@),
        decreases parts.len() - i,
    {
        let ghost pre = views(parts@).take(i as int);
        assert(views(parts@).take(i + 1).drop_last() == pre);
        assert(views(parts@).take(i + 1).last() == parts@[i as int]@);
        let t = crate::text::trim_of(&parts[i]);
        let np = norm_chars(&parts[i]);
        if t.len() > 0 && !crate::text::eq(&np, &nt) {
            let e = crate::text::slice_of(&parts[i], 0, parts[i].len());
            assert(e@ =~= parts@[i as int]@);
            kept.push(e);
        }
        assert(views(kept@) =~= kept_entries(views(parts@).take(i + 1), v@));
        i += 1;
    }
    assert(views(parts@).take(parts.len() as int) == views(parts@));
    let j = crate::config_editor::join_sep_exec(&kept, &chars_of(";"));
    Some(string_of(&j))
}

// ======================== Directory names ========================

/// The PHPStudy-style directory of an installed package: `Nginx1.26.2`,
/// `Apache…`, `MySQL…`, `Redis…`, `php/php842nts` (dots of the version
/// dropped), or name and version run together for anything else.
pub open spec fn spec_phpstudy_dir_name(name: Seq<char>, version: Seq<char>) -> Seq<char> {
    if name == "nginx"@ {
        "Nginx"@ + version
    } else if name == "apache"@ {
        "Apache"@ + version
    } else if name == "mysql"@ {
        "MySQL"@ + version
    } else if name == "redis"@ {
        "Redis"@ + version
    } else if name == "php"@ {
        "php/php"@ + drop_dots(version) + "nts"@
    } else {
        name + version
    }
}

/// The text without its dots.
pub open spec fn drop_dots(s: Seq<char>) -> Seq<char>
    decreases s.len(),
{
    if s.len() == 0 {
        s
    } else if s.last() == '.' {
        drop_dots(s.drop_last())
    } else {
        drop_dots(s.drop_last()).push(s.last())
    }
}

fn without_dots(v: &[char]) -> (r: Vec<char>)
    ensures
        r@ == drop_dots(v@),
{
    let mut r: Vec<char> = Vec::new();
    let mut i: usize = 0;
    while i < v.len()
        invariant
            i <= v.len(),
            r@ == drop_dots(v@.take(i as int)),
        decreases v.len() - i,
    {
        let ghost t = v@.take(i + 1);
        assert(t.drop_last() == v@.take(i as int));
        assert(t.last() == v@[i as int]);
        if v[i] != '.' {
            r.push(v[i]);
        }
        i += 1;
    }
    assert(v@.take(v.len() as int) == v@);
    r
}

/// The directory name PHPStudy would give the package.
pub fn phpstudy_style_dir_name(name: &str, version: &str) -> (r: String)
    ensures
        r@ == spec_phpstudy_dir_name(name@, version@),
{
    let n = chars_of(name);
    let v = chars_of(version);
    let mut r: Vec<char>;
    if crate::text::eq_str(&n, "nginx") {
        r = chars_of("Nginx");
        append(&mut r, &v);
    } else if crate::text::eq_str(&n, "apache") {
        r = chars_of("Apache");
        append(&mut r, &v);
    } else if crate::text::eq_str(&n, "mysql") {
        r = chars_of("MySQL");
        append(&mut r, &v);
    } else if crate::text::eq_str(&n, "redis") {
        r = chars_of("Redis");
        append(&mut r, &v);
    } else if crate::text::eq_str(&n, "php") {
        r = chars_of("php/php");
        append(&mut r, &without_dots(&v));
        append_str(&mut r, "nts");
    } else {
        r = n;
        append(&mut r, &v);
    }
    string_of(&r)
}

/// The directory under the user's home: `.naxone`, or `.naxone-dev` for a
/// development build, so that the two never share state.
pub fn naxone_home_dirname(dev: bool) -> (r: &'static str)
    ensures
        r@ == (if dev { ".naxone-dev"@ } else { ".naxone"@ }),
{
    if dev {
        ".naxone-dev"
    } else {
        ".naxone"
    }
}

/// The directory under `%APPDATA%`: `NaxOne`, or `NaxOne-dev` for a
/// development build.
pub fn naxone_appdata_dirname(dev: bool) -> (r: &'static str)
    ensures
        r@ == (if dev { "NaxOne-dev"@ } else { "NaxOne"@ }),
{
    if dev {
        "NaxOne-dev"
    } else {
        "NaxOne"
    }
}

/// A Windows path joined with one more component.
pub open spec fn win_join(base: Seq<char>, part: Seq<char>) -> Seq<char> {
    if base.len() == 0 || base.last() == '\\' || base.last() == '/' {
        base + part
    } else {
        base + seq!['\\'] + part
    }
}

pub fn win_join_exec(base: &[char], part: &[char]) -> (r: Vec<char>)
    ensures
        r@ == win_join(base@, part@),
{
    let mut r = crate::text::slice_of(base, 0, base.len());
    if !(base.len() == 0 || base[base.len() - 1] == '\\' || base[base.len() - 1] == '/') {
        r.push('\\');
    }
    append(&mut r, part);
    r
}

/// The home directory used when `USERPROFILE` is not set.
pub open spec fn home_or_default(userprofile: Option<Seq<char>>) -> Seq<char> {
    match userprofile {
        Some(h) => h,
        None => "C:\\Users\\Default"@,
    }
}

fn home_chars(userprofile: Option<&str>) -> (r: Vec<char>)
    ensures
        r@ == home_or_default(match userprofile {
            Some(h) => Some(h@),
            None => None,
        }),
{
    match userprofile {
        Some(h) => chars_of(h),
        None => chars_of("C:\\Users\\Default"),
    }
}

/// `<USERPROFILE>\<home dirname>`.
pub fn naxone_home_dir(userprofile: Option<&str>, dev: bool) -> (r: String)
    ensures
        r@ == win_join(
            home_or_default(match userprofile {
                Some(h) => Some(h@),
                None => None,
            }),
            if dev { ".naxone-dev"@ } else { ".naxone"@ },
        ),
{
    let h = home_chars(userprofile);
    let d = chars_of(naxone_home_dirname(dev));
    string_of(&win_join_exec(&h, &d))
}

/// `<APPDATA>\<appdata dirname>`, with `<USERPROFILE>\AppData\Roaming`
/// standing in for an unset `APPDATA`.
pub fn naxone_appdata_dir(appdata: Option<&str>, userprofile: Option<&str>, dev: bool) -> (r:
    String)
    ensures
        r@ == win_join(
            match appdata {
                Some(a) => a@,
                None => win_join(
                    win_join(
                        home_or_default(match userprofile {
                            Some(h) => Some(h@),
                            None => None,
                        }),
                        "AppData"@,
                    ),
                    "Roaming"@,
                ),
            },
            if dev { "NaxOne-dev"@ } else { "NaxOne"@ },
        ),
{
    let base = match appdata {
        Some(a) => chars_of(a),
        None => {
            let h = home_chars(userprofile);
            let x = win_join_exec(&h, &chars_of("AppData"));
            win_join_exec(&x, &chars_of("Roaming"))
        },
    };
    let d = chars_of(naxone_appdata_dirname(dev));
    string_of(&win_join_exec(&base, &d))
}

/// `<home>\bin`, where the command-line shims live.
pub fn naxone_bin_dir(userprofile: Option<&str>, dev: bool) -> (r: String)
    ensures
        r@ == win_join(
            win_join(
                home_or_default(match userprofile {
                    Some(h) => Some(h@),
                    None => None,
                }),
                if dev { ".naxone-dev"@ } else { ".naxone"@ },
            ),
            "bin"@,
        ),
{
    let home = naxone_home_dir(userprofile, dev);
    string_of(&win_join_exec(&chars_of(home.as_str()), &chars_of("bin")))
}

} // verus!

verus! {

// ======================== Laws of the PATH edits ========================

/// The text holds no `c`.
pub open spec fn free_of(s: Seq<char>, c: char) -> bool {
    forall|i: int| 0 <= i < s.len() ==> s[i] != c
}

proof fn lemma_split_free(b: Seq<char>, c: char)
    requires
        free_of(b, c),
    ensures
        split_char(b, c) == seq![b],
    decreases b.len(),
{
    if b.len() > 0 {
        lemma_split_free(b.drop_last(), c);
        assert(b[b.len() - 1] != c);
        assert(b.drop_last().push(b.last()) =~= b);
        assert(split_char(b, c) =~= seq![b]);
    } else {
        assert(b =~= Seq::<char>::empty());
    }
}

proof fn lemma_split_append_piece(a: Seq<char>, b: Seq<char>, c: char)
    requires
        free_of(b, c),
    ensures
        split_char(a + seq![c] + b, c) == split_char(a, c).push(b),
    decreases b.len(),
{
    if b.len() == 0 {
        assert(a + seq![c] + b =~= a.push(c));
        assert((a + seq![c] + b).drop_last() =~= a);
        assert(b =~= Seq::<char>::empty());
    } else {
        lemma_split_append_piece(a, b.drop_last(), c);
        assert(b[b.len() - 1] != c);
        assert(b.drop_last().push(b.last()) =~= b);
        assert((a + seq![c] + b).last() == b.last());
        assert((a + seq![c] + b).drop_last() =~= a + seq![c] + b.drop_last());
        assert(split_char(a + seq![c] + b, c) =~= split_char(a, c).push(b));
    }
}

proof fn lemma_split_pieces_free(s: Seq<char>, c: char)
    ensures
        forall|k: int| 0 <= k < split_char(s, c).len() ==> free_of(#[trigger] split_char(s, c)[k], c),
    decreases s.len(),
{
    if s.len() > 0 {
        lemma_split_pieces_free(s.drop_last(), c);
        crate::text::lemma_split_char_len(s.drop_last(), c);
        let r = split_char(s.drop_last(), c);
        if s.last() != c {
            assert forall|k: int| 0 <= k < split_char(s, c).len() implies free_of(
                #[trigger] split_char(s, c)[k],
                c,
            ) by {
                if k == r.len() - 1 {
                    assert(free_of(r.last(), c));
                    assert(split_char(s, c)[k] == r.last().push(s.last()));
                }
            }
        }
    }
}

proof fn lemma_split_join(parts: Seq<Seq<char>>)
    requires
        parts.len() >= 1,
        forall|k: int| 0 <= k < parts.len() ==> free_of(#[trigger] parts[k], ';'),
    ensures
        split_char(join_sep(parts, ";"@), ';') == parts,
    decreases parts.len(),
{
    reveal_strlit(";");
    if parts.len() == 1 {
        lemma_split_free(parts[0], ';');
        assert(parts =~= seq![parts[0]]);
    } else {
        let init = parts.drop_last();
        lemma_split_join(init);
        lemma_split_append_piece(join_sep(init, ";"@), parts.last(), ';');
        assert(";"@ =~= seq![';']);
        assert(init.push(parts.last()) =~= parts);
    }
}

proof fn lemma_kept_entries_props(parts: Seq<Seq<char>>, target: Seq<char>)
    ensures
        forall|k: int| 0 <= k < kept_entries(parts, target).len() ==> (
            #[trigger] parts.contains(kept_entries(parts, target)[k])
            && norm_path(kept_entries(parts, target)[k]) != norm_path(target)),
    decreases parts.len(),
{
    if parts.len() > 0 {
        let init = parts.drop_last();
        lemma_kept_entries_props(init, target);
        let r = kept_entries(init, target);
        assert forall|k: int| 0 <= k < kept_entries(parts, target).len() implies (
            #[trigger] parts.contains(kept_entries(parts, target)[k])
            && norm_path(kept_entries(parts, target)[k]) != norm_path(target)) by {
            if k < r.len() {
                assert(kept_entries(parts, target)[k] == r[k]);
                assert(init.contains(r[k]));
                let j = choose|j: int| 0 <= j < init.len() && init[j] == r[k];
                assert(parts[j] == r[k]);
            } else {
                assert(parts[parts.len() - 1] == parts.last());
            }
        }
    }
}

/// After `appended_path` the `PATH` holds the value, whether it was added
/// or was already there (a value that holds a `;` becomes several entries
/// once added, so it is left out unless it was there before).
pub proof fn law_appended_path_contains(current: Seq<char>, value: Seq<char>)
    requires
        free_of(value, ';') || spec_path_contains(current, value),
    ensures
        match spec_appended_path(current, value) {
            Some(p) => spec_path_contains(p, value),
            None => spec_path_contains(current, value),
        },
{
    if !spec_path_contains(current, value) {
        let base = trim_end_char(current, ';');
        if base.len() == 0 {
            lemma_split_free(value, ';');
            assert(split_char(value, ';')[0] == value);
        } else {
            reveal_strlit(";");
            assert(base + ";"@ + value =~= base + seq![';'] + value);
            lemma_split_append_piece(base, value, ';');
            let ps = split_char(base + ";"@ + value, ';');
            assert(ps[ps.len() - 1] == value);
        }
    }
}

/// After `path_without` no entry of the `PATH` equals the value (when no
/// entry is left and the value is blank once normalized, the empty
/// `PATH` still counts as holding it, so that case is left out).
pub proof fn law_path_without_removes(current: Seq<char>, value: Seq<char>)
    requires
        norm_path(value).len() > 0 || kept_entries(split_char(current, ';'), value).len() > 0,
    ensures
        spec_path_without(current, value) matches Some(p) ==> !spec_path_contains(p, value),
{
    if spec_path_contains(current, value) {
        let parts = split_char(current, ';');
        let kept = kept_entries(parts, value);
        lemma_kept_entries_props(parts, value);
        lemma_split_pieces_free(current, ';');
        if kept.len() == 0 {
            assert(join_sep(kept, ";"@) == Seq::<char>::empty());
            let e = Seq::<char>::empty();
            assert(split_char(e, ';') == seq![e]);
            crate::text::lemma_trim_props(e);
            assert(trim(e).len() == 0);
            assert(trim(e) =~= e);
            assert(replace_char(e, '/', '\\') =~= e);
            assert(trim_end_char(e, '\\') =~= e);
            assert(norm_path(e) =~= e);
            assert forall|i: int| 0 <= i < split_char(e, ';').len() implies norm_path(
                #[trigger] split_char(e, ';')[i],
            ) != norm_path(value) by {
                assert(split_char(e, ';')[i] == e);
            }
        } else {
            assert forall|k: int| 0 <= k < kept.len() implies free_of(#[trigger] kept[k], ';') by {
                assert(parts.contains(kept[k]));
                let j = choose|j: int| 0 <= j < parts.len() && parts[j] == kept[k];
                assert(free_of(parts[j], ';'));
            }
            lemma_split_join(kept);
            let p = join_sep(kept, ";"@);
            assert forall|i: int| 0 <= i < split_char(p, ';').len() implies norm_path(
                #[trigger] split_char(p, ';')[i],
            ) != norm_path(value) by {
                assert(parts.contains(kept[i]));
            }
        }
    }
}

} // verus!

verus! {

proof fn lemma_lower_char(c: char)
    ensures
        crate::text::lower_char(crate::text::lower_char(c)) == crate::text::lower_char(c),
        crate::text::lower_char(c) == '/' <==> c == '/',
        crate::text::lower_char(c) == '\\' <==> c == '\\',
        crate::text::is_ws(crate::text::lower_char(c)) <==> crate::text::is_ws(c),
{
    if 'A' <= c && c <= 'Z' {
        assert((c as u32) + 32 >= 97);
        assert(((c as u32) + 32) as char as u32 == (c as u32) + 32);
    }
}

proof fn lemma_trim_end_char(s: Seq<char>, c: char)
    ensures
        crate::text::trim_end_char(s, c).len() <= s.len(),
        crate::text::trim_end_char(s, c) == s.take(crate::text::trim_end_char(s, c).len() as int),
        crate::text::trim_end_char(s, c).len() > 0 ==> crate::text::trim_end_char(s, c).last() != c,
    decreases s.len(),
{
    if s.len() > 0 && s.last() == c {
        lemma_trim_end_char(s.drop_last(), c);
        let t = crate::text::trim_end_char(s.drop_last(), c);
        assert(s.drop_last().take(t.len() as int) == s.take(t.len() as int));
    } else {
        assert(s.take(s.len() as int) == s);
    }
}

/// Normalizing a `PATH` entry twice gives what normalizing once gave,
/// unless dropping the trailing separators left whitespace at the end
/// (`"a\\ \\"` normalizes to `"a\\ "`, then to `"a"`). A normalized entry
/// holds no `/`, no ASCII capital, and does not end with `\`.
pub proof fn law_normalize_idempotent(s: Seq<char>)
    requires
        !(norm_path(s).len() > 0 && crate::text::is_ws(norm_path(s).last())),
    ensures
        norm_path(norm_path(s)) == norm_path(s),
        forall|i: int| 0 <= i < norm_path(s).len() ==> norm_path(s)[i] != '/' && !('A' <= #[trigger] norm_path(s)[i]
            && norm_path(s)[i] <= 'Z'),
        norm_path(s).len() > 0 ==> norm_path(s).last() != '\\',
{
    let t = trim(s);
    let u = crate::text::replace_char(t, '/', '\\');
    let w = crate::text::trim_end_char(u, '\\');
    let r = norm_path(s);
    lemma_trim_end_char(u, '\\');
    crate::text::lemma_trim_props(s);
    assert forall|i: int| 0 <= i < w.len() implies w[i] != '/' by {
        assert(w[i] == u[i]);
    }
    assert forall|i: int| 0 <= i < r.len() implies r[i] != '/' && !('A' <= #[trigger] r[i] && r[i] <= 'Z') by {
        lemma_lower_char(w[i]);
        if 'A' <= w[i] && w[i] <= 'Z' {
            assert(((w[i] as u32) + 32) as char as u32 == (w[i] as u32) + 32);
        }
    }
    if r.len() > 0 {
        lemma_lower_char(w.last());
        assert(r.last() == crate::text::lower_char(w.last()));
        lemma_lower_char(w[0]);
        assert(w[0] == u[0]);
        assert(u[0] == (if t[0] == '/' { '\\' } else { t[0] }));
        assert(!crate::text::is_ws(r[0]));
        assert(crate::text::trim_end(r) == r);
        assert(crate::text::trim_start(r) == r);
    } else {
        assert(crate::text::trim_end(r) == r);
        assert(crate::text::trim_start(r) == r);
    }
    assert(trim(r) == r);
    assert(crate::text::replace_char(r, '/', '\\') =~= r);
    assert(crate::text::trim_end_char(r, '\\') == r);
    assert forall|i: int| 0 <= i < r.len() implies crate::text::lower_char(#[trigger] r[i]) == r[i] by {
        lemma_lower_char(w[i]);
    }
    assert(crate::text::lower(r) =~= r);
}

} // verus!
