//! php.ini handling: which extensions are enabled, switching one on or
//! off, and the common settings shown in the editor.

use vstd::prelude::*;
use crate::text::{
    append, chars_of, ends_with, first_where, join_lines, last_where, lines, slice_of,
    starts_with, string_of, trim, trim_of, views,
};
use crate::lineedit::{
    LineKind, find_first, find_line, join_with_insert, join_with_push, join_with_update, lines_vec,
    php_check, pred, starts_char, starts_char_exec,
};
use crate::config_editor::{ini_line, ini_value, trim_quotes, trim_quotes_exec};

verus! {

/// A PHP extension found in the `ext` directory.
pub struct PhpExtension {
    pub name: String,
    pub file_name: String,
    pub enabled: bool,
    pub is_zend: bool,
}

/// The manager of a PHP installation's `php.ini`.
pub struct PhpManager;

// ======================== Reading and writing one key ========================

/// The value of the first active php.ini `key=value` line (`;` comments
/// are skipped; the value is trimmed).
pub open spec fn spec_php_get(c: Seq<char>, key: Seq<char>) -> Option<Seq<char>> {
    match find_line(c, LineKind::PhpGet, key) {
        Some(i) => Some(ini_value(trim(lines(c)[i]))),
        None => None,
    }
}

/// Rewrites the first `key=` line, active or `;`-commented, as
/// `key=value`; appends that line when there is none.
pub open spec fn spec_php_set(c: Seq<char>, key: Seq<char>, value: Seq<char>) -> Seq<char> {
    let ls = lines(c);
    match find_line(c, LineKind::PhpSet, key) {
        Some(i) => join_lines(ls.update(i, ini_line(key, value))),
        None => join_lines(ls.push(ini_line(key, value))),
    }
}

fn php_get(content: &[char], key: &[char]) -> (r: Option<Vec<char>>)
    ensures
        match r {
            Some(v) => spec_php_get(content@, key@) == Some(v@),
            None => spec_php_get(content@, key@) is None,
        },
{
    let ls = lines_vec(content);
    match find_first(&ls, &LineKind::PhpGet, key) {
        Some(i) => {
            assert(views(ls@)[i as int] == ls@[i as int]@);
            proof {
                crate::text::lemma_first_where_spec(views(ls@), pred(LineKind::PhpGet, key@));
            }
            let t = trim_of(&ls[i]);
            match crate::text::split_once_exec(&t, '=') {
                Some((_, v)) => Some(trim_of(&v)),
                None => Some(Vec::new()),
            }
        },
        None => None,
    }
}

fn php_set(content: &[char], key: &[char], value: &[char]) -> (r: Vec<char>)
    ensures
        r@ == spec_php_set(content@, key@, value@),
{
    let ls = lines_vec(content);
    let mut nl = slice_of(key, 0, key.len());
    nl.push('=');
    append(&mut nl, value);
    assert(nl@ =~= ini_line(key@, value@));
    match find_first(&ls, &LineKind::PhpSet, key) {
        Some(i) => join_with_update(ls, i, nl),
        None => join_with_push(ls, nl),
    }
}

impl PhpManager {
    /// A new manager.
    pub fn new() -> Self {
        PhpManager
    }

    /// The value of `key` in `content`, as the first active `key=value`
    /// line gives it.
    pub fn get_ini_value(content: &str, key: &str) -> (r: Option<String>)
        ensures
            match r {
                Some(v) => spec_php_get(content@, key@) == Some(v@),
                None => spec_php_get(content@, key@) is None,
            },
    {
        let c = chars_of(content);
        let k = chars_of(key);
        match php_get(&c, &k) {
            Some(v) => Some(string_of(&v)),
            None => None,
        }
    }

    /// `content` with `key=value` written over the key's first line
    /// (active or commented), or appended.
    pub fn set_ini_value(content: &str, key: &str, value: &str) -> (r: String)
        ensures
            r@ == spec_php_set(content@, key@, value@),
    {
        let c = chars_of(content);
        let k = chars_of(key);
        let v = chars_of(value);
        string_of(&php_set(&c, &k, &v))
    }
}

// ======================== Extension state ========================

/// The directive that loads an extension.
pub open spec fn directive(is_zend: bool) -> Seq<char> {
    if is_zend {
        "zend_extension"@
    } else {
        "extension"@
    }
}

/// A path separator of Windows or Unix.
pub open spec fn is_sep(c: char) -> bool {
    c == '/' || c == '\\'
}

/// The last path segment: the text after the last separator.
pub open spec fn last_seg(s: Seq<char>) -> Seq<char>
    decreases s.len(),
{
    if s.len() == 0 {
        s
    } else if is_sep(s.last()) {
        Seq::empty()
    } else {
        last_seg(s.drop_last()).push(s.last())
    }
}

/// The extension name a directive value names: the file name without
/// `.dll` and `php_` when it has both; otherwise the value without a
/// leading `php_`, or the value as it is.
pub open spec fn clean_ext_name(value: Seq<char>) -> Seq<char> {
    let b = last_seg(trim_quotes(value));
    if ends_with(b, ".dll"@) {
        let c = b.take(b.len() - ".dll"@.len());
        if starts_with(c, "php_"@) {
            c.skip("php_"@.len() as int)
        } else {
            value
        }
    } else if starts_with(value, "php_"@) {
        value.skip("php_"@.len() as int)
    } else {
        value
    }
}

/// The trimmed line `t` is an active directive that loads `ext`.
pub open spec fn loads_ext(t: Seq<char>, d: Seq<char>, ext: Seq<char>) -> bool {
    &&& !starts_char(t, ';')
    &&& starts_with(t, d)
    &&& {
        let v = ini_value(t);
        ||| clean_ext_name(v) == ext
        ||| trim_quotes(v) == ext
        ||| trim_quotes(v) == "php_"@ + ext
    }
}

/// Some active line of `c` loads `ext` with the given directive.
pub open spec fn spec_ext_enabled(c: Seq<char>, ext: Seq<char>, is_zend: bool) -> bool {
    exists|j: int|
        0 <= j < lines(c).len() && #[trigger] loads_ext(trim(lines(c)[j]), directive(is_zend), ext)
}

fn last_seg_exec(s: &[char]) -> (r: Vec<char>)
    ensures
        r@ == last_seg(s@),
{
    let mut i: usize = s.len();
    assert(s@.take(i as int) =~= s@);
    assert(s@.skip(i as int) =~= Seq::<char>::empty());
    while i > 0 && !(s[i - 1] == '/' || s[i - 1] == '\\')
        invariant
            i <= s.len(),
            last_seg(s@) == last_seg(s@.take(i as int)) + s@.skip(i as int),
        decreases i,
    {
        let ghost t = s@.take(i as int);
        assert(t.drop_last() == s@.take(i - 1));
        assert(s@.skip(i - 1) == seq![s@[i - 1]] + s@.skip(i as int));
        i -= 1;
    }
    if i > 0 {
        assert(s@.take(i as int).last() == s@[i - 1]);
    }
    slice_of(s, i, s.len())
}

fn clean_ext_name_exec(value: &[char]) -> (r: Vec<char>)
    ensures
        r@ == clean_ext_name(value@),
{
    let q = trim_quotes_exec(value);
    let b = last_seg_exec(&q);
    let dll = chars_of(".dll");
    let php = chars_of("php_");
    if crate::text::ends_with_chars(&b, &dll) {
        let c = slice_of(&b, 0, b.len() - dll.len());
        if crate::text::starts_with_chars(&c, &php) {
            slice_of(&c, php.len(), c.len())
        } else {
            slice_of(value, 0, value.len())
        }
    } else if crate::text::starts_with_chars(value, &php) {
        slice_of(value, php.len(), value.len())
    } else {
        slice_of(value, 0, value.len())
    }
}

fn loads_ext_exec(t: &[char], d: &[char], ext: &[char]) -> (r: bool)
    ensures
        r == loads_ext(t@, d@, ext@),
{
    if starts_char_exec(t, ';') || !crate::text::starts_with_chars(t, d) {
        return false;
    }
    let v = match crate::text::split_once_exec(t, '=') {
        Some((_, v)) => trim_of(&v),
        None => Vec::new(),
    };
    assert(v@ == ini_value(t@));
    let clean = clean_ext_name_exec(&v);
    let q = trim_quotes_exec(&v);
    let mut pe = chars_of("php_");
    append(&mut pe, ext);
    crate::text::eq(&clean, ext) || crate::text::eq(&q, ext) || crate::text::eq(&q, &pe)
}

fn directive_exec(is_zend: bool) -> (r: Vec<char>)
    ensures
        r@ == directive(is_zend),
{
    if is_zend {
        chars_of("zend_extension")
    } else {
        chars_of("extension")
    }
}

impl PhpManager {
    /// Whether `ini_content` has an active `extension=` (or, for a Zend
    /// extension, `zend_extension=`) line that loads `ext_name`.
    pub fn is_extension_enabled(ini_content: &str, ext_name: &str, is_zend: bool) -> (r: bool)
        ensures
            r == spec_ext_enabled(ini_content@, ext_name@, is_zend),
    {
        let c = chars_of(ini_content);
        let e = chars_of(ext_name);
        let d = directive_exec(is_zend);
        let ls = lines_vec(&c);
        let mut i: usize = 0;
        while i < ls.len()
            invariant
                i <= ls.len(),
                views(ls@) == lines(c@),
                c@ == ini_content@,
                e@ == ext_name@,
                d@ == directive(is_zend),
                forall|j: int| 0 <= j < i ==> !#[trigger] loads_ext(trim(lines(c@)[j]), d@, e@),
            decreases ls.len() - i,
        {
            assert(views(ls@)[i as int] == ls@[i as int]@);
            let t = trim_of(&ls[i]);
            if loads_ext_exec(&t, &d, &e) {
                return true;
            }
            i += 1;
        }
        false
    }
}

// ======================== Switching an extension ========================

/// `u` is the pattern `p`, or begins with it and a space.
pub open spec fn pat_hit(u: Seq<char>, p: Seq<char>) -> bool {
    u == p || starts_with(u, p.push(' '))
}

/// The trimmed line `t`, looked at through a `;` comment, is a directive
/// line for `ext`: `d=ext`, `d=php_ext`, `d = ext` or `d = php_ext`, each
/// also with the file name spelt out (`.dll` after it), alone or followed
/// by a space.
pub open spec fn toggle_hit(t: Seq<char>, d: Seq<char>, ext: Seq<char>) -> bool {
    let u = php_check(t);
    ||| pat_hit(u, d + "="@ + ext)
    ||| pat_hit(u, d + "=php_"@ + ext)
    ||| pat_hit(u, d + " = "@ + ext)
    ||| pat_hit(u, d + " = php_"@ + ext)
    ||| pat_hit(u, d + "="@ + ext + ".dll"@)
    ||| pat_hit(u, d + "=php_"@ + ext + ".dll"@)
    ||| pat_hit(u, d + " = "@ + ext + ".dll"@)
    ||| pat_hit(u, d + " = php_"@ + ext + ".dll"@)
}

pub open spec fn toggle_pred(d: Seq<char>, ext: Seq<char>) -> spec_fn(Seq<char>) -> bool {
    |l: Seq<char>| toggle_hit(trim(l), d, ext)
}

/// `trim_start_matches(';')`.
pub open spec fn trim_start_semis(s: Seq<char>) -> Seq<char>
    decreases s.len(),
{
    if s.len() > 0 && s[0] == ';' {
        trim_start_semis(s.drop_first())
    } else {
        s
    }
}

/// A line of the extension block, active or commented.
pub open spec fn ext_block_line(l: Seq<char>) -> bool {
    let t = trim(trim_start_semis(trim(l)));
    starts_with(t, "extension="@) || starts_with(t, "zend_extension="@)
}

pub open spec fn block_pred() -> spec_fn(Seq<char>) -> bool {
    |l: Seq<char>| ext_block_line(l)
}

/// Where a new directive goes: after the last line of the extension
/// block, else at the end.
pub open spec fn insert_pos(ls: Seq<Seq<char>>) -> int {
    match last_where(ls, block_pred()) {
        Some(p) => p + 1,
        None => ls.len() as int,
    }
}

/// php.ini after switching `ext` on or off: the first directive line for
/// it loses its leading `;` (on) or gains one unless it already has one
/// (off); with no such line, switching on inserts `d=ext` after the
/// extension block, and switching off changes nothing.
pub open spec fn spec_toggle_extension(
    c: Seq<char>,
    ext: Seq<char>,
    enable: bool,
    is_zend: bool,
) -> Seq<char> {
    let ls = lines(c);
    let d = directive(is_zend);
    match first_where(ls, toggle_pred(d, ext)) {
        Some(i) => if enable {
            join_lines(ls.update(i, trim_start_semis(ls[i])))
        } else if starts_char(trim(ls[i]), ';') {
            join_lines(ls)
        } else {
            join_lines(ls.update(i, seq![';'] + ls[i]))
        },
        None => if enable {
            join_lines(ls.insert(insert_pos(ls), d + "="@ + ext))
        } else {
            join_lines(ls)
        },
    }
}

fn pat_hit_exec(u: &[char], p: &[char]) -> (r: bool)
    ensures
        r == pat_hit(u@, p@),
{
    let mut ps = slice_of(p, 0, p.len());
    ps.push(' ');
    assert(ps@ =~= p@.push(' '));
    crate::text::eq(u, p) || crate::text::starts_with_chars(u, &ps)
}

fn join3(a: &[char], b: &str, c: &[char]) -> (r: Vec<char>)
    ensures
        r@ == a@ + b@ + c@,
{
    let mut r = slice_of(a, 0, a.len());
    crate::text::append_str(&mut r, b);
    append(&mut r, c);
    r
}

fn dll_pat(a: &[char], b: &str, c: &[char]) -> (r: Vec<char>)
    ensures
        r@ == a@ + b@ + c@ + ".dll"@,
{
    let mut r = join3(a, b, c);
    crate::text::append_str(&mut r, ".dll");
    r
}

fn toggle_hit_exec(t: &[char], d: &[char], ext: &[char]) -> (r: bool)
    ensures
        r == toggle_hit(t@, d@, ext@),
{
    let u = if starts_char_exec(t, ';') {
        let v = slice_of(t, 1, t.len());
        trim_of(&v)
    } else {
        slice_of(t, 0, t.len())
    };
    assert(u@ == php_check(t@));
    pat_hit_exec(&u, &join3(d, "=", ext)) || pat_hit_exec(&u, &join3(d, "=php_", ext))
        || pat_hit_exec(&u, &join3(d, " = ", ext)) || pat_hit_exec(&u, &join3(d, " = php_", ext))
        || pat_hit_exec(&u, &dll_pat(d, "=", ext)) || pat_hit_exec(&u, &dll_pat(d, "=php_", ext))
        || pat_hit_exec(&u, &dll_pat(d, " = ", ext)) || pat_hit_exec(&u, &dll_pat(d, " = php_", ext))
}

fn trim_start_semis_exec(s: &[char]) -> (r: Vec<char>)
    ensures
        r@ == trim_start_semis(s@),
{
    let mut i: usize = 0;
    assert(s@.skip(0) =~= s@);
    while i < s.len() && s[i] == ';'
        invariant
            i <= s.len(),
            trim_start_semis(s@) == trim_start_semis(s@.skip(i as int)),
        decreases s.len() - i,
    {
        assert(s@.skip(i as int).drop_first() == s@.skip(i + 1));
        i += 1;
    }
    slice_of(s, i, s.len())
}

fn ext_block_exec(l: &[char]) -> (r: bool)
    ensures
        r == ext_block_line(l@),
{
    let t = trim_of(l);
    let u = trim_start_semis_exec(&t);
    let w = trim_of(&u);
    crate::text::starts_with_str(&w, "extension=") || crate::text::starts_with_str(&w, "zend_extension=")
}

fn insert_pos_exec(ls: &Vec<Vec<char>>) -> (r: usize)
    ensures
        r as int == insert_pos(views(ls@)),
        r <= ls.len(),
{
    let ghost p = block_pred();
    let mut i: usize = ls.len();
    while i > 0
        invariant
            i <= ls.len(),
            p == block_pred(),
            forall|j: int| i <= j < ls.len() ==> !p(#[trigger] views(ls@)[j]),
        decreases i,
    {
        assert(views(ls@)[i - 1] == ls@[i - 1]@);
        if ext_block_exec(&ls[i - 1]) {
            proof {
                crate::text::lemma_last_where_found(views(ls@), p, i - 1);
            }
            return i;
        }
        i -= 1;
    }
    proof {
        crate::text::lemma_last_where_none(views(ls@), p);
    }
    ls.len()
}

impl PhpManager {
    /// `ini_content` with `ext_name` switched on or off (see
    /// `spec_toggle_extension`).
    pub fn toggle_extension(ini_content: &str, ext_name: &str, enable: bool, is_zend: bool) -> (r:
        String)
        ensures
            r@ == spec_toggle_extension(ini_content@, ext_name@, enable, is_zend),
    {
        let c = chars_of(ini_content);
        let e = chars_of(ext_name);
        let d = directive_exec(is_zend);
        let ls = lines_vec(&c);
        let ghost p = toggle_pred(d@, e@);
        let mut i: usize = 0;
        while i < ls.len()
            invariant
                i <= ls.len(),
                views(ls@) == lines(c@),
                c@ == ini_content@,
                e@ == ext_name@,
                d@ == directive(is_zend),
                p == toggle_pred(d@, e@),
                forall|j: int| 0 <= j < i ==> !p(#[trigger] views(ls@)[j]),
            decreases ls.len() - i,
        {
            assert(views(ls@)[i as int] == ls@[i as int]@);
            let t = trim_of(&ls[i]);
            if toggle_hit_exec(&t, &d, &e) {
                proof {
                    crate::text::lemma_first_where_found(views(ls@), p, i as int);
                }
                assert(first_where(lines(ini_content@), toggle_pred(directive(is_zend), ext_name@))
                    == Some(i as int));
                let nl = if enable {
                    trim_start_semis_exec(&ls[i])
                } else if starts_char_exec(&t, ';') {
                    let r = crate::text::join_lines_of(&ls);
                    return string_of(&r);
                } else {
                    let mut nl = vec![';'];
                    append(&mut nl, &ls[i]);
                    assert(nl@ == seq![';'] + views(ls@)[i as int]);
                    nl
                };
                let r = join_with_update(ls, i, nl);
                return string_of(&r);
            }
            i += 1;
        }
        proof {
            crate::text::lemma_first_where_none(views(ls@), p);
        }
        if enable {
            let pos = insert_pos_exec(&ls);
            let nl = join3(&d, "=", &e);
            let r = join_with_insert(ls, pos, nl);
            string_of(&r)
        } else {
            let r = crate::text::join_lines_of(&ls);
            string_of(&r)
        }
    }
}

// ======================== Listing extensions ========================

/// An extension as plain values: name, file name, enabled, Zend.
pub type ExtView = (Seq<char>, Seq<char>, bool, bool);

pub open spec fn ext_view(e: PhpExtension) -> ExtView {
    (e.name@, e.file_name@, e.enabled, e.is_zend)
}

pub open spec fn ext_views(v: Seq<PhpExtension>) -> Seq<ExtView> {
    v.map_values(|e: PhpExtension| ext_view(e))
}

/// `a <= b` in the order of `str`: by characters, a prefix first.
pub open spec fn lex_le(a: Seq<char>, b: Seq<char>) -> bool
    decreases a.len(),
{
    if a.len() == 0 {
        true
    } else if b.len() == 0 {
        false
    } else if a[0] != b[0] {
        a[0] < b[0]
    } else {
        lex_le(a.drop_first(), b.drop_first())
    }
}

/// The extension a file stem of the `ext` directory stands for: stems
/// `php_*`, `opcache` and `xdebug` only; the name drops `php_`, and
/// `opcache` and `xdebug` are Zend extensions.
pub open spec fn ext_of_stem(ini: Seq<char>, stem: Seq<char>) -> Option<ExtView> {
    if !starts_with(stem, "php_"@) && stem != "opcache"@ && stem != "xdebug"@ {
        None
    } else {
        let name = if starts_with(stem, "php_"@) {
            stem.skip("php_"@.len() as int)
        } else {
            stem
        };
        let z = name == "opcache"@ || name == "xdebug"@;
        Some((name, stem, spec_ext_enabled(ini, name, z), z))
    }
}

/// Where `x` goes in the sorted `s`: before the first greater name.
pub open spec fn ins_pos(s: Seq<ExtView>, x: ExtView) -> int
    decreases s.len(),
{
    if s.len() == 0 {
        0
    } else if !lex_le(s[0].0, x.0) {
        0
    } else {
        1 + ins_pos(s.drop_first(), x)
    }
}

/// The extensions of the stems, sorted by name; of equal names the
/// earlier stem comes first.
pub open spec fn spec_list_extensions(ini: Seq<char>, stems: Seq<Seq<char>>) -> Seq<ExtView>
    decreases stems.len(),
{
    if stems.len() == 0 {
        Seq::empty()
    } else {
        let r = spec_list_extensions(ini, stems.drop_last());
        match ext_of_stem(ini, stems.last()) {
            Some(x) => r.insert(ins_pos(r, x), x),
            None => r,
        }
    }
}

pub(crate) fn lex_le_exec(a: &[char], b: &[char]) -> (r: bool)
    ensures
        r == lex_le(a@, b@),
{
    let mut i: usize = 0;
    assert(a@.skip(0) =~= a@);
    assert(b@.skip(0) =~= b@);
    while i < a.len()
        invariant
            i <= a.len(),
            i <= b.len(),
            a@.take(i as int) == b@.take(i as int),
            lex_le(a@, b@) == lex_le(a@.skip(i as int), b@.skip(i as int)),
        decreases a.len() - i,
    {
        if i == b.len() {
            return false;
        }
        if a[i] != b[i] {
            return a[i] < b[i];
        }
        assert(a@.skip(i as int).drop_first() == a@.skip(i + 1));
        assert(b@.skip(i as int).drop_first() == b@.skip(i + 1));
        assert(a@.take(i + 1) == a@.take(i as int).push(a@[i as int]));
        assert(b@.take(i + 1) == b@.take(i as int).push(b@[i as int]));
        i += 1;
    }
    true
}

proof fn lemma_ins_pos(s: Seq<ExtView>, x: ExtView, j: int)
    requires
        0 <= j <= s.len(),
        forall|k: int| 0 <= k < j ==> lex_le(#[trigger] s[k].0, x.0),
        j == s.len() || !lex_le(s[j].0, x.0),
    ensures
        ins_pos(s, x) == j,
    decreases j,
{
    if j > 0 {
        assert forall|k: int| 0 <= k < j - 1 implies lex_le(#[trigger] s.drop_first()[k].0, x.0) by {
            assert(s.drop_first()[k] == s[k + 1]);
        }
        if j < s.len() {
            assert(s.drop_first()[j - 1] == s[j]);
        }
        lemma_ins_pos(s.drop_first(), x, j - 1);
    }
}

fn ins_pos_exec(r: &Vec<PhpExtension>, name: &String) -> (p: usize)
    ensures
        p as int == ins_pos(ext_views(r@), (name@, Seq::empty(), false, false)),
        p <= r.len(),
{
    let ghost x: ExtView = (name@, Seq::empty(), false, false);
    let n = chars_of(name.as_str());
    let mut j: usize = 0;
    while j < r.len()
        invariant
            j <= r.len(),
            n@ == name@,
            x == (name@, Seq::<char>::empty(), false, false),
            forall|k: int| 0 <= k < j ==> lex_le(#[trigger] ext_views(r@)[k].0, x.0),
        decreases r.len() - j,
    {
        let m = chars_of(r[j].name.as_str());
        assert(ext_views(r@)[j as int] == ext_view(r@[j as int]));
        if !lex_le_exec(&m, &n) {
            proof {
                lemma_ins_pos(ext_views(r@), x, j as int);
            }
            return j;
        }
        j += 1;
    }
    proof {
        lemma_ins_pos(ext_views(r@), x, j as int);
    }
    j
}

proof fn lemma_ins_pos_name_only(s: Seq<ExtView>, x: ExtView, y: ExtView)
    requires
        x.0 == y.0,
    ensures
        ins_pos(s, x) == ins_pos(s, y),
    decreases s.len(),
{
    if s.len() > 0 {
        lemma_ins_pos_name_only(s.drop_first(), x, y);
    }
}

fn ext_of_stem_exec(ini: &[char], stem: &String) -> (r: Option<PhpExtension>)
    ensures
        match r {
            Some(e) => ext_of_stem(ini@, stem@) == Some(ext_view(e)),
            None => ext_of_stem(ini@, stem@) is None,
        },
{
    let st = chars_of(stem.as_str());
    let php = chars_of("php_");
    let is_php = crate::text::starts_with_chars(&st, &php);
    if !is_php && !crate::text::eq_str(&st, "opcache") && !crate::text::eq_str(&st, "xdebug") {
        return None;
    }
    let name = if is_php {
        slice_of(&st, php.len(), st.len())
    } else {
        slice_of(&st, 0, st.len())
    };
    let z = crate::text::eq_str(&name, "opcache") || crate::text::eq_str(&name, "xdebug");
    let ns = string_of(&name);
    let enabled = PhpManager::is_extension_enabled_chars(ini, &name, z);
    let fs = string_of(&st);
    let e = PhpExtension { name: ns, file_name: fs, enabled, is_zend: z };
    assert(st@ == stem@);
    assert(name@ == (if starts_with(stem@, "php_"@) { stem@.skip("php_"@.len() as int) } else { stem@ }));
    assert(ext_view(e) == (name@, stem@, spec_ext_enabled(ini@, name@, z), z));
    Some(e)
}

impl PhpManager {
    fn is_extension_enabled_chars(c: &[char], e: &[char], is_zend: bool) -> (r: bool)
        ensures
            r == spec_ext_enabled(c@, e@, is_zend),
    {
        let d = directive_exec(is_zend);
        let ls = lines_vec(c);
        let mut i: usize = 0;
        while i < ls.len()
            invariant
                i <= ls.len(),
                views(ls@) == lines(c@),
                d@ == directive(is_zend),
                forall|j: int| 0 <= j < i ==> !#[trigger] loads_ext(trim(lines(c@)[j]), d@, e@),
            decreases ls.len() - i,
        {
            assert(views(ls@)[i as int] == ls@[i as int]@);
            let t = trim_of(&ls[i]);
            if loads_ext_exec(&t, &d, e) {
                return true;
            }
            i += 1;
        }
        false
    }

    /// The extensions among the file stems of the `ext` directory, each
    /// with whether `ini_content` enables it, sorted by name (see
    /// `spec_list_extensions`).
    pub fn list_extensions(ini_content: &str, dll_stems: &Vec<String>) -> (r: Vec<PhpExtension>)
        ensures
            ext_views(r@) == spec_list_extensions(ini_content@, dll_stems@.map_values(|s: String| s@)),
    {
        let c = chars_of(ini_content);
        let ghost stems = dll_stems@.map_values(|s: String| s@);
        let mut r: Vec<PhpExtension> = Vec::new();
        let mut i: usize = 0;
        while i < dll_stems.len()
            invariant
                i <= dll_stems.len(),
                c@ == ini_content@,
                stems == dll_stems@.map_values(|s: String| s@),
                ext_views(r@) == spec_list_extensions(c@, stems.take(i as int)),
            decreases dll_stems.len() - i,
        {
            let ghost pre = stems.take(i as int);
            assert(stems.take(i + 1).drop_last() == pre);
            assert(stems.take(i + 1).last() == dll_stems@[i as int]@);
            match ext_of_stem_exec(&c, &dll_stems[i]) {
                Some(e) => {
                    let p = ins_pos_exec(&r, &e.name);
                    proof {
                        lemma_ins_pos_name_only(
                            ext_views(r@),
                            (e.name@, Seq::empty(), false, false),
                            ext_view(e),
                        );
                    }
                    let ghost old_views = ext_views(r@);
                    let ghost ev = ext_view(e);
                    r.insert(p, e);
                    assert(ext_views(r@) =~= old_views.insert(p as int, ev));
                },
                None => {},
            }
            i += 1;
        }
        assert(stems.take(dll_stems.len() as int) == stems);
        r
    }
}

// ======================== Law: the list comes out sorted ========================

/// Names in non-decreasing order.
pub open spec fn sorted_by_name(s: Seq<ExtView>) -> bool {
    forall|i: int, j: int| 0 <= i < j < s.len() ==> lex_le(#[trigger] s[i].0, #[trigger] s[j].0)
}

pub proof fn lemma_lex_total(a: Seq<char>, b: Seq<char>)
    ensures
        lex_le(a, b) || lex_le(b, a),
    decreases a.len(),
{
    if a.len() > 0 && b.len() > 0 && a[0] == b[0] {
        lemma_lex_total(a.drop_first(), b.drop_first());
    }
}

pub proof fn lemma_lex_trans(a: Seq<char>, b: Seq<char>, c: Seq<char>)
    requires
        lex_le(a, b),
        lex_le(b, c),
    ensures
        lex_le(a, c),
    decreases a.len(),
{
    if a.len() > 0 && b.len() > 0 && c.len() > 0 && a[0] == b[0] && b[0] == c[0] {
        lemma_lex_trans(a.drop_first(), b.drop_first(), c.drop_first());
    }
}

proof fn lemma_ins_pos_props(s: Seq<ExtView>, x: ExtView)
    ensures
        0 <= ins_pos(s, x) <= s.len(),
        forall|k: int| 0 <= k < ins_pos(s, x) ==> lex_le(#[trigger] s[k].0, x.0),
        ins_pos(s, x) < s.len() ==> !lex_le(s[ins_pos(s, x)].0, x.0),
    decreases s.len(),
{
    if s.len() > 0 && lex_le(s[0].0, x.0) {
        lemma_ins_pos_props(s.drop_first(), x);
        assert forall|k: int| 0 <= k < ins_pos(s, x) implies lex_le(#[trigger] s[k].0, x.0) by {
            if k > 0 {
                assert(s[k] == s.drop_first()[k - 1]);
            }
        }
    }
}

proof fn lemma_insert_sorted(s: Seq<ExtView>, x: ExtView)
    requires
        sorted_by_name(s),
    ensures
        sorted_by_name(s.insert(ins_pos(s, x), x)),
{
    let p = ins_pos(s, x);
    lemma_ins_pos_props(s, x);
    let t = s.insert(p, x);
    if p < s.len() {
        lemma_lex_total(s[p].0, x.0);
    }
    assert forall|i: int, j: int| 0 <= i < j < t.len() implies lex_le(#[trigger] t[i].0, #[trigger] t[j].0) by {
        if j < p {
            assert(t[i] == s[i] && t[j] == s[j]);
        } else if j == p {
            assert(t[i] == s[i] && t[j] == x);
        } else if i < p {
            assert(t[i] == s[i] && t[j] == s[j - 1]);
            lemma_lex_trans(s[i].0, x.0, s[p].0);
            if j - 1 > p {
                lemma_lex_trans(s[i].0, s[p].0, s[j - 1].0);
            }
        } else if i == p {
            assert(t[i] == x && t[j] == s[j - 1]);
            if j - 1 > p {
                lemma_lex_trans(x.0, s[p].0, s[j - 1].0);
            }
        } else {
            assert(t[i] == s[i - 1] && t[j] == s[j - 1]);
        }
    }
}

/// The extension list comes out in alphabetical order of names.
pub proof fn law_extensions_sorted(ini: Seq<char>, stems: Seq<Seq<char>>)
    ensures
        sorted_by_name(spec_list_extensions(ini, stems)),
    decreases stems.len(),
{
    if stems.len() > 0 {
        law_extensions_sorted(ini, stems.drop_last());
        let r = spec_list_extensions(ini, stems.drop_last());
        match ext_of_stem(ini, stems.last()) {
            Some(x) => lemma_insert_sorted(r, x),
            None => {},
        }
    }
}

// ======================== Law: what a listed extension says ========================

/// Of the listed extensions, those named `opcache` or `xdebug`, and no
/// others, are Zend extensions; and each is listed as enabled exactly when
/// an active line of php.ini loads it with the directive of its kind
/// (`zend_extension` for a Zend extension, `extension` otherwise).
pub proof fn law_listed_extension_kind(ini: Seq<char>, stems: Seq<Seq<char>>, k: int)
    requires
        0 <= k < spec_list_extensions(ini, stems).len(),
    ensures
        ({
            let e = spec_list_extensions(ini, stems)[k];
            &&& e.3 == (e.0 == "opcache"@ || e.0 == "xdebug"@)
            &&& e.3 ==> (e.2 == exists|j: int|
                0 <= j < lines(ini).len() && #[trigger] loads_ext(trim(lines(ini)[j]), "zend_extension"@, e.0))
            &&& !e.3 ==> (e.2 == exists|j: int|
                0 <= j < lines(ini).len() && #[trigger] loads_ext(trim(lines(ini)[j]), "extension"@, e.0))
        }),
    decreases stems.len(),
{
    let r = spec_list_extensions(ini, stems.drop_last());
    match ext_of_stem(ini, stems.last()) {
        Some(x) => {
            lemma_ins_pos_props(r, x);
            let p = ins_pos(r, x);
            assert(x.2 == spec_ext_enabled(ini, x.0, x.3));
            if k < p {
                law_listed_extension_kind(ini, stems.drop_last(), k);
                assert(r.insert(p, x)[k] == r[k]);
            } else if k > p {
                law_listed_extension_kind(ini, stems.drop_last(), k - 1);
                assert(r.insert(p, x)[k] == r[k - 1]);
            } else {
                assert(r.insert(p, x)[k] == x);
                if x.3 {
                    assert(directive(x.3) == "zend_extension"@);
                } else {
                    assert(directive(x.3) == "extension"@);
                }
            }
        },
        None => {
            law_listed_extension_kind(ini, stems.drop_last(), k);
        },
    }
}

// ======================== Common settings ========================

/// The php.ini settings shown in the editor.
pub struct PhpIniSettings {
    pub memory_limit: String,
    pub upload_max_filesize: String,
    pub post_max_size: String,
    pub max_execution_time: u32,
    pub max_input_time: i32,
    pub display_errors: bool,
    pub error_reporting: String,
    pub date_timezone: String,
    pub file_uploads: bool,
    pub short_open_tag: bool,
    pub allow_url_fopen: bool,
    pub allow_url_include: bool,
    pub disable_functions: String,
    pub expose_php: bool,
    pub open_basedir: String,
    pub opcache_enable: bool,
    pub opcache_memory_consumption: u32,
    pub opcache_max_accelerated_files: u32,
    pub opcache_validate_timestamps: bool,
    pub opcache_revalidate_freq: u32,
    pub session_save_handler: String,
    pub session_save_path: String,
    pub session_gc_maxlifetime: u32,
    pub session_cookie_lifetime: u32,
    pub session_name: String,
    pub session_use_cookies: bool,
    pub session_use_only_cookies: bool,
    pub session_use_strict_mode: bool,
    pub session_cookie_httponly: bool,
    pub session_cookie_samesite: String,
    pub output_buffering: String,
    pub default_charset: String,
    pub max_file_uploads: u32,
    pub default_socket_timeout: u32,
}

fn pg(c: &[char], key: &str) -> (r: Option<Vec<char>>)
    ensures
        crate::config_editor::opt_view(r) == spec_php_get(c@, key@),
{
    let k = chars_of(key);
    php_get(c, &k)
}

fn ps(c: Vec<char>, key: &str, v: &[char]) -> (r: Vec<char>)
    ensures
        r@ == spec_php_set(c@, key@, v@),
{
    let k = chars_of(key);
    php_set(&c, &k, v)
}

/// A php.ini switch reads as on when its value is `On`, `on` or `1`.
pub open spec fn php_on(v: Seq<char>) -> bool {
    v == "On"@ || v == "on"@ || v == "1"@
}

/// A text setting as read.
pub open spec fn php_text(c: Seq<char>, k: Seq<char>, d: Seq<char>) -> Seq<char> {
    crate::config_editor::text_or(spec_php_get(c, k), d)
}

/// An unsigned setting as read.
pub open spec fn php_num(c: Seq<char>, k: Seq<char>, d: nat) -> nat {
    crate::config_editor::num_or(spec_php_get(c, k), u32::MAX as nat, d)
}

/// A signed setting as read.
pub open spec fn php_int(c: Seq<char>, k: Seq<char>, d: int) -> int {
    match spec_php_get(c, k) {
        Some(v) => match crate::num::parse_i32(v) {
            Some(n) => n,
            None => d,
        },
        None => d,
    }
}

/// A switch as read.
pub open spec fn php_flag(c: Seq<char>, k: Seq<char>, d: bool) -> bool {
    match spec_php_get(c, k) {
        Some(v) => php_on(v),
        None => d,
    }
}

fn php_flag_exec(o: Option<Vec<char>>, d: bool) -> (r: bool)
    ensures
        r == match crate::config_editor::opt_view(o) {
            Some(v) => php_on(v),
            None => d,
        },
{
    match o {
        Some(v) => crate::text::eq_str(&v, "On") || crate::text::eq_str(&v, "on")
            || crate::text::eq_str(&v, "1"),
        None => d,
    }
}

fn php_int_exec(o: Option<Vec<char>>, d: i32) -> (r: i32)
    ensures
        r == match crate::config_editor::opt_view(o) {
            Some(v) => match crate::num::parse_i32(v) {
                Some(n) => n,
                None => d as int,
            },
            None => d as int,
        },
{
    match o {
        Some(v) => match crate::num::parse_i32_exec(&v) {
            Some(n) => n,
            None => d,
        },
        None => d,
    }
}

/// `On` / `Off`.
pub open spec fn on_off_cap(b: bool) -> Seq<char> {
    if b {
        "On"@
    } else {
        "Off"@
    }
}

/// `1` / `0`.
pub open spec fn one_zero(b: bool) -> Seq<char> {
    if b {
        "1"@
    } else {
        "0"@
    }
}

fn bool_text(b: bool, t: &str, f: &str) -> (r: Vec<char>)
    ensures
        r@ == (if b { t@ } else { f@ }),
{
    if b {
        chars_of(t)
    } else {
        chars_of(f)
    }
}

/// The basic, upload and security settings written into `c`.
pub open spec fn save_basic_settings(c: Seq<char>, st: PhpIniSettings) -> Seq<char> {
    let c = spec_php_set(c, "memory_limit"@, st.memory_limit@);
    let c = spec_php_set(c, "upload_max_filesize"@, st.upload_max_filesize@);
    let c = spec_php_set(c, "post_max_size"@, st.post_max_size@);
    let c = spec_php_set(c, "max_execution_time"@, crate::num::decimal(st.max_execution_time as nat));
    let c = spec_php_set(c, "max_input_time"@, crate::num::signed_decimal(st.max_input_time as int));
    let c = spec_php_set(c, "display_errors"@, on_off_cap(st.display_errors));
    let c = spec_php_set(c, "error_reporting"@, st.error_reporting@);
    let c = spec_php_set(c, "date.timezone"@, st.date_timezone@);
    let c = spec_php_set(c, "file_uploads"@, on_off_cap(st.file_uploads));
    let c = spec_php_set(c, "short_open_tag"@, on_off_cap(st.short_open_tag));
    let c = spec_php_set(c, "allow_url_fopen"@, on_off_cap(st.allow_url_fopen));
    let c = spec_php_set(c, "allow_url_include"@, on_off_cap(st.allow_url_include));
    let c = spec_php_set(c, "disable_functions"@, st.disable_functions@);
    let c = spec_php_set(c, "expose_php"@, on_off_cap(st.expose_php));
    let c = if st.open_basedir@.len() == 0 {
        c
    } else {
        spec_php_set(c, "open_basedir"@, st.open_basedir@)
    };
    c
}

/// The OPcache and session settings written into `c`.
pub open spec fn save_opcache_session_settings(c: Seq<char>, st: PhpIniSettings) -> Seq<char> {
    let c = spec_php_set(c, "opcache.enable"@, one_zero(st.opcache_enable));
    let c = spec_php_set(c, "opcache.memory_consumption"@, crate::num::decimal(st.opcache_memory_consumption as nat));
    let c = spec_php_set(c, "opcache.max_accelerated_files"@, crate::num::decimal(st.opcache_max_accelerated_files as nat));
    let c = spec_php_set(c, "opcache.validate_timestamps"@, one_zero(st.opcache_validate_timestamps));
    let c = spec_php_set(c, "opcache.revalidate_freq"@, crate::num::decimal(st.opcache_revalidate_freq as nat));
    let c = spec_php_set(c, "session.save_handler"@, st.session_save_handler@);
    let c = if st.session_save_path@.len() == 0 {
        c
    } else {
        spec_php_set(c, "session.save_path"@, st.session_save_path@)
    };
    let c = spec_php_set(c, "session.gc_maxlifetime"@, crate::num::decimal(st.session_gc_maxlifetime as nat));
    let c = spec_php_set(c, "session.cookie_lifetime"@, crate::num::decimal(st.session_cookie_lifetime as nat));
    let c = spec_php_set(c, "session.name"@, st.session_name@);
    let c = spec_php_set(c, "session.use_cookies"@, on_off_cap(st.session_use_cookies));
    let c = spec_php_set(c, "session.use_only_cookies"@, on_off_cap(st.session_use_only_cookies));
    let c = spec_php_set(c, "session.use_strict_mode"@, one_zero(st.session_use_strict_mode));
    let c = spec_php_set(c, "session.cookie_httponly"@, on_off_cap(st.session_cookie_httponly));
    let c = if st.session_cookie_samesite@.len() == 0 {
        c
    } else {
        spec_php_set(c, "session.cookie_samesite"@, st.session_cookie_samesite@)
    };
    c
}

/// The output, charset and network settings written into `c`.
pub open spec fn save_extra_settings(c: Seq<char>, st: PhpIniSettings) -> Seq<char> {
    let c = spec_php_set(c, "output_buffering"@, st.output_buffering@);
    let c = spec_php_set(c, "default_charset"@, seq!['"'] + st.default_charset@ + seq!['"']);
    let c = spec_php_set(c, "max_file_uploads"@, crate::num::decimal(st.max_file_uploads as nat));
    spec_php_set(c, "default_socket_timeout"@, crate::num::decimal(st.default_socket_timeout as nat))
}

/// php.ini after saving `st` into `c`, key by key (each written over its
/// first line or appended); `open_basedir`, `session.save_path` and
/// `session.cookie_samesite` are written only when non-empty, and the
/// charset is written in double quotes.
pub open spec fn spec_save_ini_settings(c: Seq<char>, st: PhpIniSettings) -> Seq<char> {
    save_extra_settings(save_opcache_session_settings(save_basic_settings(c, st), st), st)
}

fn save_basic_exec(c: Vec<char>, st: &PhpIniSettings) -> (r: Vec<char>)
    ensures
        r@ == save_basic_settings(c@, *st),
{
    let mut c = c;
    c = ps(c, "memory_limit", &chars_of(st.memory_limit.as_str()));
    c = ps(c, "upload_max_filesize", &chars_of(st.upload_max_filesize.as_str()));
    c = ps(c, "post_max_size", &chars_of(st.post_max_size.as_str()));
    c = ps(c, "max_execution_time", &crate::num::decimal_chars(st.max_execution_time as u64));
    c = ps(c, "max_input_time", &chars_of(crate::num::i32_to_string(st.max_input_time).as_str()));
    c = ps(c, "display_errors", &bool_text(st.display_errors, "On", "Off"));
    c = ps(c, "error_reporting", &chars_of(st.error_reporting.as_str()));
    c = ps(c, "date.timezone", &chars_of(st.date_timezone.as_str()));
    c = ps(c, "file_uploads", &bool_text(st.file_uploads, "On", "Off"));
    c = ps(c, "short_open_tag", &bool_text(st.short_open_tag, "On", "Off"));
    c = ps(c, "allow_url_fopen", &bool_text(st.allow_url_fopen, "On", "Off"));
    c = ps(c, "allow_url_include", &bool_text(st.allow_url_include, "On", "Off"));
    c = ps(c, "disable_functions", &chars_of(st.disable_functions.as_str()));
    c = ps(c, "expose_php", &bool_text(st.expose_php, "On", "Off"));
    if !st.open_basedir.as_str().is_empty() {
        c = ps(c, "open_basedir", &chars_of(st.open_basedir.as_str()));
    }
    c
}

fn save_opcache_session_exec(c: Vec<char>, st: &PhpIniSettings) -> (r: Vec<char>)
    ensures
        r@ == save_opcache_session_settings(c@, *st),
{
    let mut c = c;
    c = ps(c, "opcache.enable", &bool_text(st.opcache_enable, "1", "0"));
    c = ps(c, "opcache.memory_consumption", &crate::num::decimal_chars(st.opcache_memory_consumption as u64));
    c = ps(c, "opcache.max_accelerated_files", &crate::num::decimal_chars(st.opcache_max_accelerated_files as u64));
    c = ps(c, "opcache.validate_timestamps", &bool_text(st.opcache_validate_timestamps, "1", "0"));
    c = ps(c, "opcache.revalidate_freq", &crate::num::decimal_chars(st.opcache_revalidate_freq as u64));
    c = ps(c, "session.save_handler", &chars_of(st.session_save_handler.as_str()));
    if !st.session_save_path.as_str().is_empty() {
        c = ps(c, "session.save_path", &chars_of(st.session_save_path.as_str()));
    }
    c = ps(c, "session.gc_maxlifetime", &crate::num::decimal_chars(st.session_gc_maxlifetime as u64));
    c = ps(c, "session.cookie_lifetime", &crate::num::decimal_chars(st.session_cookie_lifetime as u64));
    c = ps(c, "session.name", &chars_of(st.session_name.as_str()));
    c = ps(c, "session.use_cookies", &bool_text(st.session_use_cookies, "On", "Off"));
    c = ps(c, "session.use_only_cookies", &bool_text(st.session_use_only_cookies, "On", "Off"));
    c = ps(c, "session.use_strict_mode", &bool_text(st.session_use_strict_mode, "1", "0"));
    c = ps(c, "session.cookie_httponly", &bool_text(st.session_cookie_httponly, "On", "Off"));
    if !st.session_cookie_samesite.as_str().is_empty() {
        c = ps(c, "session.cookie_samesite", &chars_of(st.session_cookie_samesite.as_str()));
    }
    c
}

fn save_extra_exec(c: Vec<char>, st: &PhpIniSettings) -> (r: Vec<char>)
    ensures
        r@ == save_extra_settings(c@, *st),
{
    let mut c = c;
    c = ps(c, "output_buffering", &chars_of(st.output_buffering.as_str()));
    let mut q = vec!['"'];
    append(&mut q, &chars_of(st.default_charset.as_str()));
    q.push('"');
    assert(q@ =~= seq!['"'] + st.default_charset@ + seq!['"']);
    c = ps(c, "default_charset", &q);
    c = ps(c, "max_file_uploads", &crate::num::decimal_chars(st.max_file_uploads as u64));
    c = ps(c, "default_socket_timeout", &crate::num::decimal_chars(st.default_socket_timeout as u64));

    c
}

impl PhpIniSettings {
    /// The settings of a stock php.ini.
    pub fn default() -> (d: Self)
        ensures
            d.memory_limit@ == "256M"@,
            d.upload_max_filesize@ == "64M"@,
            d.post_max_size@ == "64M"@,
            d.max_execution_time == 300,
            d.max_input_time == 60,
            d.display_errors == true,
            d.error_reporting@ == "E_ALL"@,
            d.date_timezone@ == "Asia/Shanghai"@,
            d.file_uploads == true,
            d.short_open_tag == true,
            d.allow_url_fopen == true,
            d.allow_url_include == false,
            d.disable_functions@ == Seq::<char>::empty(),
            d.expose_php == true,
            d.open_basedir@ == Seq::<char>::empty(),
            d.opcache_enable == false,
            d.opcache_memory_consumption == 128,
            d.opcache_max_accelerated_files == 10000,
            d.opcache_validate_timestamps == true,
            d.opcache_revalidate_freq == 2,
            d.session_save_handler@ == "files"@,
            d.session_save_path@ == Seq::<char>::empty(),
            d.session_gc_maxlifetime == 1440,
            d.session_cookie_lifetime == 0,
            d.session_name@ == "PHPSESSID"@,
            d.session_use_cookies == true,
            d.session_use_only_cookies == true,
            d.session_use_strict_mode == false,
            d.session_cookie_httponly == false,
            d.session_cookie_samesite@ == Seq::<char>::empty(),
            d.output_buffering@ == "8192"@,
            d.default_charset@ == "UTF-8"@,
            d.max_file_uploads == 20,
            d.default_socket_timeout == 60,
    {
        PhpIniSettings {
            memory_limit: "256M".to_owned(),
            upload_max_filesize: "64M".to_owned(),
            post_max_size: "64M".to_owned(),
            max_execution_time: 300,
            max_input_time: 60,
            display_errors: true,
            error_reporting: "E_ALL".to_owned(),
            date_timezone: "Asia/Shanghai".to_owned(),
            file_uploads: true,
            short_open_tag: true,
            allow_url_fopen: true,
            allow_url_include: false,
            disable_functions: String::new(),
            expose_php: true,
            open_basedir: String::new(),
            opcache_enable: false,
            opcache_memory_consumption: 128,
            opcache_max_accelerated_files: 10000,
            opcache_validate_timestamps: true,
            opcache_revalidate_freq: 2,
            session_save_handler: "files".to_owned(),
            session_save_path: String::new(),
            session_gc_maxlifetime: 1440,
            session_cookie_lifetime: 0,
            session_name: "PHPSESSID".to_owned(),
            session_use_cookies: true,
            session_use_only_cookies: true,
            session_use_strict_mode: false,
            session_cookie_httponly: false,
            session_cookie_samesite: String::new(),
            output_buffering: "8192".to_owned(),
            default_charset: "UTF-8".to_owned(),
            max_file_uploads: 20,
            default_socket_timeout: 60,
        }
    }
}

impl PhpManager {
    /// The common settings of `ini_content`: each key as the first active
    /// `key=value` line gives it, else its default; a number that does not
    /// parse keeps the default, and a switch is on for `On`, `on` or `1`.
    pub fn read_ini_settings(ini_content: &str) -> (st: PhpIniSettings)
        ensures
            st.memory_limit@ == php_text(ini_content@, "memory_limit"@, "256M"@),
            st.upload_max_filesize@ == php_text(ini_content@, "upload_max_filesize"@, "64M"@),
            st.post_max_size@ == php_text(ini_content@, "post_max_size"@, "64M"@),
            st.max_execution_time == php_num(ini_content@, "max_execution_time"@, 300),
            st.max_input_time == php_int(ini_content@, "max_input_time"@, 60),
            st.display_errors == php_flag(ini_content@, "display_errors"@, true),
            st.error_reporting@ == php_text(ini_content@, "error_reporting"@, "E_ALL"@),
            st.date_timezone@ == php_text(ini_content@, "date.timezone"@, "Asia/Shanghai"@),
            st.file_uploads == php_flag(ini_content@, "file_uploads"@, true),
            st.short_open_tag == php_flag(ini_content@, "short_open_tag"@, true),
            st.allow_url_fopen == php_flag(ini_content@, "allow_url_fopen"@, true),
            st.allow_url_include == php_flag(ini_content@, "allow_url_include"@, false),
            st.disable_functions@ == php_text(ini_content@, "disable_functions"@, Seq::empty()),
            st.expose_php == php_flag(ini_content@, "expose_php"@, true),
            st.open_basedir@ == php_text(ini_content@, "open_basedir"@, Seq::empty()),
            st.opcache_enable == php_flag(ini_content@, "opcache.enable"@, false),
            st.opcache_memory_consumption == php_num(ini_content@, "opcache.memory_consumption"@, 128),
            st.opcache_max_accelerated_files == php_num(ini_content@, "opcache.max_accelerated_files"@, 10000),
            st.opcache_validate_timestamps == php_flag(ini_content@, "opcache.validate_timestamps"@, true),
            st.opcache_revalidate_freq == php_num(ini_content@, "opcache.revalidate_freq"@, 2),
            st.session_save_handler@ == php_text(ini_content@, "session.save_handler"@, "files"@),
            st.session_save_path@ == php_text(ini_content@, "session.save_path"@, Seq::empty()),
            st.session_gc_maxlifetime == php_num(ini_content@, "session.gc_maxlifetime"@, 1440),
            st.session_cookie_lifetime == php_num(ini_content@, "session.cookie_lifetime"@, 0),
            st.session_name@ == php_text(ini_content@, "session.name"@, "PHPSESSID"@),
            st.session_use_cookies == php_flag(ini_content@, "session.use_cookies"@, true),
            st.session_use_only_cookies == php_flag(ini_content@, "session.use_only_cookies"@, true),
            st.session_use_strict_mode == php_flag(ini_content@, "session.use_strict_mode"@, false),
            st.session_cookie_httponly == php_flag(ini_content@, "session.cookie_httponly"@, false),
            st.session_cookie_samesite@ == php_text(ini_content@, "session.cookie_samesite"@, Seq::empty()),
            st.output_buffering@ == php_text(ini_content@, "output_buffering"@, "8192"@),
            st.default_charset@ == php_text(ini_content@, "default_charset"@, "UTF-8"@),
            st.max_file_uploads == php_num(ini_content@, "max_file_uploads"@, 20),
            st.default_socket_timeout == php_num(ini_content@, "default_socket_timeout"@, 60),
    {
        let c = chars_of(ini_content);
        let d = PhpIniSettings::default();
        let m: u64 = 0xffff_ffff;
        PhpIniSettings {
            memory_limit: crate::config_editor::text_or_exec(pg(&c, "memory_limit"), d.memory_limit),
            upload_max_filesize: crate::config_editor::text_or_exec(pg(&c, "upload_max_filesize"), d.upload_max_filesize),
            post_max_size: crate::config_editor::text_or_exec(pg(&c, "post_max_size"), d.post_max_size),
            max_execution_time: crate::config_editor::num_or_exec(pg(&c, "max_execution_time"), m, d.max_execution_time as u64) as u32,
            max_input_time: php_int_exec(pg(&c, "max_input_time"), d.max_input_time),
            display_errors: php_flag_exec(pg(&c, "display_errors"), d.display_errors),
            error_reporting: crate::config_editor::text_or_exec(pg(&c, "error_reporting"), d.error_reporting),
            date_timezone: crate::config_editor::text_or_exec(pg(&c, "date.timezone"), d.date_timezone),
            file_uploads: php_flag_exec(pg(&c, "file_uploads"), d.file_uploads),
            short_open_tag: php_flag_exec(pg(&c, "short_open_tag"), d.short_open_tag),
            allow_url_fopen: php_flag_exec(pg(&c, "allow_url_fopen"), d.allow_url_fopen),
            allow_url_include: php_flag_exec(pg(&c, "allow_url_include"), d.allow_url_include),
            disable_functions: crate::config_editor::text_or_exec(pg(&c, "disable_functions"), d.disable_functions),
            expose_php: php_flag_exec(pg(&c, "expose_php"), d.expose_php),
            open_basedir: crate::config_editor::text_or_exec(pg(&c, "open_basedir"), d.open_basedir),
            opcache_enable: php_flag_exec(pg(&c, "opcache.enable"), d.opcache_enable),
            opcache_memory_consumption: crate::config_editor::num_or_exec(pg(&c, "opcache.memory_consumption"), m, d.opcache_memory_consumption as u64) as u32,
            opcache_max_accelerated_files: crate::config_editor::num_or_exec(pg(&c, "opcache.max_accelerated_files"), m, d.opcache_max_accelerated_files as u64) as u32,
            opcache_validate_timestamps: php_flag_exec(pg(&c, "opcache.validate_timestamps"), d.opcache_validate_timestamps),
            opcache_revalidate_freq: crate::config_editor::num_or_exec(pg(&c, "opcache.revalidate_freq"), m, d.opcache_revalidate_freq as u64) as u32,
            session_save_handler: crate::config_editor::text_or_exec(pg(&c, "session.save_handler"), d.session_save_handler),
            session_save_path: crate::config_editor::text_or_exec(pg(&c, "session.save_path"), d.session_save_path),
            session_gc_maxlifetime: crate::config_editor::num_or_exec(pg(&c, "session.gc_maxlifetime"), m, d.session_gc_maxlifetime as u64) as u32,
            session_cookie_lifetime: crate::config_editor::num_or_exec(pg(&c, "session.cookie_lifetime"), m, d.session_cookie_lifetime as u64) as u32,
            session_name: crate::config_editor::text_or_exec(pg(&c, "session.name"), d.session_name),
            session_use_cookies: php_flag_exec(pg(&c, "session.use_cookies"), d.session_use_cookies),
            session_use_only_cookies: php_flag_exec(pg(&c, "session.use_only_cookies"), d.session_use_only_cookies),
            session_use_strict_mode: php_flag_exec(pg(&c, "session.use_strict_mode"), d.session_use_strict_mode),
            session_cookie_httponly: php_flag_exec(pg(&c, "session.cookie_httponly"), d.session_cookie_httponly),
            session_cookie_samesite: crate::config_editor::text_or_exec(pg(&c, "session.cookie_samesite"), d.session_cookie_samesite),
            output_buffering: crate::config_editor::text_or_exec(pg(&c, "output_buffering"), d.output_buffering),
            default_charset: crate::config_editor::text_or_exec(pg(&c, "default_charset"), d.default_charset),
            max_file_uploads: crate::config_editor::num_or_exec(pg(&c, "max_file_uploads"), m, d.max_file_uploads as u64) as u32,
            default_socket_timeout: crate::config_editor::num_or_exec(pg(&c, "default_socket_timeout"), m, d.default_socket_timeout as u64) as u32,
        }
    }

    /// `ini_content` with the settings of `st` written into it (see
    /// `spec_save_ini_settings`).
    pub fn save_ini_settings(ini_content: &str, st: &PhpIniSettings) -> (r: String)
        ensures
            r@ == spec_save_ini_settings(ini_content@, *st),
    {
        let c = chars_of(ini_content);
        let c = save_basic_exec(c, st);
        let c = save_opcache_session_exec(c, st);
        let c = save_extra_exec(c, st);
        string_of(&c)
    }
}

// ======================== Law: a read gives back what a write wrote ========================

/// A key the php.ini reader finds again: an INI key that does not start
/// with `;`.
pub open spec fn php_key_ok(k: Seq<char>) -> bool {
    crate::config_editor::ini_key_shape(k) && k[0] != ';'
}

/// Writing `key=value` into php.ini and reading the key back gives the
/// value, trimmed, whatever the text held before.
pub proof fn law_php_set_then_get(c: Seq<char>, k: Seq<char>, v: Seq<char>)
    requires
        php_key_ok(k),
        crate::text::no_nl(v),
    ensures
        spec_php_get(spec_php_set(c, k, v), k) == Some(trim(v)),
{
    let ls = lines(c);
    let ps = pred(LineKind::PhpSet, k);
    let pg = pred(LineKind::PhpGet, k);
    crate::config_editor::lemma_pred_trim_only(LineKind::PhpGet, k);
    crate::config_editor::lemma_ini_line(k, v);
    let l = ini_line(k, v);
    assert(pg(l));
    assert(!pg(Seq::empty()));
    crate::text::lemma_first_where_spec(ls, ps);
    assert forall|j: int| 0 <= j < ls.len() && !ps(ls[j]) implies !pg(#[trigger] ls[j]) by {}
    if find_line(c, LineKind::PhpSet, k) is Some {
        let i = find_line(c, LineKind::PhpSet, k)->0;
        crate::config_editor::lemma_read_after_update(c, i, l, pg);
    } else {
        crate::config_editor::lemma_read_after_push(c, l, pg);
    }
}

} // verus!

verus! {

// ======================== Switching, then listing ========================

/// A character of an extension's file name: an ASCII letter or digit,
/// `_` or `.`.
pub open spec fn name_char(c: char) -> bool {
    ('a' <= c && c <= 'z') || ('A' <= c && c <= 'Z') || ('0' <= c && c <= '9') || c == '_' || c == '.'
}

/// An extension name: letters, digits and `_`.
pub open spec fn ext_word(e: Seq<char>) -> bool {
    &&& e.len() > 0
    &&& forall|i: int| 0 <= i < e.len() ==> name_char(#[trigger] e[i]) && e[i] != '.'
}

/// The ways a directive line names extension `e`: `e`, `php_e` and
/// `php_e.dll` (`form` 0, 1, 2).
pub open spec fn ext_spelling(e: Seq<char>, form: int) -> Seq<char> {
    if form == 0 {
        e
    } else if form == 1 {
        "php_"@ + e
    } else {
        "php_"@ + e + ".dll"@
    }
}

proof fn lemma_name_text(s: Seq<char>)
    requires
        s.len() > 0,
        forall|i: int| 0 <= i < s.len() ==> name_char(#[trigger] s[i]),
    ensures
        trim(s) == s,
        trim_quotes(s) == s,
        last_seg(s) == s,
        crate::text::no_nl(s),
    decreases s.len(),
{
    assert(!crate::text::is_ws(s[0]) && !crate::text::is_ws(s.last()));
    assert(crate::text::trim_end(s) == s);
    assert(crate::text::trim_start(s) == s);
    assert(crate::config_editor::trim_quotes_end(s) == s);
    assert(crate::config_editor::trim_quotes_start(s) == s);
    if s.len() > 1 {
        lemma_name_text(s.drop_last());
        assert(last_seg(s) == last_seg(s.drop_last()).push(s.last()));
        assert(s.drop_last().push(s.last()) == s);
    } else {
        assert(last_seg(s.drop_last()) == s.drop_last());
        assert(s.drop_last().push(s.last()) =~= s);
    }
}

proof fn lemma_spelling(e: Seq<char>, form: int)
    requires
        ext_word(e),
        0 <= form <= 2,
    ensures
        ext_spelling(e, form).len() > 0,
        forall|i: int| 0 <= i < ext_spelling(e, form).len() ==> name_char(#[trigger] ext_spelling(e, form)[i]),
        clean_ext_name(ext_spelling(e, form)) == e || trim_quotes(ext_spelling(e, form)) == e || trim_quotes(
            ext_spelling(e, form),
        ) == "php_"@ + e,
{
    reveal_strlit("php_");
    reveal_strlit(".dll");
    let s = ext_spelling(e, form);
    assert forall|i: int| 0 <= i < s.len() implies name_char(#[trigger] s[i]) by {
        if form == 1 && i >= 4 {
            assert(s[i] == e[i - 4]);
        } else if form == 2 && 4 <= i < 4 + e.len() {
            assert(s[i] == e[i - 4]);
        }
    }
    lemma_name_text(s);
    if form == 2 {
        assert(ends_with(s, ".dll"@)) by {
            assert(s.skip(s.len() - 4) =~= ".dll"@);
        }
        let c = s.take(s.len() - 4);
        assert(c =~= "php_"@ + e);
        assert(starts_with(c, "php_"@)) by {
            assert(c.take(4) =~= "php_"@);
        }
        assert(c.skip(4) =~= e);
    } else if form == 0 {
        lemma_name_text(e);
    }
}

/// The line `d=<spelling>`, active.
pub open spec fn ext_line(z: bool, e: Seq<char>, form: int) -> Seq<char> {
    ini_line(directive(z), ext_spelling(e, form))
}

proof fn lemma_ext_line(z: bool, e: Seq<char>, form: int)
    requires
        ext_word(e),
        0 <= form <= 2,
    ensures
        trim(ext_line(z, e, form)) == ext_line(z, e, form),
        loads_ext(ext_line(z, e, form), directive(z), e),
        toggle_hit(ext_line(z, e, form), directive(z), e),
        crate::text::no_nl(ext_line(z, e, form)),
        ext_line(z, e, form).len() > 0,
        ext_line(z, e, form)[0] != ';',
        trim(seq![';'] + ext_line(z, e, form)) == seq![';'] + ext_line(z, e, form),
        !loads_ext(seq![';'] + ext_line(z, e, form), directive(z), e),
        toggle_hit(seq![';'] + ext_line(z, e, form), directive(z), e),
        crate::text::no_nl(seq![';'] + ext_line(z, e, form)),
        trim_start_semis(ext_line(z, e, form)) == ext_line(z, e, form),
        trim_start_semis(seq![';'] + ext_line(z, e, form)) == ext_line(z, e, form),
{
    reveal_strlit("extension");
    reveal_strlit("zend_extension");
    reveal_strlit("=");
    reveal_strlit("php_");
    reveal_strlit(".dll");
    reveal_strlit("=php_");
    let d = directive(z);
    let v = ext_spelling(e, form);
    let l = ext_line(z, e, form);
    lemma_spelling(e, form);
    lemma_name_text(v);
    assert(crate::config_editor::ini_key_shape(d)) by {
        assert(!crate::text::is_ws(d[0]) && !crate::text::is_ws(d.last()));
        assert(crate::text::trim_end(d) == d);
        assert(crate::text::trim_start(d) == d);
    }
    crate::config_editor::lemma_ini_line(d, v);
    assert(crate::text::trim_end(v) == v) by {
        assert(!crate::text::is_ws(v.last()));
    }
    assert(l == d + seq!['='] + v);
    assert(starts_with(l, d)) by {
        assert(l.take(d.len() as int) =~= d);
    }
    assert(l[0] == d[0]);
    assert forall|i: int| 0 <= i < l.len() implies l[i] != '\n' by {
        if i < d.len() {
            assert(l[i] == d[i]);
        } else if i > d.len() {
            assert(l[i] == v[i - d.len() - 1]);
        }
    }
    let cl = seq![';'] + l;
    assert(cl[0] == ';');
    assert(!crate::text::is_ws(cl[0]) && !crate::text::is_ws(cl.last()));
    assert(cl.last() == l.last());
    assert(crate::text::trim_end(cl) == cl);
    assert(crate::text::trim_start(cl) == cl);
    assert(cl.drop_first() == l);
    assert forall|i: int| 0 <= i < cl.len() implies cl[i] != '\n' by {
        if i > 0 {
            assert(cl[i] == l[i - 1]);
        }
    }
    assert(trim_start_semis(l) == l);
    assert(trim_start_semis(cl) == trim_start_semis(l));
    // the hit: the line is one of the patterns
    if form == 0 {
        assert(l =~= d + "="@ + e);
    } else if form == 1 {
        assert(l =~= d + "=php_"@ + e);
    } else {
        assert(l =~= d + "=php_"@ + e + ".dll"@);
    }
}

/// The extension block of `c` holds, for extension `e`, exactly the line
/// at `i`, spelt in one of the ways the switch recognises and that the
/// listing reads back (`d=e`, `d=php_e` or `d=php_e.dll`, commented with
/// one `;` or not), and no other line names or loads `e`.
pub open spec fn single_ext_line(c: Seq<char>, e: Seq<char>, z: bool, i: int, form: int, commented: bool) -> bool {
    let ls = lines(c);
    &&& 0 <= i < ls.len()
    &&& 0 <= form <= 2
    &&& ls[i] == (if commented { seq![';'] + ext_line(z, e, form) } else { ext_line(z, e, form) })
    &&& forall|j: int|
        0 <= j < ls.len() && j != i ==> !toggle_hit(trim(#[trigger] ls[j]), directive(z), e) && !loads_ext(
            trim(ls[j]),
            directive(z),
            e,
        )
}

proof fn lemma_relined_len_lower(ls: Seq<Seq<char>>)
    ensures
        crate::text::relined(ls).len() + 1 >= ls.len(),
    decreases ls.len(),
{
    if ls.len() > 1 {
        lemma_relined_len_lower(ls.drop_first());
    }
}

/// Switching extension `e` in a php.ini where one line is about it, then
/// listing, shows `e` in the state asked for.
pub proof fn law_toggle_then_listed(c: Seq<char>, e: Seq<char>, enable: bool, z: bool, i: int, form: int, commented: bool)
    requires
        ext_word(e),
        single_ext_line(c, e, z, i, form, commented),
    ensures
        spec_ext_enabled(spec_toggle_extension(c, e, enable, z), e, z) == enable,
{
    let ls = lines(c);
    let d = directive(z);
    let p = toggle_pred(d, e);
    lemma_ext_line(z, e, form);
    let l = ext_line(z, e, form);
    assert(p(ls[i]));
    assert forall|j: int| 0 <= j < i implies !p(#[trigger] ls[j]) by {}
    crate::text::lemma_first_where_found(ls, p, i);
    let s = spec_toggle_extension(c, e, enable, z);
    let newl = if enable { l } else { seq![';'] + l };
    if !enable && commented {
        assert(starts_char(trim(ls[i]), ';'));
        assert(s == join_lines(ls));
        crate::config_laws::lemma_rejoin_keeps(c);
        assert forall|j: int| 0 <= j < lines(s).len() implies !#[trigger] loads_ext(trim(lines(s)[j]), d, e) by {
            assert(trim(lines(s)[j]) == trim(ls[j]));
        }
    } else {
        if enable {
            assert(trim_start_semis(ls[i]) == l);
        } else {
            assert(!starts_char(trim(ls[i]), ';'));
        }
        assert(s == join_lines(ls.update(i, newl)));
        crate::config_laws::lemma_update_keeps_others(c, i, newl);
        let new = ls.update(i, newl);
        crate::text::lemma_lines_no_nl(c);
        assert forall|j: int| 0 <= j < new.len() implies crate::text::no_nl(#[trigger] new[j]) by {
            if j != i {
                assert(new[j] == ls[j]);
            }
        }
        crate::text::lemma_lines_join(new);
        crate::text::lemma_relined_len(new);
        lemma_relined_len_lower(new);
        assert(i < lines(s).len()) by {
            if i == new.len() - 1 {
                assert(new.last() == newl);
            }
        }
        assert(trim(lines(s)[i]) == newl);
        if enable {
            assert(loads_ext(trim(lines(s)[i]), d, e));
        } else {
            assert forall|j: int| 0 <= j < lines(s).len() implies !#[trigger] loads_ext(trim(lines(s)[j]), d, e) by {
                if j != i {
                    assert(trim(lines(s)[j]) == trim(ls[j]));
                }
            }
        }
    }
}

proof fn lemma_last_where_range(ls: Seq<Seq<char>>, p: spec_fn(Seq<char>) -> bool)
    ensures
        last_where(ls, p) matches Some(k) ==> 0 <= k < ls.len(),
    decreases ls.len(),
{
    if ls.len() > 0 && !p(ls.last()) {
        lemma_last_where_range(ls.drop_last(), p);
    }
}

/// Switching extension `e` in a php.ini with no line about it, then
/// listing, shows `e` in the state asked for: switching on adds `d=e`.
pub proof fn law_toggle_absent_then_listed(c: Seq<char>, e: Seq<char>, enable: bool, z: bool)
    requires
        ext_word(e),
        forall|j: int|
            0 <= j < lines(c).len() ==> !toggle_hit(trim(#[trigger] lines(c)[j]), directive(z), e) && !loads_ext(
                trim(lines(c)[j]),
                directive(z),
                e,
            ),
    ensures
        spec_ext_enabled(spec_toggle_extension(c, e, enable, z), e, z) == enable,
{
    let ls = lines(c);
    let d = directive(z);
    let p = toggle_pred(d, e);
    crate::text::lemma_first_where_none(ls, p);
    lemma_ext_line(z, e, 0);
    let l = ext_line(z, e, 0);
    reveal_strlit("=");
    assert(l =~= d + "="@ + e);
    let s = spec_toggle_extension(c, e, enable, z);
    if enable {
        let q = insert_pos(ls);
        assert(0 <= q <= ls.len()) by {
            lemma_last_where_range(ls, block_pred());
        }
        let ins = ls.insert(q, l);
        assert(s == join_lines(ins));
        crate::text::lemma_lines_no_nl(c);
        assert forall|j: int| 0 <= j < ins.len() implies crate::text::no_nl(#[trigger] ins[j]) by {
            if j < q {
                assert(ins[j] == ls[j]);
            } else if j > q {
                assert(ins[j] == ls[j - 1]);
            }
        }
        crate::text::lemma_lines_join(ins);
        crate::text::lemma_relined_len(ins);
        lemma_relined_len_lower(ins);
        assert(q < lines(s).len()) by {
            if q == ins.len() - 1 {
                assert(ins.last() == l);
            }
        }
        crate::text::lemma_relined_index(ins, q);
        crate::text::lemma_trim_strip_cr(ins[q]);
        assert(trim(lines(s)[q]) == l);
        assert(loads_ext(trim(lines(s)[q]), d, e));
    } else {
        assert(s == join_lines(ls));
        crate::config_laws::lemma_rejoin_keeps(c);
        assert forall|j: int| 0 <= j < lines(s).len() implies !#[trigger] loads_ext(trim(lines(s)[j]), d, e) by {
            assert(trim(lines(s)[j]) == trim(ls[j]));
        }
    }
}

} // verus!
