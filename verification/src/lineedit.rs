//! Line-oriented reading and editing of configuration text, in the three
//! dialects the services use: Nginx `directive value;`, INI `key=value`
//! and Redis `key value`.

use vstd::prelude::*;
use crate::text::{
    append, contains, contains_chars, first_where, is_ws, is_ws_char, join_lines, join_lines_of,
    last_where, lemma_first_where_found, lemma_first_where_none, lemma_last_where_found,
    lemma_last_where_none, lines, lines_of, slice_of, split_once, split_once_exec, starts_with,
    starts_with_chars, trim, trim_of, trim_start, trim_start_of, views,
};

verus! {

/// `t` begins with `c`.
pub open spec fn starts_char(t: Seq<char>, c: char) -> bool {
    t.len() > 0 && t[0] == c
}

/// The kinds of line the editors look for.
pub enum LineKind {
    /// An active Nginx directive line for the key (as the editor tests it).
    NginxDirective,
    /// A commented line whose text after `#` begins with the key.
    NginxCommented,
    /// An active line that mentions the key anywhere.
    Mentions,
    /// An active INI `key=value` line, as the reader tests it.
    IniGet,
    /// An active INI `key=...` line, as the writer tests it.
    IniActive,
    /// A line commented with `#` or `;` holding `key=...`.
    IniCommented,
    /// An active Redis `key value` line, as the reader tests it.
    RedisGet,
    /// An active Redis line whose first word is the key.
    RedisActive,
    /// A `#`-commented Redis line whose first word is the key.
    RedisCommented,
    /// An active php.ini `key=value` line, as the reader tests it.
    PhpGet,
    /// A php.ini `key=...` line, active or commented with `;`.
    PhpSet,
}

// ------------------------------------------------------------------
// Spec of the tests applied to a trimmed line `t`
// ------------------------------------------------------------------

/// An active directive line for `key`: the key followed by whitespace or
/// `;`, so that a longer directive name does not match.
pub open spec fn nginx_directive(t: Seq<char>, key: Seq<char>) -> bool {
    &&& !starts_char(t, '#')
    &&& starts_with(t, key)
    &&& {
        let r = t.skip(key.len() as int);
        r.len() > 0 && (is_ws(r[0]) || r[0] == ';')
    }
}

pub open spec fn nginx_commented(t: Seq<char>, key: Seq<char>) -> bool {
    starts_char(t, '#') && starts_with(trim(t.drop_first()), key)
}

pub open spec fn mentions(t: Seq<char>, key: Seq<char>) -> bool {
    !starts_char(t, '#') && contains(t, key)
}

/// The key part of `k=...` matches.
pub open spec fn ini_key_is(t: Seq<char>, key: Seq<char>) -> bool {
    match split_once(t, '=') {
        Some((k, _)) => trim(k) == key,
        None => false,
    }
}

pub open spec fn ini_get_line(t: Seq<char>, key: Seq<char>) -> bool {
    !starts_char(t, '#') && !starts_char(t, ';') && t.len() > 0 && ini_key_is(t, key)
}

pub open spec fn ini_active(t: Seq<char>, key: Seq<char>) -> bool {
    !starts_char(t, '#') && !starts_char(t, ';') && ini_key_is(t, key)
}

pub open spec fn ini_commented(t: Seq<char>, key: Seq<char>) -> bool {
    (starts_char(t, '#') || starts_char(t, ';')) && ini_key_is(trim(t.drop_first()), key)
}

/// The first whitespace position.
pub open spec fn first_ws(t: Seq<char>) -> Option<int>
    decreases t.len(),
{
    if t.len() == 0 {
        None
    } else if is_ws(t[0]) {
        Some(0)
    } else {
        match first_ws(t.drop_first()) {
            Some(i) => Some(i + 1),
            None => None,
        }
    }
}

/// The first word: `splitn(2, char::is_whitespace).next()`.
pub open spec fn token(t: Seq<char>) -> Seq<char> {
    match first_ws(t) {
        Some(i) => t.take(i),
        None => t,
    }
}

/// The rest after the first whitespace char, if there is one.
pub open spec fn after_token(t: Seq<char>) -> Option<Seq<char>> {
    match first_ws(t) {
        Some(i) => Some(t.skip(i + 1)),
        None => None,
    }
}

pub open spec fn redis_get_line(t: Seq<char>, key: Seq<char>) -> bool {
    !starts_char(t, '#') && t.len() > 0 && after_token(t) is Some && token(t) == key
}

pub open spec fn redis_active(t: Seq<char>, key: Seq<char>) -> bool {
    !starts_char(t, '#') && token(t) == key
}

pub open spec fn redis_commented(t: Seq<char>, key: Seq<char>) -> bool {
    starts_char(t, '#') && token(trim(t.drop_first())) == key
}

pub open spec fn php_get_line(t: Seq<char>, key: Seq<char>) -> bool {
    !starts_char(t, ';') && t.len() > 0 && ini_key_is(t, key)
}

/// php.ini writer: a `;` comment is looked through.
pub open spec fn php_check(t: Seq<char>) -> Seq<char> {
    if starts_char(t, ';') {
        trim(t.drop_first())
    } else {
        t
    }
}

pub open spec fn php_set_line(t: Seq<char>, key: Seq<char>) -> bool {
    ini_key_is(php_check(t), key)
}

pub open spec fn kind_test(kind: LineKind, t: Seq<char>, key: Seq<char>) -> bool {
    match kind {
        LineKind::NginxDirective => nginx_directive(t, key),
        LineKind::NginxCommented => nginx_commented(t, key),
        LineKind::Mentions => mentions(t, key),
        LineKind::IniGet => ini_get_line(t, key),
        LineKind::IniActive => ini_active(t, key),
        LineKind::IniCommented => ini_commented(t, key),
        LineKind::RedisGet => redis_get_line(t, key),
        LineKind::RedisActive => redis_active(t, key),
        LineKind::RedisCommented => redis_commented(t, key),
        LineKind::PhpGet => php_get_line(t, key),
        LineKind::PhpSet => php_set_line(t, key),
    }
}

/// The line predicate: the test applied to the trimmed line.
pub open spec fn pred(kind: LineKind, key: Seq<char>) -> spec_fn(Seq<char>) -> bool {
    |l: Seq<char>| kind_test(kind, trim(l), key)
}

/// The first line of `c` of the given kind.
pub open spec fn find_line(c: Seq<char>, kind: LineKind, key: Seq<char>) -> Option<int> {
    first_where(lines(c), pred(kind, key))
}

/// The last line of `c` of the given kind.
pub open spec fn last_where_line(c: Seq<char>, kind: LineKind, key: Seq<char>) -> Option<int> {
    last_where(lines(c), pred(kind, key))
}

// ------------------------------------------------------------------
// Executable tests
// ------------------------------------------------------------------

pub fn starts_char_exec(t: &[char], c: char) -> (r: bool)
    ensures
        r == starts_char(t@, c),
{
    t.len() > 0 && t[0] == c
}

pub proof fn lemma_first_ws_some(t: Seq<char>, i: int)
    requires
        0 <= i < t.len(),
        is_ws(t[i]),
        forall|j: int| 0 <= j < i ==> !is_ws(t[j]),
    ensures
        first_ws(t) == Some(i),
    decreases i,
{
    if i > 0 {
        lemma_first_ws_some(t.drop_first(), i - 1);
    }
}

proof fn lemma_first_ws_none(t: Seq<char>)
    requires
        forall|j: int| 0 <= j < t.len() ==> !is_ws(t[j]),
    ensures
        first_ws(t) is None,
    decreases t.len(),
{
    if t.len() > 0 {
        lemma_first_ws_none(t.drop_first());
    }
}

/// The first whitespace position of `t`.
pub fn first_ws_exec(t: &[char]) -> (r: Option<usize>)
    ensures
        match r {
            Some(i) => first_ws(t@) == Some(i as int) && i < t.len(),
            None => first_ws(t@) is None,
        },
{
    let mut i: usize = 0;
    while i < t.len()
        invariant
            i <= t.len(),
            forall|j: int| 0 <= j < i ==> !is_ws(t@[j]),
        decreases t.len() - i,
    {
        if is_ws_char(t[i]) {
            proof {
                lemma_first_ws_some(t@, i as int);
            }
            return Some(i);
        }
        i += 1;
    }
    proof {
        lemma_first_ws_none(t@);
    }
    None
}

/// The first word of `t`.
pub fn token_exec(t: &[char]) -> (r: Vec<char>)
    ensures
        r@ == token(t@),
{
    match first_ws_exec(t) {
        Some(i) => slice_of(t, 0, i),
        None => slice_of(t, 0, t.len()),
    }
}

fn ini_key_is_exec(t: &[char], key: &[char]) -> (r: bool)
    ensures
        r == ini_key_is(t@, key@),
{
    match split_once_exec(t, '=') {
        Some((k, _)) => {
            let tk = trim_of(&k);
            crate::text::eq(&tk, key)
        },
        None => false,
    }
}

fn kind_test_exec(kind: &LineKind, t: &[char], key: &[char]) -> (r: bool)
    ensures
        r == kind_test(*kind, t@, key@),
{
    match kind {
        LineKind::NginxDirective => {
            if starts_char_exec(t, '#') || !starts_with_chars(t, key) {
                return false;
            }
            let rest = slice_of(t, key.len(), t.len());
            rest.len() > 0 && (is_ws_char(rest[0]) || rest[0] == ';')
        },
        LineKind::NginxCommented => {
            if !starts_char_exec(t, '#') {
                return false;
            }
            let u = slice_of(t, 1, t.len());
            let tu = trim_of(&u);
            starts_with_chars(&tu, key)
        },
        LineKind::Mentions => !starts_char_exec(t, '#') && contains_chars(t, key),
        LineKind::IniGet => !starts_char_exec(t, '#') && !starts_char_exec(t, ';') && t.len() > 0
            && ini_key_is_exec(t, key),
        LineKind::IniActive => !starts_char_exec(t, '#') && !starts_char_exec(t, ';')
            && ini_key_is_exec(t, key),
        LineKind::IniCommented => {
            if !(starts_char_exec(t, '#') || starts_char_exec(t, ';')) {
                return false;
            }
            let u = slice_of(t, 1, t.len());
            let tu = trim_of(&u);
            ini_key_is_exec(&tu, key)
        },
        LineKind::RedisGet => {
            if starts_char_exec(t, '#') || t.len() == 0 {
                return false;
            }
            match first_ws_exec(t) {
                Some(i) => {
                    let k = slice_of(t, 0, i);
                    crate::text::eq(&k, key)
                },
                None => false,
            }
        },
        LineKind::RedisActive => {
            if starts_char_exec(t, '#') {
                return false;
            }
            let k = token_exec(t);
            crate::text::eq(&k, key)
        },
        LineKind::RedisCommented => {
            if !starts_char_exec(t, '#') {
                return false;
            }
            let u = slice_of(t, 1, t.len());
            let tu = trim_of(&u);
            let k = token_exec(&tu);
            crate::text::eq(&k, key)
        },
        LineKind::PhpGet => !starts_char_exec(t, ';') && t.len() > 0 && ini_key_is_exec(t, key),
        LineKind::PhpSet => {
            if starts_char_exec(t, ';') {
                let u = slice_of(t, 1, t.len());
                let tu = trim_of(&u);
                ini_key_is_exec(&tu, key)
            } else {
                ini_key_is_exec(t, key)
            }
        },
    }
}

/// Whether the line `l` is of the given kind.
pub fn line_is(kind: &LineKind, l: &[char], key: &[char]) -> (r: bool)
    ensures
        r == pred(*kind, key@)(l@),
{
    let t = trim_of(l);
    kind_test_exec(kind, &t, key)
}

/// The first line of the given kind.
pub fn find_first(ls: &Vec<Vec<char>>, kind: &LineKind, key: &[char]) -> (r: Option<usize>)
    ensures
        match r {
            Some(i) => first_where(views(ls@), pred(*kind, key@)) == Some(i as int) && i < ls.len(),
            None => first_where(views(ls@), pred(*kind, key@)) is None,
        },
{
    let ghost p = pred(*kind, key@);
    let mut i: usize = 0;
    while i < ls.len()
        invariant
            i <= ls.len(),
            p == pred(*kind, key@),
            forall|j: int| 0 <= j < i ==> !p(#[trigger] views(ls@)[j]),
        decreases ls.len() - i,
    {
        assert(views(ls@)[i as int] == ls@[i as int]@);
        if line_is(kind, &ls[i], key) {
            proof {
                lemma_first_where_found(views(ls@), p, i as int);
            }
            return Some(i);
        }
        i += 1;
    }
    proof {
        lemma_first_where_none(views(ls@), p);
    }
    None
}

/// The last line of the given kind.
pub fn find_last(ls: &Vec<Vec<char>>, kind: &LineKind, key: &[char]) -> (r: Option<usize>)
    ensures
        match r {
            Some(i) => last_where(views(ls@), pred(*kind, key@)) == Some(i as int) && i < ls.len(),
            None => last_where(views(ls@), pred(*kind, key@)) is None,
        },
{
    let ghost p = pred(*kind, key@);
    let mut i: usize = ls.len();
    while i > 0
        invariant
            i <= ls.len(),
            p == pred(*kind, key@),
            forall|j: int| i <= j < ls.len() ==> !p(#[trigger] views(ls@)[j]),
        decreases i,
    {
        assert(views(ls@)[i - 1] == ls@[i - 1]@);
        if line_is(kind, &ls[i - 1], key) {
            proof {
                lemma_last_where_found(views(ls@), p, i - 1);
            }
            return Some(i - 1);
        }
        i -= 1;
    }
    proof {
        lemma_last_where_none(views(ls@), p);
    }
    None
}

// ------------------------------------------------------------------
// Building blocks for the editors
// ------------------------------------------------------------------

/// The leading whitespace of a line.
pub open spec fn indent(l: Seq<char>) -> Seq<char> {
    l.take(l.len() - trim_start(l).len())
}

pub proof fn lemma_trim_start_len(s: Seq<char>)
    ensures
        trim_start(s).len() <= s.len(),
    decreases s.len(),
{
    if s.len() > 0 && crate::text::is_ws(s[0]) {
        lemma_trim_start_len(s.drop_first());
    }
}

/// The leading whitespace of `l`.
pub fn indent_of(l: &[char]) -> (r: Vec<char>)
    ensures
        r@ == indent(l@),
{
    let ts = trim_start_of(l);
    proof {
        lemma_trim_start_len(l@);
    }
    slice_of(l, 0, l.len() - ts.len())
}

/// The lines of `c`, and their views.
pub fn lines_vec(c: &[char]) -> (r: Vec<Vec<char>>)
    ensures
        views(r@) == lines(c@),
{
    lines_of(c)
}

/// Joins after replacing line `i`.
pub fn join_with_update(ls: Vec<Vec<char>>, i: usize, l: Vec<char>) -> (r: Vec<char>)
    requires
        i < ls.len(),
    ensures
        r@ == join_lines(views(ls@).update(i as int, l@)),
{
    let mut ls = ls;
    let ghost before = views(ls@);
    let ghost lv = l@;
    ls.set(i, l);
    assert(views(ls@) =~= before.update(i as int, lv));
    join_lines_of(&ls)
}

/// Joins after inserting a line at `i`.
pub fn join_with_insert(ls: Vec<Vec<char>>, i: usize, l: Vec<char>) -> (r: Vec<char>)
    requires
        i <= ls.len(),
    ensures
        r@ == join_lines(views(ls@).insert(i as int, l@)),
{
    let mut ls = ls;
    let ghost before = views(ls@);
    let ghost lv = l@;
    ls.insert(i, l);
    assert(views(ls@) =~= before.insert(i as int, lv));
    join_lines_of(&ls)
}

/// Joins after appending a line.
pub fn join_with_push(ls: Vec<Vec<char>>, l: Vec<char>) -> (r: Vec<char>)
    ensures
        r@ == join_lines(views(ls@).push(l@)),
{
    let mut ls = ls;
    let ghost before = views(ls@);
    let ghost lv = l@;
    ls.push(l);
    assert(views(ls@) =~= before.push(lv));
    join_lines_of(&ls)
}

/// `a + b + c + d` as one vector.
pub fn concat4(a: &[char], b: &[char], c: &[char], d: &[char]) -> (r: Vec<char>)
    ensures
        r@ == a@ + b@ + c@ + d@,
{
    let mut r = slice_of(a, 0, a.len());
    append(&mut r, b);
    append(&mut r, c);
    append(&mut r, d);
    r
}

} // verus!
