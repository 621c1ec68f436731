//! Character-sequence model of the text operations the configuration logic
//! is written in: Unicode whitespace, trimming, prefixes, line splitting and
//! joining. Every executable helper here is proved against its spec function.

use vstd::prelude::*;

verus! {

/// `char::is_whitespace`: the Unicode `White_Space` property.
pub open spec fn is_ws(c: char) -> bool {
    ||| c == '\t'
    ||| c == '\n'
    ||| c == '\u{0B}'
    ||| c == '\u{0C}'
    ||| c == '\r'
    ||| c == ' '
    ||| c == '\u{85}'
    ||| c == '\u{A0}'
    ||| c == '\u{1680}'
    ||| ('\u{2000}' <= c && c <= '\u{200A}')
    ||| c == '\u{2028}'
    ||| c == '\u{2029}'
    ||| c == '\u{202F}'
    ||| c == '\u{205F}'
    ||| c == '\u{3000}'
}

/// `str::trim_start`.
pub open spec fn trim_start(s: Seq<char>) -> Seq<char>
    decreases s.len(),
{
    if s.len() > 0 && is_ws(s[0]) {
        trim_start(s.drop_first())
    } else {
        s
    }
}

/// `str::trim_end`.
pub open spec fn trim_end(s: Seq<char>) -> Seq<char>
    decreases s.len(),
{
    if s.len() > 0 && is_ws(s.last()) {
        trim_end(s.drop_last())
    } else {
        s
    }
}

/// `str::trim`.
pub open spec fn trim(s: Seq<char>) -> Seq<char> {
    trim_start(trim_end(s))
}

/// `str::starts_with` for a string pattern.
pub open spec fn starts_with(s: Seq<char>, p: Seq<char>) -> bool {
    p.len() <= s.len() && s.take(p.len() as int) == p
}

/// `str::ends_with` for a string pattern.
pub open spec fn ends_with(s: Seq<char>, p: Seq<char>) -> bool {
    p.len() <= s.len() && s.skip(s.len() - p.len()) == p
}

/// Whether `p` occurs in `s` at position `i`.
pub open spec fn occurs_at(s: Seq<char>, p: Seq<char>, i: int) -> bool {
    0 <= i && i + p.len() <= s.len() && s.subrange(i, i + p.len()) == p
}

/// `str::contains` for a string pattern.
pub open spec fn contains(s: Seq<char>, p: Seq<char>) -> bool {
    exists|i: int| occurs_at(s, p, i)
}

/// The first position of `c` in `s` (`str::find` for a char).
pub open spec fn find_char(s: Seq<char>, c: char) -> Option<int>
    decreases s.len(),
{
    if s.len() == 0 {
        None
    } else if s[0] == c {
        Some(0)
    } else {
        match find_char(s.drop_first(), c) {
            Some(i) => Some(i + 1),
            None => None,
        }
    }
}

/// `str::split_once` for a char separator.
pub open spec fn split_once(s: Seq<char>, c: char) -> Option<(Seq<char>, Seq<char>)> {
    match find_char(s, c) {
        Some(i) => Some((s.take(i), s.skip(i + 1))),
        None => None,
    }
}

/// Drops one trailing `'\r'`.
pub open spec fn strip_cr(s: Seq<char>) -> Seq<char> {
    if s.len() > 0 && s.last() == '\r' {
        s.drop_last()
    } else {
        s
    }
}

/// `str::lines` scanned from the front, with `cur` the part of the current
/// line read so far.
pub open spec fn lines_from(s: Seq<char>, cur: Seq<char>) -> Seq<Seq<char>>
    decreases s.len(),
{
    if s.len() == 0 {
        if cur.len() == 0 {
            Seq::empty()
        } else {
            seq![cur]
        }
    } else if s[0] == '\n' {
        seq![strip_cr(cur)] + lines_from(s.drop_first(), Seq::empty())
    } else {
        lines_from(s.drop_first(), cur.push(s[0]))
    }
}

/// `str::lines`: split at `'\n'`; a line ended by `"\r\n"` loses its `'\r'`;
/// a final line ending adds no empty line.
pub open spec fn lines(s: Seq<char>) -> Seq<Seq<char>> {
    lines_from(s, Seq::empty())
}

/// `[..].join("\n")`.
pub open spec fn join_lines(ls: Seq<Seq<char>>) -> Seq<char>
    decreases ls.len(),
{
    if ls.len() == 0 {
        Seq::empty()
    } else if ls.len() == 1 {
        ls[0]
    } else {
        join_lines(ls.drop_last()) + seq!['\n'] + ls.last()
    }
}

/// No `'\n'` in `s`.
pub open spec fn no_nl(s: Seq<char>) -> bool {
    forall|i: int| 0 <= i < s.len() ==> s[i] != '\n'
}

/// The views of a sequence of character vectors.
pub open spec fn views(v: Seq<Vec<char>>) -> Seq<Seq<char>> {
    v.map_values(|x: Vec<char>| x@)
}

/// ASCII lowercase of one char.
pub open spec fn lower_char(c: char) -> char {
    if 'A' <= c && c <= 'Z' {
        ((c as u32) + 32) as char
    } else {
        c
    }
}

/// `str::to_ascii_lowercase`.
pub open spec fn lower(s: Seq<char>) -> Seq<char> {
    s.map_values(|c: char| lower_char(c))
}

/// Count of `c` in `s`.
pub open spec fn count_char(s: Seq<char>, c: char) -> nat
    decreases s.len(),
{
    if s.len() == 0 {
        0
    } else {
        (if s.last() == c { 1nat } else { 0nat }) + count_char(s.drop_last(), c)
    }
}

// ------------------------------------------------------------------
// Lemmas
// ------------------------------------------------------------------

pub proof fn lemma_trim_start_skip(s: Seq<char>, i: int)
    requires
        0 <= i <= s.len(),
        forall|j: int| 0 <= j < i ==> is_ws(s[j]),
    ensures
        trim_start(s) == trim_start(s.skip(i)),
    decreases i,
{
    if i > 0 {
        assert(s.skip(1) == s.drop_first());
        lemma_trim_start_skip(s.drop_first(), i - 1);
        assert(s.drop_first().skip(i - 1) == s.skip(i));
    } else {
        assert(s.skip(0) == s);
    }
}

pub proof fn lemma_trim_end_take(s: Seq<char>, i: int)
    requires
        0 <= i <= s.len(),
        forall|j: int| i <= j < s.len() ==> is_ws(s[j]),
    ensures
        trim_end(s) == trim_end(s.take(i)),
    decreases s.len() - i,
{
    if i < s.len() {
        lemma_trim_end_take(s.drop_last(), i);
        assert(s.drop_last().take(i) == s.take(i));
    } else {
        assert(s.take(i) == s);
    }
}

pub proof fn lemma_trim_start_props(s: Seq<char>)
    ensures
        trim_start(s).len() <= s.len(),
        s.skip(s.len() - trim_start(s).len()) == trim_start(s),
        trim_start(s).len() > 0 ==> !is_ws(trim_start(s)[0]),
        forall|j: int| 0 <= j < s.len() - trim_start(s).len() ==> is_ws(s[j]),
    decreases s.len(),
{
    if s.len() > 0 && is_ws(s[0]) {
        lemma_trim_start_props(s.drop_first());
        assert(s.drop_first().skip(s.drop_first().len() - trim_start(s).len())
            == s.skip(s.len() - trim_start(s).len()));
        assert forall|j: int| 0 <= j < s.len() - trim_start(s).len() implies is_ws(s[j]) by {
            if j > 0 {
                assert(s[j] == s.drop_first()[j - 1]);
            }
        }
    } else {
        assert(s.skip(0) == s);
    }
}

pub proof fn lemma_trim_end_props(s: Seq<char>)
    ensures
        trim_end(s).len() <= s.len(),
        s.take(trim_end(s).len() as int) == trim_end(s),
        trim_end(s).len() > 0 ==> !is_ws(trim_end(s).last()),
        forall|j: int| trim_end(s).len() <= j < s.len() ==> is_ws(s[j]),
    decreases s.len(),
{
    if s.len() > 0 && is_ws(s.last()) {
        lemma_trim_end_props(s.drop_last());
        assert(s.drop_last().take(trim_end(s).len() as int) == s.take(trim_end(s).len() as int));
        assert forall|j: int| trim_end(s).len() <= j < s.len() implies is_ws(s[j]) by {
            if j < s.len() - 1 {
                assert(s[j] == s.drop_last()[j]);
            }
        }
    } else {
        assert(s.take(s.len() as int) == s);
    }
}

/// A trimmed string has no whitespace at either end.
pub proof fn lemma_trim_props(s: Seq<char>)
    ensures
        trim(s).len() > 0 ==> !is_ws(trim(s)[0]) && !is_ws(trim(s).last()),
        trim(trim(s)) == trim(s),
{
    lemma_trim_end_props(s);
    let e = trim_end(s);
    lemma_trim_start_props(e);
    let t = trim_start(e);
    if t.len() > 0 {
        assert(t.last() == e.last());
    }
    lemma_trim_idem(s);
}

proof fn lemma_trim_idem(s: Seq<char>)
    ensures
        trim(trim(s)) == trim(s),
{
    lemma_trim_end_props(s);
    let e = trim_end(s);
    lemma_trim_start_props(e);
    let t = trim_start(e);
    // t has no trailing whitespace (it is a suffix of e, which has none)
    if t.len() > 0 {
        assert(t.last() == e.last());
    }
    assert(trim_end(t) == t);
    lemma_trim_start_props(t);
    if t.len() > 0 {
        assert(trim_start(t) == t);
    } else {
        assert(trim_start(t) == t);
    }
}

/// Trailing whitespace after a non-whitespace char only comes from the tail.
pub proof fn lemma_trim_end_concat(a: Seq<char>, m: char, b: Seq<char>)
    requires
        !is_ws(m),
    ensures
        trim_end(a + seq![m] + b) == a + seq![m] + trim_end(b),
    decreases b.len(),
{
    let x = a + seq![m] + b;
    if b.len() == 0 {
        assert(x == a + seq![m]);
        assert(x.last() == m);
    } else if is_ws(b.last()) {
        assert(x.last() == b.last());
        assert(x.drop_last() == a + seq![m] + b.drop_last());
        lemma_trim_end_concat(a, m, b.drop_last());
    } else {
        assert(x.last() == b.last());
    }
}

/// Trailing whitespace comes off `b` alone when `b` has a non-whitespace
/// char.
pub proof fn lemma_trim_end_append(a: Seq<char>, b: Seq<char>)
    requires
        trim_end(b).len() > 0,
    ensures
        trim_end(a + b) == a + trim_end(b),
    decreases b.len(),
{
    let x = a + b;
    assert(x.last() == b.last());
    if is_ws(b.last()) {
        assert(x.drop_last() == a + b.drop_last());
        lemma_trim_end_append(a, b.drop_last());
    }
}

pub proof fn lemma_trim_end_idem(s: Seq<char>)
    ensures
        trim_end(trim_end(s)) == trim_end(s),
{
    lemma_trim_end_props(s);
}

/// Text that starts with a non-whitespace char loses only trailing whitespace.
pub proof fn lemma_trim_nonws_first(s: Seq<char>)
    requires
        s.len() > 0,
        !is_ws(s[0]),
    ensures
        trim(s) == trim_end(s),
        trim_end(s).len() > 0,
        trim_end(s)[0] == s[0],
{
    lemma_trim_end_props(s);
    let e = trim_end(s);
    if e.len() == 0 {
        assert(is_ws(s[0]));
    }
    assert(e[0] == s.take(e.len() as int)[0]);
}

/// `'\r'` is whitespace, so stripping it does not change the trimmed text.
pub proof fn lemma_trim_strip_cr(s: Seq<char>)
    ensures
        trim(strip_cr(s)) == trim(s),
{
    if s.len() > 0 && s.last() == '\r' {
        assert(trim_end(s) == trim_end(s.drop_last()));
    }
}

/// Every line of a text is free of `'\n'`.
pub proof fn lemma_lines_from_no_nl(s: Seq<char>, cur: Seq<char>)
    requires
        no_nl(cur),
    ensures
        forall|k: int| 0 <= k < lines_from(s, cur).len() ==> no_nl(#[trigger] lines_from(s, cur)[k]),
    decreases s.len(),
{
    if s.len() == 0 {
        if cur.len() > 0 {
            assert(lines_from(s, cur) == seq![cur]);
        }
    } else if s[0] == '\n' {
        assert(no_nl(strip_cr(cur)));
        lemma_lines_from_no_nl(s.drop_first(), Seq::empty());
        let rest = lines_from(s.drop_first(), Seq::empty());
        let all = seq![strip_cr(cur)] + rest;
        assert(lines_from(s, cur) == all);
        assert forall|k: int| 0 <= k < all.len() implies no_nl(#[trigger] all[k]) by {
            if k == 0 {
                assert(no_nl(strip_cr(cur)));
            } else {
                assert(all[k] == rest[k - 1]);
            }
        }
    } else {
        assert(no_nl(cur.push(s[0])));
        lemma_lines_from_no_nl(s.drop_first(), cur.push(s[0]));
        assert(lines_from(s, cur) == lines_from(s.drop_first(), cur.push(s[0])));
    }
}

pub proof fn lemma_lines_no_nl(s: Seq<char>)
    ensures
        forall|k: int| 0 <= k < lines(s).len() ==> no_nl(#[trigger] lines(s)[k]),
{
    lemma_lines_from_no_nl(s, Seq::empty());
}

/// Scanning a line-free prefix only extends the current line.
pub proof fn lemma_lines_from_append(a: Seq<char>, b: Seq<char>, cur: Seq<char>)
    requires
        no_nl(a),
    ensures
        lines_from(a + b, cur) == lines_from(b, cur + a),
    decreases a.len(),
{
    if a.len() == 0 {
        assert(a + b == b);
        assert(cur + a == cur);
    } else {
        assert((a + b).drop_first() == a.drop_first() + b);
        assert((a + b)[0] == a[0]);
        lemma_lines_from_append(a.drop_first(), b, cur.push(a[0]));
        assert(cur.push(a[0]) + a.drop_first() == cur + a);
    }
}

/// Splitting a joined list of lines gives the lines back, each with at most
/// one trailing `'\r'` removed, except that a final empty line disappears.
pub open spec fn relined(ls: Seq<Seq<char>>) -> Seq<Seq<char>>
    decreases ls.len(),
{
    if ls.len() == 0 {
        Seq::empty()
    } else if ls.len() == 1 {
        if ls[0].len() == 0 {
            Seq::empty()
        } else {
            seq![ls[0]]
        }
    } else {
        seq![strip_cr(ls[0])] + relined(ls.drop_first())
    }
}

pub proof fn lemma_join_first(ls: Seq<Seq<char>>)
    requires
        ls.len() >= 2,
    ensures
        join_lines(ls) == ls[0] + seq!['\n'] + join_lines(ls.drop_first()),
    decreases ls.len(),
{
    if ls.len() == 2 {
        assert(ls.drop_last() =~= seq![ls[0]]);
        assert(ls.drop_first() =~= seq![ls[1]]);
        assert(join_lines(ls.drop_last()) == ls[0]);
        assert(join_lines(ls.drop_first()) == ls[1]);
    } else {
        lemma_join_first(ls.drop_last());
        assert(ls.drop_last().drop_first() == ls.drop_first().drop_last());
        assert(ls.drop_first().last() == ls.last());
        assert(ls.drop_last()[0] == ls[0]);
        assert(join_lines(ls) == join_lines(ls.drop_last()) + seq!['\n'] + ls.last());
        assert(join_lines(ls.drop_first()) == join_lines(ls.drop_first().drop_last()) + seq!['\n']
            + ls.drop_first().last());
        let a = ls[0];
        let m = join_lines(ls.drop_last().drop_first());
        let n: Seq<char> = seq!['\n'];
        assert(join_lines(ls.drop_last()) == a + n + m);
        assert(join_lines(ls.drop_first()) == m + n + ls.last());
        assert(a + n + m + n + ls.last() =~= a + n + (m + n + ls.last()));
    }
}

pub proof fn lemma_lines_join(ls: Seq<Seq<char>>)
    requires
        forall|k: int| 0 <= k < ls.len() ==> no_nl(#[trigger] ls[k]),
    ensures
        lines(join_lines(ls)) == relined(ls),
    decreases ls.len(),
{
    if ls.len() == 0 {
    } else if ls.len() == 1 {
        assert(no_nl(ls[0]));
        let e: Seq<char> = Seq::empty();
        lemma_lines_from_append(ls[0], e, e);
        assert(ls[0] + e == ls[0]);
        assert(e + ls[0] == ls[0]);
    } else {
        lemma_join_first(ls);
        let rest = join_lines(ls.drop_first());
        let e: Seq<char> = Seq::empty();
        assert(no_nl(ls[0]));
        assert(ls[0] + seq!['\n'] + rest == ls[0] + (seq!['\n'] + rest));
        lemma_lines_from_append(ls[0], seq!['\n'] + rest, e);
        assert(e + ls[0] == ls[0]);
        let t = seq!['\n'] + rest;
        assert(t[0] == '\n');
        assert(t.drop_first() == rest);
        assert forall|k: int| 0 <= k < ls.drop_first().len() implies no_nl(
            #[trigger] ls.drop_first()[k],
        ) by {
            assert(ls.drop_first()[k] == ls[k + 1]);
        }
        lemma_lines_join(ls.drop_first());
    }
}

/// Facts about `relined` of an updated list.
pub proof fn lemma_relined_index(ls: Seq<Seq<char>>, k: int)
    requires
        0 <= k < relined(ls).len(),
    ensures
        k < ls.len(),
        relined(ls)[k] == strip_cr(ls[k]) || (k == ls.len() - 1 && relined(ls)[k] == ls[k]),
    decreases ls.len(),
{
    if ls.len() == 1 {
    } else {
        if k > 0 {
            lemma_relined_index(ls.drop_first(), k - 1);
        }
    }
}

pub proof fn lemma_relined_len(ls: Seq<Seq<char>>)
    ensures
        relined(ls).len() <= ls.len(),
        ls.len() > 0 && ls.last().len() > 0 ==> relined(ls).len() == ls.len(),
    decreases ls.len(),
{
    if ls.len() > 1 {
        lemma_relined_len(ls.drop_first());
        assert(ls.drop_first().last() == ls.last());
    }
}

/// The first index whose element satisfies `p`.
pub open spec fn first_where(ls: Seq<Seq<char>>, p: spec_fn(Seq<char>) -> bool) -> Option<int>
    decreases ls.len(),
{
    if ls.len() == 0 {
        None
    } else if p(ls[0]) {
        Some(0)
    } else {
        match first_where(ls.drop_first(), p) {
            Some(i) => Some(i + 1),
            None => None,
        }
    }
}

/// The last index whose element satisfies `p` (`Iterator::rposition`).
pub open spec fn last_where(ls: Seq<Seq<char>>, p: spec_fn(Seq<char>) -> bool) -> Option<int>
    decreases ls.len(),
{
    if ls.len() == 0 {
        None
    } else if p(ls.last()) {
        Some(ls.len() - 1)
    } else {
        last_where(ls.drop_last(), p)
    }
}

pub proof fn lemma_first_where_found(ls: Seq<Seq<char>>, p: spec_fn(Seq<char>) -> bool, i: int)
    requires
        0 <= i < ls.len(),
        p(ls[i]),
        forall|j: int| 0 <= j < i ==> !p(#[trigger] ls[j]),
    ensures
        first_where(ls, p) == Some(i),
    decreases i,
{
    if i > 0 {
        assert(!p(ls[0]));
        assert forall|j: int| 0 <= j < i - 1 implies !p(#[trigger] ls.drop_first()[j]) by {
            assert(ls.drop_first()[j] == ls[j + 1]);
        }
        lemma_first_where_found(ls.drop_first(), p, i - 1);
    }
}

pub proof fn lemma_first_where_none(ls: Seq<Seq<char>>, p: spec_fn(Seq<char>) -> bool)
    requires
        forall|j: int| 0 <= j < ls.len() ==> !p(#[trigger] ls[j]),
    ensures
        first_where(ls, p) is None,
    decreases ls.len(),
{
    if ls.len() > 0 {
        assert(!p(ls[0]));
        assert forall|j: int| 0 <= j < ls.len() - 1 implies !p(#[trigger] ls.drop_first()[j]) by {
            assert(ls.drop_first()[j] == ls[j + 1]);
        }
        lemma_first_where_none(ls.drop_first(), p);
    }
}

/// What `first_where` promises.
pub proof fn lemma_first_where_spec(ls: Seq<Seq<char>>, p: spec_fn(Seq<char>) -> bool)
    ensures
        first_where(ls, p) matches Some(i) ==> 0 <= i < ls.len() && p(ls[i]) && forall|j: int|
            0 <= j < i ==> !p(#[trigger] ls[j]),
        first_where(ls, p) is None ==> forall|j: int| 0 <= j < ls.len() ==> !p(#[trigger] ls[j]),
    decreases ls.len(),
{
    if ls.len() > 0 {
        lemma_first_where_spec(ls.drop_first(), p);
        if !p(ls[0]) {
            assert forall|j: int| 0 < j < ls.len() implies ls[j] == ls.drop_first()[j - 1] by {}
        }
    }
}

pub proof fn lemma_last_where_found(ls: Seq<Seq<char>>, p: spec_fn(Seq<char>) -> bool, i: int)
    requires
        0 <= i < ls.len(),
        p(ls[i]),
        forall|j: int| i < j < ls.len() ==> !p(#[trigger] ls[j]),
    ensures
        last_where(ls, p) == Some(i),
    decreases ls.len(),
{
    if i < ls.len() - 1 {
        assert(!p(ls.last()));
        assert forall|j: int| i < j < ls.len() - 1 implies !p(#[trigger] ls.drop_last()[j]) by {
            assert(ls.drop_last()[j] == ls[j]);
        }
        lemma_last_where_found(ls.drop_last(), p, i);
    }
}

pub proof fn lemma_last_where_none(ls: Seq<Seq<char>>, p: spec_fn(Seq<char>) -> bool)
    requires
        forall|j: int| 0 <= j < ls.len() ==> !p(#[trigger] ls[j]),
    ensures
        last_where(ls, p) is None,
    decreases ls.len(),
{
    if ls.len() > 0 {
        assert(!p(ls.last()));
        assert forall|j: int| 0 <= j < ls.len() - 1 implies !p(#[trigger] ls.drop_last()[j]) by {
            assert(ls.drop_last()[j] == ls[j]);
        }
        lemma_last_where_none(ls.drop_last(), p);
    }
}

/// A predicate on lines that only looks at the trimmed line.
pub open spec fn trim_only(p: spec_fn(Seq<char>) -> bool) -> bool {
    forall|l: Seq<char>| p(l) == p(#[trigger] trim(l))
}

/// Re-splitting a joined list of lines finds the same first line for any
/// predicate on trimmed lines that the empty line does not satisfy.
pub proof fn lemma_first_where_relined(ls: Seq<Seq<char>>, p: spec_fn(Seq<char>) -> bool)
    requires
        trim_only(p),
        !p(Seq::empty()),
    ensures
        first_where(relined(ls), p) == first_where(ls, p),
        first_where(ls, p) matches Some(i) ==> trim(relined(ls)[i]) == trim(ls[i]),
    decreases ls.len(),
{
    if ls.len() == 0 {
    } else if ls.len() == 1 {
        if ls[0].len() == 0 {
            assert(ls[0] == Seq::<char>::empty());
            assert(!p(ls[0]));
            assert(ls.drop_first().len() == 0);
            assert(first_where(ls, p) is None);
            assert(relined(ls).len() == 0);
        } else {
            assert(relined(ls) =~= ls);
        }
    } else {
        lemma_trim_strip_cr(ls[0]);
        assert(p(strip_cr(ls[0])) == p(trim(strip_cr(ls[0]))));
        assert(p(ls[0]) == p(trim(ls[0])));
        lemma_first_where_relined(ls.drop_first(), p);
        let r = relined(ls);
        assert(r == seq![strip_cr(ls[0])] + relined(ls.drop_first()));
        assert(r.drop_first() == relined(ls.drop_first()));
        assert(r[0] == strip_cr(ls[0]));
        if p(ls[0]) {
            assert(first_where(r, p) == Some(0int));
            assert(first_where(ls, p) == Some(0int));
        } else {
            assert(!p(r[0]));
            lemma_first_where_spec(ls.drop_first(), p);
            lemma_first_where_spec(relined(ls.drop_first()), p);
            match first_where(ls.drop_first(), p) {
                Some(k) => {
                    assert(first_where(ls, p) == Some(k + 1));
                    assert(first_where(r, p) == Some(k + 1));
                    assert(r[k + 1] == relined(ls.drop_first())[k]);
                    assert(ls[k + 1] == ls.drop_first()[k]);
                },
                None => {
                    assert(first_where(ls, p) is None);
                    assert(first_where(r, p) is None);
                },
            }
        }
    }
}

// ------------------------------------------------------------------
// Executable helpers
// ------------------------------------------------------------------

/// The characters of `s`.
pub fn chars_of(s: &str) -> (v: Vec<char>)
    ensures
        v@ == s@,
{
    broadcast use vstd::string::group_string_axioms;

    let mut v: Vec<char> = Vec::new();
    for c in it: s.chars()
        invariant
            v@ == it.seq().take(it.index() as int),
            it.seq() == s@,
    {
        v.push(c);
        assert(it.seq().take(it.index() + 1) == it.seq().take(it.index() as int).push(c));
    }
    v
}

/// `String::push`.
#[verifier::external_body]
fn string_push(s: &mut String, c: char)
    ensures
        final(s)@ == old(s)@.push(c),
{
    s.push(c);
}

/// A `String` with the given characters.
pub fn string_of(v: &[char]) -> (s: String)
    ensures
        s@ == v@,
{
    let mut s = String::new();
    let mut i: usize = 0;
    while i < v.len()
        invariant
            i <= v.len(),
            s@ == v@.take(i as int),
        decreases v.len() - i,
    {
        string_push(&mut s, v[i]);
        i += 1;
        assert(v@.take(i as int) == v@.take((i - 1) as int).push(v@[i - 1]));
    }
    assert(v@.take(v.len() as int) == v@);
    s
}

/// Appends `b` to `a`.
pub fn append(a: &mut Vec<char>, b: &[char])
    ensures
        final(a)@ == old(a)@ + b@,
{
    let mut i: usize = 0;
    let ghost a0 = a@;
    while i < b.len()
        invariant
            i <= b.len(),
            a@ == a0 + b@.take(i as int),
        decreases b.len() - i,
    {
        a.push(b[i]);
        i += 1;
        assert(b@.take(i as int) == b@.take((i - 1) as int).push(b@[i - 1]));
    }
    assert(b@.take(b.len() as int) == b@);
}

/// Appends the characters of `b` to `a`.
pub fn append_str(a: &mut Vec<char>, b: &str)
    ensures
        final(a)@ == old(a)@ + b@,
{
    let v = chars_of(b);
    append(a, &v);
}

/// `s[lo..hi]` as a new vector.
pub fn slice_of(s: &[char], lo: usize, hi: usize) -> (v: Vec<char>)
    requires
        lo <= hi <= s.len(),
    ensures
        v@ == s@.subrange(lo as int, hi as int),
{
    let mut v: Vec<char> = Vec::new();
    let mut i = lo;
    while i < hi
        invariant
            lo <= i <= hi,
            hi <= s.len(),
            v@ == s@.subrange(lo as int, i as int),
        decreases hi - i,
    {
        v.push(s[i]);
        i += 1;
        assert(s@.subrange(lo as int, i as int) == s@.subrange(lo as int, (i - 1) as int).push(
            s@[i - 1],
        ));
    }
    v
}

/// Equality of two character sequences.
pub fn eq(a: &[char], b: &[char]) -> (r: bool)
    ensures
        r == (a@ == b@),
{
    if a.len() != b.len() {
        return false;
    }
    let mut i: usize = 0;
    while i < a.len()
        invariant
            a.len() == b.len(),
            i <= a.len(),
            forall|j: int| 0 <= j < i ==> a@[j] == b@[j],
        decreases a.len() - i,
    {
        if a[i] != b[i] {
            return false;
        }
        i += 1;
    }
    assert(a@ =~= b@);
    true
}

/// Equality with a string literal or other `&str`.
pub fn eq_str(a: &[char], b: &str) -> (r: bool)
    ensures
        r == (a@ == b@),
{
    let v = chars_of(b);
    eq(a, &v)
}

/// `char::is_whitespace`.
pub fn is_ws_char(c: char) -> (r: bool)
    ensures
        r == is_ws(c),
{
    c == '\t' || c == '\n' || c == '\u{0B}' || c == '\u{0C}' || c == '\r' || c == ' ' || c
        == '\u{85}' || c == '\u{A0}' || c == '\u{1680}' || ('\u{2000}' <= c && c <= '\u{200A}')
        || c == '\u{2028}' || c == '\u{2029}' || c == '\u{202F}' || c == '\u{205F}' || c
        == '\u{3000}'
}

/// `str::trim_start`.
pub fn trim_start_of(s: &[char]) -> (r: Vec<char>)
    ensures
        r@ == trim_start(s@),
{
    let mut i: usize = 0;
    while i < s.len() && is_ws_char(s[i])
        invariant
            i <= s.len(),
            forall|j: int| 0 <= j < i ==> is_ws(s@[j]),
        decreases s.len() - i,
    {
        i += 1;
    }
    proof {
        lemma_trim_start_skip(s@, i as int);
    }
    let r = slice_of(s, i, s.len());
    assert(r@ == s@.skip(i as int));
    r
}

/// `str::trim_end`.
pub fn trim_end_of(s: &[char]) -> (r: Vec<char>)
    ensures
        r@ == trim_end(s@),
{
    let mut i: usize = s.len();
    while i > 0 && is_ws_char(s[i - 1])
        invariant
            i <= s.len(),
            forall|j: int| i <= j < s.len() ==> is_ws(s@[j]),
        decreases i,
    {
        i -= 1;
    }
    proof {
        lemma_trim_end_take(s@, i as int);
        if i > 0 {
            assert(s@.take(i as int).last() == s@[i - 1]);
        }
    }
    let r = slice_of(s, 0, i);
    assert(r@ == s@.take(i as int));
    r
}

/// `str::trim`.
pub fn trim_of(s: &[char]) -> (r: Vec<char>)
    ensures
        r@ == trim(s@),
{
    let e = trim_end_of(s);
    trim_start_of(&e)
}

/// `str::starts_with`.
pub fn starts_with_chars(s: &[char], p: &[char]) -> (r: bool)
    ensures
        r == starts_with(s@, p@),
{
    if p.len() > s.len() {
        return false;
    }
    let mut i: usize = 0;
    while i < p.len()
        invariant
            p.len() <= s.len(),
            i <= p.len(),
            forall|j: int| 0 <= j < i ==> s@[j] == p@[j],
        decreases p.len() - i,
    {
        if s[i] != p[i] {
            assert(s@.take(p.len() as int)[i as int] != p@[i as int]);
            return false;
        }
        i += 1;
    }
    assert(s@.take(p.len() as int) =~= p@);
    true
}

/// `str::starts_with` against a `&str`.
pub fn starts_with_str(s: &[char], p: &str) -> (r: bool)
    ensures
        r == starts_with(s@, p@),
{
    let v = chars_of(p);
    starts_with_chars(s, &v)
}

/// `str::ends_with`.
pub fn ends_with_chars(s: &[char], p: &[char]) -> (r: bool)
    ensures
        r == ends_with(s@, p@),
{
    if p.len() > s.len() {
        return false;
    }
    let off = s.len() - p.len();
    let mut i: usize = 0;
    while i < p.len()
        invariant
            p.len() <= s.len(),
            off == s.len() - p.len(),
            i <= p.len(),
            forall|j: int| 0 <= j < i ==> s@[off + j] == p@[j],
        decreases p.len() - i,
    {
        if s[off + i] != p[i] {
            assert(s@.skip(off as int)[i as int] != p@[i as int]);
            return false;
        }
        i += 1;
    }
    assert(s@.skip(off as int) =~= p@);
    true
}

/// `str::strip_prefix`.
pub fn strip_prefix_chars(s: &[char], p: &[char]) -> (r: Option<Vec<char>>)
    ensures
        r.is_some() == starts_with(s@, p@),
        r matches Some(v) ==> v@ == s@.skip(p@.len() as int),
{
    if starts_with_chars(s, p) {
        Some(slice_of(s, p.len(), s.len()))
    } else {
        None
    }
}

/// Whether `p` occurs at position `i` of `s`.
pub fn occurs_at_exec(s: &[char], p: &[char], i: usize) -> (r: bool)
    ensures
        r == occurs_at(s@, p@, i as int),
{
    if i > s.len() || p.len() > s.len() - i {
        return false;
    }
    let mut k: usize = 0;
    while k < p.len()
        invariant
            i + p.len() <= s.len(),
            k <= p.len(),
            forall|j: int| 0 <= j < k ==> s@[i + j] == p@[j],
        decreases p.len() - k,
    {
        if s[i + k] != p[k] {
            assert(s@.subrange(i as int, i + p.len())[k as int] != p@[k as int]);
            return false;
        }
        k += 1;
    }
    assert(s@.subrange(i as int, i + p.len()) =~= p@);
    true
}

/// `str::contains`.
pub fn contains_chars(s: &[char], p: &[char]) -> (r: bool)
    ensures
        r == contains(s@, p@),
{
    if p.len() > s.len() {
        assert forall|i: int| !occurs_at(s@, p@, i) by {}
        return false;
    }
    let mut i: usize = 0;
    while i <= s.len() - p.len()
        invariant
            p.len() <= s.len(),
            i <= s.len() - p.len() + 1,
            forall|j: int| 0 <= j < i ==> !occurs_at(s@, p@, j),
        decreases s.len() - p.len() + 1 - i,
    {
        if occurs_at_exec(s, p, i) {
            return true;
        }
        if i == s.len() - p.len() {
            assert forall|j: int| !occurs_at(s@, p@, j) by {}
            return false;
        }
        i += 1;
    }
    assert forall|j: int| !occurs_at(s@, p@, j) by {}
    false
}

/// `str::contains` against a `&str`.
pub fn contains_str(s: &[char], p: &str) -> (r: bool)
    ensures
        r == contains(s@, p@),
{
    let v = chars_of(p);
    contains_chars(s, &v)
}

pub proof fn lemma_find_char_none(s: Seq<char>, c: char)
    ensures
        find_char(s, c) is None <==> (forall|j: int| 0 <= j < s.len() ==> s[j] != c),
    decreases s.len(),
{
    if s.len() > 0 {
        lemma_find_char_none(s.drop_first(), c);
        if s[0] != c {
            assert forall|j: int| 0 <= j < s.len() && (forall|k: int| 0 <= k < s.drop_first().len() ==> s.drop_first()[k] != c)
                implies s[j] != c by {
                if j > 0 {
                    assert(s[j] == s.drop_first()[j - 1]);
                }
            }
            if exists|j: int| 0 <= j < s.drop_first().len() && s.drop_first()[j] == c {
                let j = choose|j: int| 0 <= j < s.drop_first().len() && s.drop_first()[j] == c;
                assert(s[j + 1] == c);
            }
        }
    }
}

pub proof fn lemma_find_char_some(s: Seq<char>, c: char, i: int)
    requires
        0 <= i < s.len(),
        s[i] == c,
        forall|j: int| 0 <= j < i ==> s[j] != c,
    ensures
        find_char(s, c) == Some(i),
    decreases i,
{
    if i > 0 {
        lemma_find_char_some(s.drop_first(), c, i - 1);
    }
}

/// `str::find` for a char.
pub fn find_char_exec(s: &[char], c: char) -> (r: Option<usize>)
    ensures
        match r {
            Some(i) => find_char(s@, c) == Some(i as int) && i < s.len(),
            None => find_char(s@, c) is None,
        },
{
    let mut i: usize = 0;
    while i < s.len()
        invariant
            i <= s.len(),
            forall|j: int| 0 <= j < i ==> s@[j] != c,
        decreases s.len() - i,
    {
        if s[i] == c {
            proof {
                lemma_find_char_some(s@, c, i as int);
            }
            return Some(i);
        }
        i += 1;
    }
    proof {
        lemma_find_char_none(s@, c);
    }
    None
}

/// `str::split_once` for a char.
pub fn split_once_exec(s: &[char], c: char) -> (r: Option<(Vec<char>, Vec<char>)>)
    ensures
        match r {
            Some((a, b)) => split_once(s@, c) == Some((a@, b@)),
            None => split_once(s@, c) is None,
        },
{
    match find_char_exec(s, c) {
        Some(i) => {
            let a = slice_of(s, 0, i);
            let b = slice_of(s, i + 1, s.len());
            assert(a@ == s@.take(i as int));
            assert(b@ == s@.skip(i + 1));
            Some((a, b))
        },
        None => None,
    }
}

/// `str::lines`.
pub fn lines_of(s: &[char]) -> (r: Vec<Vec<char>>)
    ensures
        views(r@) == lines(s@),
{
    let mut out: Vec<Vec<char>> = Vec::new();
    let mut cur: Vec<char> = Vec::new();
    let mut i: usize = 0;
    assert(s@.skip(0) == s@);
    assert(views(out@) + lines_from(s@, cur@) == lines_from(s@, cur@));
    while i < s.len()
        invariant
            i <= s.len(),
            views(out@) + lines_from(s@.skip(i as int), cur@) == lines(s@),
        decreases s.len() - i,
    {
        let ghost rest = s@.skip(i as int);
        assert(rest[0] == s@[i as int]);
        assert(rest.drop_first() == s@.skip(i + 1));
        if s[i] == '\n' {
            let mut line = cur;
            if line.len() > 0 && line[line.len() - 1] == '\r' {
                line.pop();
            }
            assert(line@ == strip_cr(cur@));
            let ghost before = views(out@);
            out.push(line);
            assert(views(out@) == before.push(strip_cr(cur@)));
            assert(before + (seq![strip_cr(cur@)] + lines_from(s@.skip(i + 1), Seq::empty()))
                == before.push(strip_cr(cur@)) + lines_from(s@.skip(i + 1), Seq::empty()));
            cur = Vec::new();
        } else {
            cur.push(s[i]);
        }
        i += 1;
    }
    assert(s@.skip(i as int).len() == 0);
    if cur.len() > 0 {
        let ghost before = views(out@);
        out.push(cur);
        assert(views(out@) == before.push(cur@));
    } else {
        assert(views(out@) + Seq::<Seq<char>>::empty() == views(out@));
    }
    out
}

/// `[..].join("\n")`.
pub fn join_lines_of(ls: &Vec<Vec<char>>) -> (r: Vec<char>)
    ensures
        r@ == join_lines(views(ls@)),
{
    let mut r: Vec<char> = Vec::new();
    let mut i: usize = 0;
    while i < ls.len()
        invariant
            i <= ls.len(),
            r@ == join_lines(views(ls@).take(i as int)),
        decreases ls.len() - i,
    {
        let ghost pre = views(ls@).take(i as int);
        let ghost nxt = views(ls@).take(i + 1);
        assert(nxt.drop_last() == pre);
        assert(nxt.last() == ls@[i as int]@);
        if i > 0 {
            r.push('\n');
        } else {
            assert(pre.len() == 0);
        }
        append(&mut r, &ls[i]);
        i += 1;
    }
    assert(views(ls@).take(ls.len() as int) == views(ls@));
    r
}

/// `str::to_ascii_lowercase` of one char.
pub fn lower_char_exec(c: char) -> (r: char)
    ensures
        r == lower_char(c),
{
    if 'A' <= c && c <= 'Z' {
        let b = c as u8;
        ((b + 32) as char)
    } else {
        c
    }
}

/// `str::to_ascii_lowercase`.
pub fn lower_of(s: &[char]) -> (r: Vec<char>)
    ensures
        r@ == lower(s@),
{
    let mut r: Vec<char> = Vec::new();
    let mut i: usize = 0;
    while i < s.len()
        invariant
            i <= s.len(),
            r@ == lower(s@.take(i as int)),
        decreases s.len() - i,
    {
        r.push(lower_char_exec(s[i]));
        i += 1;
        assert(lower(s@.take(i as int)) =~= lower(s@.take((i - 1) as int)).push(lower_char(s@[i - 1])));
    }
    assert(s@.take(s.len() as int) == s@);
    r
}

// ------------------------------------------------------------------
// Splitting on a character, trimming one character, replacing one
// ------------------------------------------------------------------

/// `str::split` on the char `c`: the pieces between the separators (one
/// empty piece for empty text).
pub open spec fn split_char(s: Seq<char>, c: char) -> Seq<Seq<char>>
    decreases s.len(),
{
    if s.len() == 0 {
        seq![Seq::empty()]
    } else if s.last() == c {
        split_char(s.drop_last(), c).push(Seq::empty())
    } else {
        let r = split_char(s.drop_last(), c);
        r.update(r.len() - 1, r.last().push(s.last()))
    }
}

pub proof fn lemma_split_char_len(s: Seq<char>, c: char)
    ensures
        split_char(s, c).len() >= 1,
    decreases s.len(),
{
    if s.len() > 0 {
        lemma_split_char_len(s.drop_last(), c);
    }
}

/// The pieces of `s` between the separators `c`.
pub fn split_char_exec(s: &[char], c: char) -> (r: Vec<Vec<char>>)
    ensures
        views(r@) == split_char(s@, c),
{
    let mut r: Vec<Vec<char>> = Vec::new();
    let mut cur: Vec<char> = Vec::new();
    let mut i: usize = 0;
    assert(s@.take(0) =~= Seq::<char>::empty());
    while i < s.len()
        invariant
            i <= s.len(),
            views(r@).push(cur@) == split_char(s@.take(i as int), c),
        decreases s.len() - i,
    {
        let ghost pre = s@.take(i as int);
        proof {
            lemma_split_char_len(pre, c);
        }
        assert(s@.take(i + 1).drop_last() == pre);
        assert(s@.take(i + 1).last() == s@[i as int]);
        if s[i] == c {
            let done = cur;
            r.push(done);
            cur = Vec::new();
            assert(views(r@).push(cur@) =~= split_char(s@.take(i + 1), c));
        } else {
            let ghost before = views(r@);
            cur.push(s[i]);
            assert(views(r@).push(cur@) =~= split_char(s@.take(i + 1), c));
        }
        i += 1;
    }
    assert(s@.take(s.len() as int) == s@);
    r.push(cur);
    r
}

/// `trim_end_matches(c)` for one char.
pub open spec fn trim_end_char(s: Seq<char>, c: char) -> Seq<char>
    decreases s.len(),
{
    if s.len() > 0 && s.last() == c {
        trim_end_char(s.drop_last(), c)
    } else {
        s
    }
}

pub fn trim_end_char_exec(s: &[char], c: char) -> (r: Vec<char>)
    ensures
        r@ == trim_end_char(s@, c),
{
    let mut n: usize = s.len();
    assert(s@.take(n as int) =~= s@);
    while n > 0 && s[n - 1] == c
        invariant
            n <= s.len(),
            trim_end_char(s@, c) == trim_end_char(s@.take(n as int), c),
        decreases n,
    {
        assert(s@.take(n as int).drop_last() == s@.take(n - 1));
        n -= 1;
    }
    if n > 0 {
        assert(s@.take(n as int).last() == s@[n - 1]);
    }
    slice_of(s, 0, n)
}

/// Every `a` replaced by `b`.
pub open spec fn replace_char(s: Seq<char>, a: char, b: char) -> Seq<char> {
    s.map_values(|x: char| if x == a { b } else { x })
}

pub fn replace_char_exec(s: &[char], a: char, b: char) -> (r: Vec<char>)
    ensures
        r@ == replace_char(s@, a, b),
{
    let mut r: Vec<char> = Vec::new();
    let mut i: usize = 0;
    while i < s.len()
        invariant
            i <= s.len(),
            r@ == replace_char(s@.take(i as int), a, b),
        decreases s.len() - i,
    {
        r.push(if s[i] == a { b } else { s[i] });
        assert(r@ =~= replace_char(s@.take(i + 1), a, b));
        i += 1;
    }
    assert(s@.take(s.len() as int) == s@);
    r
}

/// A line of `lines_from(s, cur)` is no longer than `s` and `cur`
/// together, and there are at most `s.len() + 1` lines.
pub proof fn lemma_lines_from_bounds(s: Seq<char>, cur: Seq<char>)
    ensures
        lines_from(s, cur).len() <= s.len() + 1,
        forall|k: int| 0 <= k < lines_from(s, cur).len() ==> (#[trigger] lines_from(s, cur)[k]).len() <= s.len() + cur.len(),
    decreases s.len(),
{
    if s.len() > 0 {
        if s[0] == '\n' {
            lemma_lines_from_bounds(s.drop_first(), Seq::empty());
            let r = lines_from(s.drop_first(), Seq::empty());
            assert forall|k: int| 0 <= k < lines_from(s, cur).len() implies (#[trigger] lines_from(s, cur)[k]).len() <= s.len() + cur.len() by {
                if k > 0 {
                    assert(lines_from(s, cur)[k] == r[k - 1]);
                }
            }
        } else {
            lemma_lines_from_bounds(s.drop_first(), cur.push(s[0]));
        }
    }
}

/// The lines of `s`: at most `s.len() + 1` of them, none longer than `s`.
pub proof fn lemma_lines_bounds(s: Seq<char>)
    ensures
        lines(s).len() <= s.len() + 1,
        forall|k: int| 0 <= k < lines(s).len() ==> (#[trigger] lines(s)[k]).len() <= s.len(),
{
    lemma_lines_from_bounds(s, Seq::empty());
}

/// Leading whitespace comes off `a` alone before a non-whitespace char.
pub proof fn lemma_trim_start_append_char(a: Seq<char>, m: char)
    requires
        !is_ws(m),
    ensures
        trim_start(a + seq![m]) == trim_start(a) + seq![m],
    decreases a.len(),
{
    let x = a + seq![m];
    if a.len() > 0 {
        assert(x[0] == a[0]);
        if is_ws(a[0]) {
            assert(x.drop_first() == a.drop_first() + seq![m]);
            lemma_trim_start_append_char(a.drop_first(), m);
        }
    } else {
        assert(x == seq![m]);
    }
}

} // verus!

verus! {

/// A text occurs in any text that has it in the middle.
pub proof fn lemma_contains_mid(a: Seq<char>, b: Seq<char>, c: Seq<char>)
    ensures
        contains(a + b + c, b),
{
    assert((a + b + c).subrange(a.len() as int, (a.len() + b.len()) as int) =~= b);
    assert(occurs_at(a + b + c, b, a.len() as int));
}

/// What occurs in the middle part occurs in the whole.
pub proof fn lemma_contains_widen(a: Seq<char>, b: Seq<char>, c: Seq<char>, x: Seq<char>)
    requires
        contains(b, x),
    ensures
        contains(a + b + c, x),
{
    let i = choose|i: int| occurs_at(b, x, i);
    assert((a + b + c).subrange(a.len() + i, a.len() + i + x.len()) =~= b.subrange(i, i + x.len()));
    assert(occurs_at(a + b + c, x, a.len() + i));
}


/// Each line of a joined text occurs in it.
pub proof fn lemma_join_contains(ls: Seq<Seq<char>>, q: int)
    requires
        0 <= q < ls.len(),
    ensures
        contains(join_lines(ls), ls[q]),
    decreases ls.len(),
{
    let x = ls[q];
    assert(x.subrange(0, x.len() as int) =~= x);
    assert(occurs_at(x, x, 0));
    if ls.len() == 1 {
    } else if q == ls.len() - 1 {
        let pre = join_lines(ls.drop_last()) + seq!['\n'];
        lemma_contains_widen(pre, x, Seq::empty(), x);
        assert(pre + x + Seq::<char>::empty() =~= join_lines(ls));
    } else {
        lemma_join_contains(ls.drop_last(), q);
        assert(ls.drop_last()[q] == x);
        let post = seq!['\n'] + ls.last();
        lemma_contains_widen(Seq::empty(), join_lines(ls.drop_last()), post, x);
        assert(Seq::<char>::empty() + join_lines(ls.drop_last()) + post =~= join_lines(ls));
    }
}

} // verus!
