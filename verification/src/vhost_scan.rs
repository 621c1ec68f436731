//! Reading existing Nginx vhost files back into virtual hosts: the few
//! directives the scanner needs (`listen`, `server_name`, `root`,
//! `fastcgi_pass`) and the rewrite rules of the `location /` block.

use vstd::prelude::*;
use crate::text::{
    append, append_str, chars_of, contains, find_char, is_ws, lines, occurs_at, starts_with,
    string_of, trim, trim_end_char, views,
};
use crate::service::{ServiceInstance, ServiceKind};
use crate::vhost::{VhostSource, VirtualHost, strs};
use crate::num::{decimal, parse_unsigned};

verus! {

/// The scanner of Nginx vhost files.
pub struct VhostScanner;

// ======================== Text helpers ========================

/// The first position of `p` in `s` at or after `i`.
pub open spec fn find_str_from(s: Seq<char>, p: Seq<char>, i: int) -> Option<int>
    decreases s.len() + 1 - i,
{
    if i < 0 || i + p.len() > s.len() {
        None
    } else if occurs_at(s, p, i) {
        Some(i)
    } else {
        find_str_from(s, p, i + 1)
    }
}

/// `str::find` for a text pattern.
pub open spec fn find_str(s: Seq<char>, p: Seq<char>) -> Option<int> {
    find_str_from(s, p, 0)
}

pub(crate) fn find_str_exec(s: &[char], p: &[char]) -> (r: Option<usize>)
    ensures
        match r {
            Some(i) => find_str(s@, p@) == Some(i as int) && i + p.len() <= s.len(),
            None => find_str(s@, p@) is None,
        },
{
    if p.len() > s.len() {
        return None;
    }
    if p.len() == 0 {
        assert(s@.subrange(0, 0) =~= p@);
        assert(occurs_at(s@, p@, 0));
        return Some(0);
    }
    let mut i: usize = 0;
    while i <= s.len() - p.len()
        invariant
            1 <= p.len() <= s.len(),
            find_str(s@, p@) == find_str_from(s@, p@, i as int),
        decreases s.len() + 1 - i,
    {
        if crate::text::occurs_at_exec(s, p, i) {
            return Some(i);
        }
        i += 1;
    }
    None
}

/// Every occurrence of `from` (non-empty), left to right, replaced by `to`.
pub open spec fn replace_str(s: Seq<char>, from: Seq<char>, to: Seq<char>) -> Seq<char>
    decreases s.len(),
{
    if s.len() == 0 || from.len() == 0 {
        s
    } else if starts_with(s, from) {
        to + replace_str(s.skip(from.len() as int), from, to)
    } else {
        seq![s[0]] + replace_str(s.drop_first(), from, to)
    }
}

pub(crate) fn replace_str_exec(s: &[char], from: &[char], to: &[char]) -> (r: Vec<char>)
    requires
        from.len() > 0,
    ensures
        r@ == replace_str(s@, from@, to@),
{
    let mut r: Vec<char> = Vec::new();
    let mut i: usize = 0;
    assert(s@.skip(0) =~= s@);
    while i < s.len()
        invariant
            i <= s.len(),
            from.len() > 0,
            r@ + replace_str(s@.skip(i as int), from@, to@) == replace_str(s@, from@, to@),
        decreases s.len() - i,
    {
        let rest = crate::text::slice_of(s, i, s.len());
        assert(rest@ == s@.skip(i as int));
        if crate::text::starts_with_chars(&rest, from) {
            assert(s@.skip(i as int).skip(from@.len() as int) =~= s@.skip(i + from.len()));
            append(&mut r, to);
            i += from.len();
        } else {
            assert(s@.skip(i as int).drop_first() =~= s@.skip(i + 1));
            r.push(s[i]);
            i += 1;
        }
    }
    assert(s@.skip(i as int) =~= Seq::<char>::empty());
    r
}

/// The last position of `c`.
pub open spec fn rfind_char(s: Seq<char>, c: char) -> Option<int>
    decreases s.len(),
{
    if s.len() == 0 {
        None
    } else if s.last() == c {
        Some(s.len() - 1)
    } else {
        rfind_char(s.drop_last(), c)
    }
}

pub(crate) fn rfind_char_exec(s: &[char], c: char) -> (r: Option<usize>)
    ensures
        match r {
            Some(i) => rfind_char(s@, c) == Some(i as int) && i < s.len(),
            None => rfind_char(s@, c) is None,
        },
{
    let mut n: usize = s.len();
    assert(s@.take(n as int) =~= s@);
    while n > 0
        invariant
            n <= s.len(),
            rfind_char(s@, c) == rfind_char(s@.take(n as int), c),
        decreases n,
    {
        assert(s@.take(n as int).last() == s@[n - 1]);
        if s[n - 1] == c {
            return Some(n - 1);
        }
        assert(s@.take(n as int).drop_last() == s@.take(n - 1));
        n -= 1;
    }
    None
}

// ======================== The directive extractor ========================

/// The pattern text before its capture group; `None` when the pattern has
/// no `(` or no `)`.
pub open spec fn pattern_prefix(pattern: Seq<char>) -> Option<Seq<char>> {
    match (find_char(pattern, '('), find_char(pattern, ')')) {
        (Some(p), Some(_)) => Some(pattern.take(p)),
        _ => None,
    }
}

/// A pattern the extractor can take apart: when it has both brackets,
/// the first `)` comes after the first `(`.
pub open spec fn pattern_ok(pattern: Seq<char>) -> bool {
    match (find_char(pattern, '('), find_char(pattern, ')')) {
        (Some(p), Some(e)) => p < e,
        _ => true,
    }
}

/// The literal the line must contain: the prefix up to the first `\s+`,
/// with `\.` read as `.` and `\"` as `"`.
pub open spec fn literal_prefix(before: Seq<char>) -> Seq<char> {
    let first = match find_str(before, "\\s+"@) {
        Some(i) => before.take(i),
        None => before,
    };
    replace_str(replace_str(first, "\\."@, "."@), "\\\""@, "\""@)
}

/// What one trimmed line gives: `None` to read on, `Some(answer)` to
/// stop with the answer.
pub open spec fn line_answer(t: Seq<char>, pattern: Seq<char>, lit: Seq<char>) -> Option<Option<Seq<char>>> {
    if lit.len() == 0 || !contains(t, lit) {
        None
    } else if contains(pattern, "listen"@) && starts_with(t, "listen"@) {
        Some(Some(trim(trim_end_char(trim(t.skip(6)), ';'))))
    } else if contains(pattern, "server_name"@) && starts_with(t, "server_name"@) {
        Some(Some(trim(trim_end_char(trim(t.skip(11)), ';'))))
    } else if contains(pattern, "root"@) && starts_with(t, "root"@) && !contains(t, "$"@) {
        match find_char(t, '"') {
            None => Some(None),
            Some(q) => match find_char(t.skip(q + 1), '"') {
                None => Some(None),
                Some(e) => Some(Some(t.subrange(q + 1, q + 1 + e))),
            },
        }
    } else if contains(pattern, "fastcgi_pass"@) && starts_with(t, "fastcgi_pass"@) {
        match rfind_char(t, ':') {
            None => Some(None),
            Some(c) => Some(Some(trim(trim_end_char(t.skip(c + 1), ';')))),
        }
    } else {
        None
    }
}

/// The answer of the first line that gives one.
pub open spec fn first_answer(ls: Seq<Seq<char>>, pattern: Seq<char>, lit: Seq<char>) -> Option<Seq<char>>
    decreases ls.len(),
{
    if ls.len() == 0 {
        None
    } else {
        match line_answer(trim(ls[0]), pattern, lit) {
            Some(a) => a,
            None => first_answer(ls.drop_first(), pattern, lit),
        }
    }
}

/// The capture of one of the scanner's directive patterns (see
/// `line_answer`).
pub open spec fn spec_extract_regex(content: Seq<char>, pattern: Seq<char>) -> Option<Seq<char>> {
    match pattern_prefix(pattern) {
        None => None,
        Some(before) => first_answer(lines(content), pattern, literal_prefix(before)),
    }
}

fn literal_prefix_exec(before: &[char]) -> (r: Vec<char>)
    ensures
        r@ == literal_prefix(before@),
{
    proof {
        reveal_strlit("\\.");
        reveal_strlit("\\\"");
    }
    let sep = chars_of("\\s+");
    let first = match find_str_exec(before, &sep) {
        Some(i) => crate::text::slice_of(before, 0, i),
        None => crate::text::slice_of(before, 0, before.len()),
    };
    assert(first@ == match find_str(before@, "\\s+"@) {
        Some(i) => before@.take(i),
        None => before@,
    });
    let a = replace_str_exec(&first, &chars_of("\\."), &chars_of("."));
    replace_str_exec(&a, &chars_of("\\\""), &chars_of("\""))
}

fn line_answer_exec(t: &[char], pattern: &[char], lit: &[char]) -> (r: Option<Option<Vec<char>>>)
    ensures
        match r {
            None => line_answer(t@, pattern@, lit@) is None,
            Some(None) => line_answer(t@, pattern@, lit@) == Some(None::<Seq<char>>),
            Some(Some(v)) => line_answer(t@, pattern@, lit@) == Some(Some(v@)),
        },
{
    proof {
        reveal_strlit("listen");
        reveal_strlit("server_name");
    }
    if lit.len() == 0 || !crate::text::contains_chars(t, lit) {
        return None;
    }
    if crate::text::contains_str(pattern, "listen") && crate::text::starts_with_str(t, "listen") {
        let rest = crate::text::trim_of(&crate::text::slice_of(t, 6, t.len()));
        let v = crate::text::trim_of(&crate::text::trim_end_char_exec(&rest, ';'));
        return Some(Some(v));
    }
    if crate::text::contains_str(pattern, "server_name") && crate::text::starts_with_str(t, "server_name") {
        let rest = crate::text::trim_of(&crate::text::slice_of(t, 11, t.len()));
        let v = crate::text::trim_of(&crate::text::trim_end_char_exec(&rest, ';'));
        return Some(Some(v));
    }
    if crate::text::contains_str(pattern, "root") && crate::text::starts_with_str(t, "root")
        && !crate::text::contains_str(t, "$") {
        return match crate::text::find_char_exec(t, '"') {
            None => Some(None),
            Some(q) => {
                let after = crate::text::slice_of(t, q + 1, t.len());
                match crate::text::find_char_exec(&after, '"') {
                    None => Some(None),
                    Some(e) => {
                        assert(after@ == t@.skip(q + 1));
                        Some(Some(crate::text::slice_of(t, q + 1, q + 1 + e)))
                    },
                }
            },
        };
    }
    if crate::text::contains_str(pattern, "fastcgi_pass") && crate::text::starts_with_str(t, "fastcgi_pass") {
        return match rfind_char_exec(t, ':') {
            None => Some(None),
            Some(c) => {
                let rest = crate::text::slice_of(t, c + 1, t.len());
                Some(Some(crate::text::trim_of(&crate::text::trim_end_char_exec(&rest, ';'))))
            },
        };
    }
    None
}

impl VhostScanner {
    /// The capture of a directive pattern in `content` (see
    /// `spec_extract_regex`): the lines are searched, not a regular
    /// expression, for the four directives the scanner reads.
    pub fn extract_regex(content: &str, pattern: &str) -> (r: Option<String>)
        requires
            pattern_ok(pattern@),
        ensures
            crate::vhost::opt_view(r) == spec_extract_regex(content@, pattern@),
    {
        let p = chars_of(pattern);
        let open = match crate::text::find_char_exec(&p, '(') {
            Some(i) => i,
            None => {
                return None;
            },
        };
        if crate::text::find_char_exec(&p, ')').is_none() {
            return None;
        }
        let before = crate::text::slice_of(&p, 0, open);
        let lit = literal_prefix_exec(&before);
        let c = chars_of(content);
        let ls = crate::lineedit::lines_vec(&c);
        let mut i: usize = 0;
        assert(views(ls@).skip(0) =~= views(ls@));
        while i < ls.len()
            invariant
                i <= ls.len(),
                views(ls@) == lines(c@),
                c@ == content@,
                p@ == pattern@,
                pattern_prefix(pattern@) == Some(before@),
                lit@ == literal_prefix(before@),
                spec_extract_regex(content@, pattern@) == first_answer(views(ls@).skip(i as int), p@, lit@),
            decreases ls.len() - i,
        {
            assert(views(ls@).skip(i as int)[0] == ls@[i as int]@);
            assert(views(ls@).skip(i as int).drop_first() == views(ls@).skip(i + 1));
            let t = crate::text::trim_of(&ls[i]);
            match line_answer_exec(&t, &p, &lit) {
                Some(Some(v)) => {
                    return Some(string_of(&v));
                },
                Some(None) => {
                    return None;
                },
                None => {},
            }
            i += 1;
        }
        None
    }
}

// ======================== Rewrite rules of `location /` ========================

/// `{` count minus `}` count.
pub open spec fn net_braces(s: Seq<char>) -> int
    decreases s.len(),
{
    if s.len() == 0 {
        0
    } else {
        net_braces(s.drop_last()) + if s.last() == '{' {
            1int
        } else if s.last() == '}' {
            -1int
        } else {
            0int
        }
    }
}

/// A line of the `location /` block the editor writes itself.
pub open spec fn standard_line(t: Seq<char>) -> bool {
    starts_with(t, "index "@) || starts_with(t, "autoindex"@) || starts_with(t, "error_page"@) || t.len() == 0
}

/// A line that rewrites, redirects or includes rules.
pub open spec fn rewrite_line(t: Seq<char>) -> bool {
    ||| starts_with(t, "try_files"@)
    ||| starts_with(t, "rewrite"@)
    ||| starts_with(t, "if "@)
    ||| starts_with(t, "if("@)
    ||| starts_with(t, "break"@)
    ||| starts_with(t, "return "@)
    ||| (starts_with(t, "include"@) && !contains(t, "fastcgi"@))
}

/// The reader's state: inside the block, brace depth, lines kept, a
/// rewrite line seen, finished.
pub struct LocState {
    pub inside: bool,
    pub depth: int,
    pub kept: Seq<Seq<char>>,
    pub has_rewrite: bool,
    pub done: bool,
}

pub open spec fn loc_step(st: LocState, line: Seq<char>) -> LocState {
    let t = trim(line);
    if st.done {
        st
    } else if !st.inside {
        if starts_with(t, "location / {"@) {
            LocState { inside: true, depth: 1, ..st }
        } else {
            st
        }
    } else {
        let d = st.depth + net_braces(t);
        if d <= 0 {
            LocState { depth: d, done: true, ..st }
        } else if standard_line(t) {
            LocState { depth: d, ..st }
        } else {
            LocState { depth: d, kept: st.kept.push(t), has_rewrite: st.has_rewrite || rewrite_line(t), ..st }
        }
    }
}

pub open spec fn loc_state(ls: Seq<Seq<char>>) -> LocState
    decreases ls.len(),
{
    if ls.len() == 0 {
        LocState { inside: false, depth: 0, kept: Seq::empty(), has_rewrite: false, done: false }
    } else {
        loc_step(loc_state(ls.drop_last()), ls.last())
    }
}

/// Each line indented by four spaces.
pub open spec fn indent4(ls: Seq<Seq<char>>) -> Seq<Seq<char>> {
    ls.map_values(|l: Seq<char>| "    "@ + l)
}

/// The rewrite rules of the first `location /` block: its lines other
/// than the standard ones, as a block `location / { ... }` indented by
/// four spaces, or nothing when none of them rewrites.
pub open spec fn spec_location_rewrite(content: Seq<char>) -> Seq<char> {
    let st = loc_state(lines(content));
    if !st.has_rewrite || st.kept.len() == 0 {
        Seq::empty()
    } else {
        "location / {\n"@ + crate::text::join_lines(indent4(st.kept)) + "\n}"@
    }
}

proof fn lemma_net_braces_bound(s: Seq<char>)
    ensures
        -s.len() <= net_braces(s) <= s.len(),
    decreases s.len(),
{
    if s.len() > 0 {
        lemma_net_braces_bound(s.drop_last());
    }
}

fn net_braces_exec(t: &[char], start: i64) -> (r: i64)
    requires
        t.len() < 0x8000_0000,
        -0x4000_0000_0000_0000 <= start <= 0x4000_0000_0000_0000,
    ensures
        r == start + net_braces(t@),
{
    let mut d: i64 = start;
    let mut j: usize = 0;
    while j < t.len()
        invariant
            j <= t.len(),
            t.len() < 0x8000_0000,
            -0x4000_0000_0000_0000 <= start <= 0x4000_0000_0000_0000,
            d == start + net_braces(t@.take(j as int)),
        decreases t.len() - j,
    {
        proof {
            lemma_net_braces_bound(t@.take(j as int));
        }
        assert(t@.take(j + 1).drop_last() == t@.take(j as int));
        assert(t@.take(j + 1).last() == t@[j as int]);
        if t[j] == '{' {
            d = d + 1;
        } else if t[j] == '}' {
            d = d - 1;
        }
        j += 1;
    }
    assert(t@.take(t.len() as int) == t@);
    d
}

fn standard_exec(t: &[char]) -> (r: bool)
    ensures
        r == standard_line(t@),
{
    crate::text::starts_with_str(t, "index ") || crate::text::starts_with_str(t, "autoindex")
        || crate::text::starts_with_str(t, "error_page") || t.len() == 0
}

fn rewrite_exec(t: &[char]) -> (r: bool)
    ensures
        r == rewrite_line(t@),
{
    crate::text::starts_with_str(t, "try_files") || crate::text::starts_with_str(t, "rewrite")
        || crate::text::starts_with_str(t, "if ") || crate::text::starts_with_str(t, "if(")
        || crate::text::starts_with_str(t, "break") || crate::text::starts_with_str(t, "return ")
        || (crate::text::starts_with_str(t, "include") && !crate::text::contains_str(t, "fastcgi"))
}

impl VhostScanner {
    /// The rewrite rules of the `location /` block of `content` (see
    /// `spec_location_rewrite`).
    pub fn extract_location_rewrite(content: &str) -> (r: String)
        requires
            content@.len() < 0x8000_0000,
        ensures
            r@ == spec_location_rewrite(content@),
    {
        let c = chars_of(content);
        let ls = crate::lineedit::lines_vec(&c);
        proof {
            crate::text::lemma_lines_bounds(c@);
        }
        let ghost lv = views(ls@);
        let mut inside = false;
        let mut depth: i64 = 0;
        let mut kept: Vec<Vec<char>> = Vec::new();
        let mut has_rewrite = false;
        let mut done = false;
        let ghost mut bound: int = 0;
        let mut i: usize = 0;
        while i < ls.len()
            invariant
                i <= ls.len(),
                lv == views(ls@),
                lv == lines(c@),
                c@.len() < 0x8000_0000,
                ls.len() <= c@.len() + 1,
                forall|k: int| 0 <= k < lv.len() ==> (#[trigger] lv[k]).len() <= c@.len(),
                0 <= bound <= (i as int) * 0x8000_0000,
                -bound <= depth <= 1 + bound,
                ({
                    let st = loc_state(lv.take(i as int));
                    &&& st.inside == inside
                    &&& st.depth == depth
                    &&& st.kept == views(kept@)
                    &&& st.has_rewrite == has_rewrite
                    &&& st.done == done
                }),
            decreases ls.len() - i,
        {
            assert(lv.take(i + 1).drop_last() == lv.take(i as int));
            assert(lv.take(i + 1).last() == ls@[i as int]@);
            let t = crate::text::trim_of(&ls[i]);
            proof {
                crate::text::lemma_trim_start_props(crate::text::trim_end(ls@[i as int]@));
                crate::text::lemma_trim_end_props(ls@[i as int]@);
                assert(lv[i as int] == ls@[i as int]@);
                assert(t@.len() <= c@.len());
            }
            if done {
            } else if !inside {
                if crate::text::starts_with_str(&t, "location / {") {
                    inside = true;
                    depth = 1;
                }
            } else {
                proof {
                    lemma_net_braces_bound(t@);
                }
                let d = net_braces_exec(&t, depth);
                depth = d;
                proof {
                    bound = bound + c@.len();
                }
                if d <= 0 {
                    done = true;
                } else if !standard_exec(&t) {
                    let ghost before = views(kept@);
                    let r = rewrite_exec(&t);
                    kept.push(t);
                    assert(views(kept@) =~= before.push(t@));
                    has_rewrite = has_rewrite || r;
                }
            }
            i += 1;
        }
        assert(lv.take(ls.len() as int) == lv);
        if !has_rewrite || kept.len() == 0 {
            return String::new();
        }
        let mut out: Vec<Vec<char>> = Vec::new();
        let mut k: usize = 0;
        while k < kept.len()
            invariant
                k <= kept.len(),
                out@.len() == k,
                forall|j: int| 0 <= j < k ==> (#[trigger] out@[j])@ == "    "@ + kept@[j]@,
            decreases kept.len() - k,
        {
            let mut l = chars_of("    ");
            append(&mut l, &kept[k]);
            out.push(l);
            k += 1;
        }
        assert(views(out@) =~= indent4(views(kept@)));
        let mut r = chars_of("location / {\n");
        append(&mut r, &crate::text::join_lines_of(&out));
        append_str(&mut r, "\n}");
        string_of(&r)
    }
}

/// The brace depth inside the block opened at line `a`, after line `m`:
/// one for the opening line, then each later line's `{` count minus its
/// `}` count.
pub open spec fn block_depth(ls: Seq<Seq<char>>, a: int, m: int) -> int
    decreases m - a,
{
    if m <= a {
        1
    } else {
        block_depth(ls, a, m - 1) + net_braces(trim(ls[m]))
    }
}

spec fn loc_start() -> LocState {
    LocState { inside: false, depth: 0, kept: Seq::empty(), has_rewrite: false, done: false }
}

proof fn lemma_loc_before(ls: Seq<Seq<char>>, k: int)
    requires
        0 <= k <= ls.len(),
        forall|q: int| 0 <= q < k ==> !starts_with(trim(#[trigger] ls[q]), "location / {"@),
    ensures
        loc_state(ls.take(k)) == loc_start(),
    decreases k,
{
    if k > 0 {
        lemma_loc_before(ls, k - 1);
        assert(ls.take(k).drop_last() =~= ls.take(k - 1));
        assert(ls.take(k).last() == ls[k - 1]);
    }
}

proof fn lemma_loc_inside(ls: Seq<Seq<char>>, a: int, m: int)
    requires
        0 <= a <= m < ls.len(),
        loc_state(ls.take(a)) == loc_start(),
        starts_with(trim(ls[a]), "location / {"@),
        forall|q: int| a < q <= m ==> #[trigger] block_depth(ls, a, q) > 0,
    ensures
        loc_state(ls.take(m + 1)).inside,
        !loc_state(ls.take(m + 1)).done,
        loc_state(ls.take(m + 1)).depth == block_depth(ls, a, m),
    decreases m - a,
{
    assert(ls.take(m + 1).drop_last() =~= ls.take(m));
    assert(ls.take(m + 1).last() == ls[m]);
    if m > a {
        lemma_loc_inside(ls, a, m - 1);
        assert(block_depth(ls, a, m) > 0);
    }
}

proof fn lemma_loc_keeps(ls: Seq<Seq<char>>, j: int, m: int, x: Seq<char>)
    requires
        0 <= j <= m <= ls.len(),
        loc_state(ls.take(j)).has_rewrite,
        loc_state(ls.take(j)).kept.contains(x),
    ensures
        loc_state(ls.take(m)).has_rewrite,
        loc_state(ls.take(m)).kept.contains(x),
    decreases m - j,
{
    if m > j {
        lemma_loc_keeps(ls, j, m - 1, x);
        assert(ls.take(m).drop_last() =~= ls.take(m - 1));
        let prev = loc_state(ls.take(m - 1));
        let i = choose|i: int| 0 <= i < prev.kept.len() && prev.kept[i] == x;
        let t = trim(ls.take(m).last());
        assert(prev.kept.push(t)[i] == x);
    }
}

/// Scanning keeps the rewrite rules of a `location / {` block: when a line
/// starting with `rewrite` follows the first such line while the block is
/// still open, the extracted rules are not empty and hold that line,
/// trimmed and indented by four spaces.
pub proof fn law_location_rewrite_kept(content: Seq<char>, a: int, j: int)
    requires
        0 <= a < j < lines(content).len(),
        starts_with(trim(lines(content)[a]), "location / {"@),
        forall|k: int| 0 <= k < a ==> !starts_with(trim(#[trigger] lines(content)[k]), "location / {"@),
        forall|m: int| a < m <= j ==> #[trigger] block_depth(lines(content), a, m) > 0,
        starts_with(trim(lines(content)[j]), "rewrite"@),
    ensures
        spec_location_rewrite(content).len() > 0,
        contains(spec_location_rewrite(content), "    "@ + trim(lines(content)[j])),
{
    let ls = lines(content);
    let t = trim(ls[j]);
    lemma_loc_before(ls, a);
    lemma_loc_inside(ls, a, j - 1);
    assert(ls.take(j + 1).drop_last() =~= ls.take(j));
    assert(ls.take(j + 1).last() == ls[j]);
    assert(block_depth(ls, a, j) > 0);
    reveal_strlit("rewrite");
    reveal_strlit("index ");
    reveal_strlit("autoindex");
    reveal_strlit("error_page");
    assert(t.take(7)[0] == t[0]);
    if starts_with(t, "index "@) {
        assert(t.take(6)[0] == t[0]);
    }
    if starts_with(t, "autoindex"@) {
        assert(t.take(9)[0] == t[0]);
    }
    if starts_with(t, "error_page"@) {
        assert(t.take(10)[0] == t[0]);
    }
    assert(!standard_line(t));
    let st_j = loc_state(ls.take(j + 1));
    assert(st_j.kept.last() == t);
    assert(st_j.kept.contains(t));
    lemma_loc_keeps(ls, j + 1, ls.len() as int, t);
    assert(ls.take(ls.len() as int) =~= ls);
    let st = loc_state(ls);
    let i = choose|i: int| 0 <= i < st.kept.len() && st.kept[i] == t;
    assert(indent4(st.kept)[i] == "    "@ + t);
    crate::text::lemma_join_contains(indent4(st.kept), i);
    let body = crate::text::join_lines(indent4(st.kept));
    crate::text::lemma_contains_widen("location / {\n"@, body, "\n}"@, "    "@ + t);
    reveal_strlit("location / {\n");
}

// ======================== Reading a vhost file ========================

/// The words of `s` and the word being read.
pub open spec fn words_state(s: Seq<char>) -> (Seq<Seq<char>>, Seq<char>)
    decreases s.len(),
{
    if s.len() == 0 {
        (Seq::empty(), Seq::empty())
    } else {
        let (ws, cur) = words_state(s.drop_last());
        if is_ws(s.last()) {
            if cur.len() > 0 {
                (ws.push(cur), Seq::empty())
            } else {
                (ws, cur)
            }
        } else {
            (ws, cur.push(s.last()))
        }
    }
}

/// `split_whitespace`.
pub open spec fn words(s: Seq<char>) -> Seq<Seq<char>> {
    let (ws, cur) = words_state(s);
    if cur.len() > 0 {
        ws.push(cur)
    } else {
        ws
    }
}

pub(crate) fn words_exec(s: &[char]) -> (r: Vec<Vec<char>>)
    ensures
        views(r@) == words(s@),
{
    let mut ws: Vec<Vec<char>> = Vec::new();
    let mut cur: Vec<char> = Vec::new();
    let mut i: usize = 0;
    while i < s.len()
        invariant
            i <= s.len(),
            (views(ws@), cur@) == words_state(s@.take(i as int)),
        decreases s.len() - i,
    {
        assert(s@.take(i + 1).drop_last() == s@.take(i as int));
        assert(s@.take(i + 1).last() == s@[i as int]);
        if crate::text::is_ws_char(s[i]) {
            if cur.len() > 0 {
                let ghost before = views(ws@);
                let w = cur;
                ws.push(w);
                assert(views(ws@) =~= before.push(w@));
                cur = Vec::new();
            }
        } else {
            cur.push(s[i]);
        }
        i += 1;
    }
    assert(s@.take(s.len() as int) == s@);
    if cur.len() > 0 {
        let ghost before = views(ws@);
        let w = cur;
        ws.push(w);
        assert(views(ws@) =~= before.push(w@));
    }
    ws
}

/// The first PHP instance on the port.
pub open spec fn php_on_port(s: Seq<ServiceInstance>, port: u16) -> Option<int>
    decreases s.len(),
{
    if s.len() == 0 {
        None
    } else if s[0].kind == ServiceKind::Php && s[0].port == port {
        Some(0)
    } else {
        match php_on_port(s.drop_first(), port) {
            Some(i) => Some(i + 1),
            None => None,
        }
    }
}

/// The PHPStudy name of a PHP instance: `php` + version without dots +
/// variant.
pub open spec fn php_dir_label(s: ServiceInstance) -> Seq<char> {
    "php"@ + crate::paths::drop_dots(s.version@) + match s.variant {
        Some(v) => v@,
        None => Seq::empty(),
    }
}

pub open spec fn listen_pat() -> Seq<char> {
    "listen\\s+(\\d+)"@
}

pub open spec fn server_name_pat() -> Seq<char> {
    "server_name\\s+(.+);"@
}

pub open spec fn root_pat() -> Seq<char> {
    "root\\s+\"([^\"]+)\""@
}

pub open spec fn fastcgi_pat() -> Seq<char> {
    "fastcgi_pass\\s+127\\.0\\.0\\.1:(\\d+)"@
}

/// The document root a vhost file names, if it names one.
pub open spec fn conf_root(content: Seq<char>) -> Option<Seq<char>> {
    spec_extract_regex(content, root_pat())
}

/// The vhost a file describes: its port, names and document root must
/// all be found, the port must be a `u16`, and there must be a name. The
/// PHP version and path come from the PHP instance on the FastCGI port;
/// the rewrite rules from `nginx.htaccess` when it exists (trimmed),
/// else from the `location /` block.
pub open spec fn parse_ok(content: Seq<char>) -> bool {
    &&& spec_extract_regex(content, listen_pat()) matches Some(p) && parse_unsigned(p, 65535) is Some
    &&& spec_extract_regex(content, server_name_pat()) matches Some(n) && words(n).len() > 0
    &&& conf_root(content) is Some
}

pub open spec fn conf_port(content: Seq<char>) -> nat {
    parse_unsigned(spec_extract_regex(content, listen_pat())->0, 65535)->0
}

pub open spec fn conf_names(content: Seq<char>) -> Seq<Seq<char>> {
    words(spec_extract_regex(content, server_name_pat())->0)
}

pub open spec fn conf_fastcgi(content: Seq<char>) -> Option<nat> {
    match spec_extract_regex(content, fastcgi_pat()) {
        Some(p) => parse_unsigned(p, 65535),
        None => None,
    }
}

fn pattern_facts()
    ensures
        pattern_ok(listen_pat()),
        pattern_ok(server_name_pat()),
        pattern_ok(root_pat()),
        pattern_ok(fastcgi_pat()),
{
    proof {
        listen_pattern_ok();
        server_name_pattern_ok();
        root_pattern_ok();
        fastcgi_pattern_ok();
    }
}

#[verifier::spinoff_prover]
proof fn listen_pattern_ok()
    ensures
        pattern_ok(listen_pat()),
{
    reveal_strlit("listen\\s+(\\d+)");
    reveal_with_fuel(find_char, 20);
}

#[verifier::spinoff_prover]
proof fn server_name_pattern_ok()
    ensures
        pattern_ok(server_name_pat()),
{
    reveal_strlit("server_name\\s+(.+);");
    reveal_with_fuel(find_char, 25);
}

#[verifier::spinoff_prover]
proof fn root_pattern_ok()
    ensures
        pattern_ok(root_pat()),
{
    reveal_strlit("root\\s+\"([^\"]+)\"");
    reveal_with_fuel(find_char, 25);
}

#[verifier::spinoff_prover]
proof fn fastcgi_pattern_ok()
    ensures
        pattern_ok(fastcgi_pat()),
{
    reveal_strlit("fastcgi_pass\\s+127\\.0\\.0\\.1:(\\d+)");
    reveal_with_fuel(find_char, 40);
}

fn php_on_port_exec(s: &[ServiceInstance], port: u16) -> (r: Option<usize>)
    ensures
        match r {
            Some(i) => php_on_port(s@, port) == Some(i as int) && i < s.len(),
            None => php_on_port(s@, port) is None,
        },
{
    let mut i: usize = 0;
    assert(s@.skip(0) =~= s@);
    while i < s.len()
        invariant
            i <= s.len(),
            php_on_port(s@, port) == match php_on_port(s@.skip(i as int), port) {
                Some(k) => Some(k + i),
                None => None,
            },
        decreases s.len() - i,
    {
        assert(s@.skip(i as int)[0] == s@[i as int]);
        assert(s@.skip(i as int).drop_first() == s@.skip(i + 1));
        if s[i].kind == ServiceKind::Php && s[i].port == port {
            return Some(i);
        }
        i += 1;
    }
    None
}

pub(crate) fn php_label_exec(s: &ServiceInstance) -> (r: Vec<char>)
    ensures
        r@ == php_dir_label(*s),
{
    let mut r = chars_of("php");
    let v = chars_of(s.version.as_str());
    let mut i: usize = 0;
    let mut nd: Vec<char> = Vec::new();
    while i < v.len()
        invariant
            i <= v.len(),
            nd@ == crate::paths::drop_dots(v@.take(i as int)),
        decreases v.len() - i,
    {
        assert(v@.take(i + 1).drop_last() == v@.take(i as int));
        assert(v@.take(i + 1).last() == v@[i as int]);
        if v[i] != '.' {
            nd.push(v[i]);
        }
        i += 1;
    }
    assert(v@.take(v.len() as int) == v@);
    append(&mut r, &nd);
    match &s.variant {
        Some(w) => append_str(&mut r, w.as_str()),
        None => {},
    }
    r
}

/// `v` is the vhost the file `content` describes (see `parse_ok`), with
/// the given `nginx.htaccess` text; all but the enabled flag.
pub open spec fn parsed_as(
    v: VirtualHost,
    content: Seq<char>,
    php_instances: Seq<ServiceInstance>,
    htaccess: Option<Seq<char>>,
) -> bool {
    &&& v.listen_port as nat == conf_port(content)
    &&& v.server_name@ == conf_names(content)[0]
    &&& strs(v.aliases@) == conf_names(content).skip(1)
    &&& v.id@ == conf_names(content)[0] + seq!['_'] + decimal(conf_port(content))
    &&& v.document_root@ == conf_root(content)->0
    &&& match conf_fastcgi(content) {
        Some(p) => v.php_fastcgi_port == Some(p as u16),
        None => v.php_fastcgi_port is None,
    }
    &&& match conf_fastcgi(content) {
        Some(p) => match php_on_port(php_instances, p as u16) {
            Some(i) => (v.php_version matches Some(pv) && pv@ == php_dir_label(php_instances[i]))
                && (v.php_install_path matches Some(pp) && pp@ == php_instances[i].install_path@),
            None => v.php_version is None && v.php_install_path is None,
        },
        None => v.php_version is None && v.php_install_path is None,
    }
    &&& v.rewrite_rule@ == match htaccess {
        Some(h) => trim(h),
        None => spec_location_rewrite(content),
    }
    &&& v.index_files@ == "index.php index.html"@
    &&& !v.autoindex && v.ssl is None && v.custom_directives is None && v.access_log is None
    &&& v.sync_hosts && v.source is PhpStudy
    &&& v.created_at@.len() == 0 && v.expires_at@.len() == 0
}

impl VhostScanner {
    /// The document root of a vhost file, where the caller looks for its
    /// `nginx.htaccess`.
    pub fn conf_document_root(content: &str) -> (r: Option<String>)
        ensures
            crate::vhost::opt_view(r) == conf_root(content@),
    {
        pattern_facts();
        VhostScanner::extract_regex(content, "root\\s+\"([^\"]+)\"")
    }

    /// The virtual host a vhost file describes, or `None` when its
    /// `listen`, `server_name` or `root` is missing (see `parse_ok`).
    /// `htaccess` is the text of `nginx.htaccess` in the document root
    /// when that file exists.
    pub fn parse_nginx_conf(content: &str, php_instances: &[ServiceInstance], htaccess: Option<&str>) -> (r: Option<VirtualHost>)
        requires
            content@.len() < 0x8000_0000,
        ensures
            r is Some <==> parse_ok(content@),
            r matches Some(v) ==> parsed_as(
                v,
                content@,
                php_instances@,
                match htaccess {
                    Some(h) => Some(h@),
                    None => None,
                },
            ) && v.enabled,
    {
        pattern_facts();
        let port_s = match VhostScanner::extract_regex(content, "listen\\s+(\\d+)") {
            Some(p) => p,
            None => {
                return None;
            },
        };
        let port = match crate::num::parse_unsigned_exec(&chars_of(port_s.as_str()), 65535) {
            Some(p) => p as u16,
            None => {
                return None;
            },
        };
        let sn = match VhostScanner::extract_regex(content, "server_name\\s+(.+);") {
            Some(s) => s,
            None => {
                return None;
            },
        };
        let names = words_exec(&chars_of(sn.as_str()));
        if names.len() == 0 {
            return None;
        }
        let root = match VhostScanner::extract_regex(content, "root\\s+\"([^\"]+)\"") {
            Some(r) => r,
            None => {
                return None;
            },
        };
        let fcgi: Option<u16> = match VhostScanner::extract_regex(content, "fastcgi_pass\\s+127\\.0\\.0\\.1:(\\d+)") {
            Some(p) => match crate::num::parse_unsigned_exec(&chars_of(p.as_str()), 65535) {
                Some(n) => Some(n as u16),
                None => None,
            },
            None => None,
        };
        let (php_version, php_install_path) = match fcgi {
            Some(pp) => match php_on_port_exec(php_instances, pp) {
                Some(i) => (Some(string_of(&php_label_exec(&php_instances[i]))), Some(php_instances[i].install_path.clone())),
                None => (None, None),
            },
            None => (None, None),
        };
        let rewrite_rule = match htaccess {
            Some(h) => string_of(&crate::text::trim_of(&chars_of(h))),
            None => VhostScanner::extract_location_rewrite(content),
        };
        let mut id = crate::text::slice_of(&names[0], 0, names[0].len());
        id.push('_');
        append(&mut id, &crate::num::decimal_chars(port as u64));
        assert(id@ =~= names@[0]@ + seq!['_'] + decimal(port as nat));
        let mut aliases: Vec<String> = Vec::new();
        let mut k: usize = 1;
        while k < names.len()
            invariant
                1 <= k <= names.len(),
                aliases@.len() == k - 1,
                forall|j: int| 0 <= j < k - 1 ==> (#[trigger] aliases@[j])@ == names@[j + 1]@,
            decreases names.len() - k,
        {
            aliases.push(string_of(&names[k]));
            k += 1;
        }
        assert(strs(aliases@) =~= views(names@).skip(1));
        Some(VirtualHost {
            id: string_of(&id),
            server_name: string_of(&names[0]),
            aliases,
            listen_port: port,
            document_root: root,
            php_version,
            php_fastcgi_port: fcgi,
            php_install_path,
            index_files: "index.php index.html".to_owned(),
            rewrite_rule,
            autoindex: false,
            ssl: None,
            custom_directives: None,
            access_log: None,
            enabled: true,
            created_at: String::new(),
            expires_at: String::new(),
            sync_hosts: true,
            source: VhostSource::PhpStudy,
        })
    }
}

/// A vhost file as the caller read it: its name, its text (`None` when it
/// could not be read), and the text of `nginx.htaccess` in the document
/// root the file names, when that file exists.
pub struct ConfFile {
    pub name: String,
    pub content: Option<String>,
    pub htaccess: Option<String>,
}

/// The file yields a vhost: not a `default-` file, readable, not blank,
/// and parseable.
pub open spec fn conf_accepted(f: ConfFile) -> bool {
    &&& !starts_with(f.name@, "default-"@)
    &&& f.content matches Some(c) && trim(c@).len() > 0 && parse_ok(c@)
}

/// The indices of the accepted files, in order.
pub open spec fn accepted(files: Seq<ConfFile>) -> Seq<int>
    decreases files.len(),
{
    if files.len() == 0 {
        Seq::empty()
    } else if conf_accepted(files.last()) {
        accepted(files.drop_last()).push(files.len() - 1)
    } else {
        accepted(files.drop_last())
    }
}

proof fn lemma_accepted_range(files: Seq<ConfFile>)
    ensures
        forall|k: int| 0 <= k < accepted(files).len() ==> 0 <= #[trigger] accepted(files)[k] < files.len(),
    decreases files.len(),
{
    if files.len() > 0 {
        lemma_accepted_range(files.drop_last());
        let r = accepted(files.drop_last());
        assert forall|k: int| 0 <= k < accepted(files).len() implies 0 <= #[trigger] accepted(files)[k] < files.len() by {
            if k < r.len() {
                assert(accepted(files)[k] == r[k]);
            }
        }
    }
}

impl VhostScanner {
    /// The vhosts of the `.conf` and `.conf.disabled` files of the Nginx
    /// vhosts directory, in the order given: one per accepted file (see
    /// `conf_accepted`), disabled when its name ends in `.disabled`.
    pub fn scan(files: &Vec<ConfFile>, php_instances: &[ServiceInstance]) -> (r: Vec<VirtualHost>)
        requires
            forall|i: int| 0 <= i < files@.len() ==> ((#[trigger] files@[i]).content matches Some(c) ==> c@.len() < 0x8000_0000),
        ensures
            r@.len() == accepted(files@).len(),
            forall|k: int| 0 <= k < r@.len() ==> {
                let f = files@[accepted(files@)[k]];
                &&& parsed_as(
                    #[trigger] r@[k],
                    f.content->0@,
                    php_instances@,
                    match f.htaccess {
                        Some(h) => Some(h@),
                        None => None,
                    },
                )
                &&& r@[k].enabled == !crate::text::ends_with(f.name@, ".disabled"@)
            },
    {
        let mut out: Vec<VirtualHost> = Vec::new();
        let mut i: usize = 0;
        while i < files.len()
            invariant
                i <= files.len(),
                forall|j: int| 0 <= j < files@.len() ==> ((#[trigger] files@[j]).content matches Some(c) ==> c@.len() < 0x8000_0000),
                out@.len() == accepted(files@.take(i as int)).len(),
                forall|k: int| 0 <= k < out@.len() ==> {
                    let f = files@[accepted(files@.take(i as int))[k]];
                    &&& parsed_as(
                        #[trigger] out@[k],
                        f.content->0@,
                        php_instances@,
                        match f.htaccess {
                            Some(h) => Some(h@),
                            None => None,
                        },
                    )
                    &&& out@[k].enabled == !crate::text::ends_with(f.name@, ".disabled"@)
                },
            decreases files.len() - i,
        {
            let ghost pre = files@.take(i as int);
            assert(files@.take(i + 1).drop_last() == pre);
            assert(files@.take(i + 1).last() == files@[i as int]);
            proof {
                lemma_accepted_range(pre);
            }
            assert forall|k: int| 0 <= k < accepted(pre).len() implies files@[accepted(pre)[k]] == pre[accepted(pre)[k]] by {}
            let f = &files[i];
            let name = chars_of(f.name.as_str());
            let ghost before = out@;
            if !crate::text::starts_with_str(&name, "default-") {
                match &f.content {
                    Some(c) => {
                        if crate::text::trim_of(&chars_of(c.as_str())).len() > 0 {
                            let h = match &f.htaccess {
                                Some(h) => Some(h.as_str()),
                                None => None,
                            };
                            match VhostScanner::parse_nginx_conf(c.as_str(), php_instances, h) {
                                Some(mut v) => {
                                    if crate::text::ends_with_chars(&name, &chars_of(".disabled")) {
                                        v.enabled = false;
                                    }
                                    out.push(v);
                                },
                                None => {},
                            }
                        }
                    },
                    None => {},
                }
            }
            assert(forall|k: int| 0 <= k < before.len() ==> out@[k] == before[k]);
            i += 1;
        }
        assert(files@.take(files.len() as int) == files@);
        out
    }
}

} // verus!
