//! Dotted version numbers: which of two releases is newer, the orders in
//! which version lists are shown, and the update check's verdict.

use vstd::prelude::*;
use std::cmp::Ordering;
use crate::text::{append_str, chars_of, split_char, string_of, trim, views};
use crate::num::parse_unsigned;
use crate::php::lex_le;

verus! {

// ======================== Newer or not ========================

/// A segment's number; a segment that is not a `u32` counts as 0.
pub open spec fn seg_num(seg: Seq<char>) -> nat {
    match parse_unsigned(seg, 4294967295) {
        Some(n) => n,
        None => 0,
    }
}

/// The numbers of the dot-separated segments.
pub open spec fn seg_nums(s: Seq<char>) -> Seq<nat> {
    split_char(s, '.').map_values(|p: Seq<char>| seg_num(p))
}

/// The number at `i`, 0 past the end.
pub open spec fn num_at(v: Seq<nat>, i: int) -> nat {
    if 0 <= i < v.len() {
        v[i]
    } else {
        0
    }
}

/// `l` is greater than `c` from segment `i` on, missing segments being 0.
pub open spec fn newer_from(l: Seq<nat>, c: Seq<nat>, i: int) -> bool
    decreases l.len() + c.len() - i,
{
    if i < 0 || (i >= l.len() && i >= c.len()) {
        false
    } else if num_at(l, i) > num_at(c, i) {
        true
    } else if num_at(l, i) < num_at(c, i) {
        false
    } else {
        newer_from(l, c, i + 1)
    }
}

pub open spec fn spec_is_newer(latest: Seq<char>, current: Seq<char>) -> bool {
    newer_from(seg_nums(latest), seg_nums(current), 0)
}

fn seg_nums_exec(s: &[char]) -> (r: Vec<u64>)
    ensures
        r@.len() == seg_nums(s@).len(),
        forall|i: int| 0 <= i < r@.len() ==> r@[i] as nat == #[trigger] seg_nums(s@)[i],
{
    let parts = crate::text::split_char_exec(s, '.');
    let mut r: Vec<u64> = Vec::new();
    let mut i: usize = 0;
    while i < parts.len()
        invariant
            i <= parts.len(),
            views(parts@) == split_char(s@, '.'),
            r@.len() == i,
            forall|k: int| 0 <= k < i ==> r@[k] as nat == seg_num(#[trigger] views(parts@)[k]),
        decreases parts.len() - i,
    {
        assert(views(parts@)[i as int] == parts@[i as int]@);
        let n = match crate::num::parse_unsigned_exec(&parts[i], 0xffff_ffff) {
            Some(n) => n,
            None => 0,
        };
        r.push(n);
        i += 1;
    }
    r
}

/// Whether `latest` is a later version than `current`, segment by
/// segment as numbers (`1.0.0` beats `0.99.99`); equal versions are not
/// newer.
pub fn is_newer(latest: &str, current: &str) -> (r: bool)
    ensures
        r == spec_is_newer(latest@, current@),
{
    let l = seg_nums_exec(&chars_of(latest));
    let c = seg_nums_exec(&chars_of(current));
    let ghost ls = seg_nums(latest@);
    let ghost cs = seg_nums(current@);
    let n = if l.len() > c.len() {
        l.len()
    } else {
        c.len()
    };
    let mut i: usize = 0;
    while i < n
        invariant
            i <= n,
            n == if l@.len() > c@.len() { l@.len() } else { c@.len() },
            l@.len() == ls.len(),
            c@.len() == cs.len(),
            forall|k: int| 0 <= k < l@.len() ==> l@[k] as nat == #[trigger] ls[k],
            forall|k: int| 0 <= k < c@.len() ==> c@[k] as nat == #[trigger] cs[k],
            spec_is_newer(latest@, current@) == newer_from(ls, cs, i as int),
        decreases n - i,
    {
        let lv: u64 = if i < l.len() {
            l[i]
        } else {
            0
        };
        let cv: u64 = if i < c.len() {
            c[i]
        } else {
            0
        };
        assert(lv as nat == num_at(ls, i as int));
        assert(cv as nat == num_at(cs, i as int));
        if lv > cv {
            return true;
        }
        if lv < cv {
            return false;
        }
        i += 1;
    }
    false
}

/// `l` beats `c` at segment `k`: equal before it, larger at it.
pub open spec fn beats_at(l: Seq<nat>, c: Seq<nat>, i: int, k: int) -> bool {
    &&& i <= k
    &&& forall|q: int| i <= q < k ==> num_at(l, q) == num_at(c, q)
    &&& num_at(l, k) > num_at(c, k)
}

proof fn lemma_newer_from_beats(l: Seq<nat>, c: Seq<nat>, i: int)
    requires
        0 <= i,
    ensures
        newer_from(l, c, i) <==> exists|k: int| #[trigger] beats_at(l, c, i, k),
    decreases l.len() + c.len() - i,
{
    if i >= l.len() && i >= c.len() {
        assert forall|k: int| !#[trigger] beats_at(l, c, i, k) by {
            if i <= k {
                assert(num_at(l, k) == 0 && num_at(c, k) == 0);
            }
        }
    } else if num_at(l, i) > num_at(c, i) {
        assert(beats_at(l, c, i, i));
    } else if num_at(l, i) < num_at(c, i) {
        assert forall|k: int| !#[trigger] beats_at(l, c, i, k) by {
            if beats_at(l, c, i, k) && k > i {
                assert(num_at(l, i) == num_at(c, i));
            }
        }
    } else {
        lemma_newer_from_beats(l, c, i + 1);
        if newer_from(l, c, i + 1) {
            let k = choose|k: int| #[trigger] beats_at(l, c, i + 1, k);
            assert(beats_at(l, c, i, k));
        }
        assert forall|k: int| #[trigger] beats_at(l, c, i, k) implies beats_at(l, c, i + 1, k) by {
            if k == i {
                assert(num_at(l, i) == num_at(c, i));
            }
        }
    }
}

/// Update detection compares dot segments as numbers, a missing segment
/// counting as 0: the latest release is newer exactly when, at the first
/// segment where the two differ, its number is the larger one (so `0.10.0`
/// is newer than `0.9.5`).
pub proof fn law_is_newer_first_difference(latest: Seq<char>, current: Seq<char>)
    ensures
        spec_is_newer(latest, current) <==> exists|k: int|
            0 <= k && (forall|q: int| 0 <= q < k ==> num_at(seg_nums(latest), q) == num_at(seg_nums(current), q))
                && #[trigger] num_at(seg_nums(latest), k) > num_at(seg_nums(current), k),
{
    let l = seg_nums(latest);
    let c = seg_nums(current);
    lemma_newer_from_beats(l, c, 0);
    if spec_is_newer(latest, current) {
        let k = choose|k: int| #[trigger] beats_at(l, c, 0, k);
        assert(num_at(l, k) > num_at(c, k));
    }
    if exists|k: int|
        0 <= k && (forall|q: int| 0 <= q < k ==> num_at(l, q) == num_at(c, q))
            && #[trigger] num_at(l, k) > num_at(c, k) {
        let k = choose|k: int|
            0 <= k && (forall|q: int| 0 <= q < k ==> num_at(l, q) == num_at(c, q))
                && #[trigger] num_at(l, k) > num_at(c, k);
        assert(beats_at(l, c, 0, k));
    }
}

/// A segment written as a decimal number up to `u32::MAX` counts as that
/// number, so segments are compared by value, not as text.
pub proof fn law_segment_value(n: nat)
    requires
        n <= 4294967295,
    ensures
        seg_num(crate::num::decimal(n)) == n,
{
    crate::num::lemma_parse_decimal(n, 4294967295);
}

// ======================== The update check ========================

/// What the update check tells the front end.
pub struct UpdateInfo {
    pub available: bool,
    pub latest_version: String,
    pub current_version: String,
    pub release_url: String,
    pub release_notes: String,
    pub download_url: Option<String>,
}

/// A file attached to a release: its name and download address.
pub struct ReleaseAsset {
    pub name: String,
    pub browser_download_url: String,
}

/// `trim_start_matches('v')`.
pub open spec fn strip_vs(s: Seq<char>) -> Seq<char>
    decreases s.len(),
{
    if s.len() > 0 && s[0] == 'v' {
        strip_vs(s.drop_first())
    } else {
        s
    }
}

/// The first asset whose name ends in `.exe`.
pub open spec fn first_exe(assets: Seq<ReleaseAsset>) -> Option<int>
    decreases assets.len(),
{
    if assets.len() == 0 {
        None
    } else if crate::text::ends_with(assets[0].name@, ".exe"@) {
        Some(0)
    } else {
        match first_exe(assets.drop_first()) {
            Some(i) => Some(i + 1),
            None => None,
        }
    }
}

/// The release tag as a version: leading `v`s dropped, then trimmed.
pub open spec fn latest_of(tag: Seq<char>) -> Seq<char> {
    trim(strip_vs(tag))
}

/// Whether the release is offered: its version is non-empty and newer.
pub open spec fn update_offered(tag: Seq<char>, current: Seq<char>) -> bool {
    latest_of(tag).len() > 0 && spec_is_newer(latest_of(tag), current)
}

fn strip_vs_exec(s: &[char]) -> (r: Vec<char>)
    ensures
        r@ == strip_vs(s@),
{
    let mut i: usize = 0;
    assert(s@.skip(0) =~= s@);
    while i < s.len() && s[i] == 'v'
        invariant
            i <= s.len(),
            strip_vs(s@) == strip_vs(s@.skip(i as int)),
        decreases s.len() - i,
    {
        assert(s@.skip(i as int).drop_first() == s@.skip(i + 1));
        i += 1;
    }
    crate::text::slice_of(s, i, s.len())
}

fn first_exe_exec(assets: &Vec<ReleaseAsset>) -> (r: Option<usize>)
    ensures
        match r {
            Some(i) => first_exe(assets@) == Some(i as int) && i < assets.len(),
            None => first_exe(assets@) is None,
        },
{
    let mut i: usize = 0;
    assert(assets@.skip(0) =~= assets@);
    while i < assets.len()
        invariant
            i <= assets.len(),
            first_exe(assets@) == match first_exe(assets@.skip(i as int)) {
                Some(k) => Some(k + i),
                None => None,
            },
        decreases assets.len() - i,
    {
        assert(assets@.skip(i as int)[0] == assets@[i as int]);
        assert(assets@.skip(i as int).drop_first() == assets@.skip(i + 1));
        if crate::text::ends_with_chars(&chars_of(assets[i].name.as_str()), &chars_of(".exe")) {
            return Some(i);
        }
        i += 1;
    }
    None
}

/// The answer of the update check to a release with tag `tag_name`:
/// offered when its version is newer than `current`, with the release
/// page (or the tag page when there is none), the notes, and the first
/// `.exe` asset; otherwise "not available" with both versions `current`.
pub fn update_info(
    tag_name: &str,
    body: Option<String>,
    html_url: Option<String>,
    assets: &Vec<ReleaseAsset>,
    current: &str,
) -> (r: UpdateInfo)
    ensures
        r.available == update_offered(tag_name@, current@),
        r.current_version@ == current@,
        update_offered(tag_name@, current@) ==> {
            &&& r.latest_version@ == latest_of(tag_name@)
            &&& r.release_url@ == match html_url {
                Some(u) => u@,
                None => "https://gitee.com/kz_y/naxone/releases/tag/"@ + tag_name@,
            }
            &&& r.release_notes@ == match body {
                Some(b) => b@,
                None => Seq::<char>::empty(),
            }
            &&& match first_exe(assets@) {
                Some(i) => r.download_url matches Some(d) && d@ == assets@[i].browser_download_url@,
                None => r.download_url is None,
            }
        },
        !update_offered(tag_name@, current@) ==> {
            &&& r.latest_version@ == current@
            &&& r.release_url@.len() == 0
            &&& r.release_notes@.len() == 0
            &&& r.download_url is None
        },
{
    let t = chars_of(tag_name);
    let latest = crate::text::trim_of(&strip_vs_exec(&t));
    let cur = chars_of(current);
    if latest.len() == 0 || !is_newer(string_of(&latest).as_str(), current) {
        return UpdateInfo {
            available: false,
            latest_version: string_of(&cur),
            current_version: string_of(&cur),
            release_url: String::new(),
            release_notes: String::new(),
            download_url: None,
        };
    }
    let download_url = match first_exe_exec(assets) {
        Some(i) => Some(assets[i].browser_download_url.clone()),
        None => None,
    };
    let release_url = match html_url {
        Some(u) => u,
        None => {
            let mut v = chars_of("https://gitee.com/kz_y/naxone/releases/tag/");
            append_str(&mut v, tag_name);
            string_of(&v)
        },
    };
    let release_notes = match body {
        Some(b) => b,
        None => String::new(),
    };
    UpdateInfo {
        available: true,
        latest_version: string_of(&latest),
        current_version: string_of(&cur),
        release_url,
        release_notes,
        download_url,
    }
}

// ======================== Descending orders ========================

/// The three outcomes of a comparison.
#[derive(PartialEq, Eq, Structural, Clone, Copy)]
pub enum Order3 {
    Less,
    Equal,
    Greater,
}

/// The standard ordering of an outcome.
pub open spec fn ordering_of(o: Order3) -> Ordering {
    match o {
        Order3::Less => Ordering::Less,
        Order3::Equal => Ordering::Equal,
        Order3::Greater => Ordering::Greater,
    }
}

fn to_ordering(o: Order3) -> (r: Ordering)
    ensures
        r == ordering_of(o),
{
    match o {
        Order3::Less => Ordering::Less,
        Order3::Equal => Ordering::Equal,
        Order3::Greater => Ordering::Greater,
    }
}

/// `a.cmp(b)` for text: by characters, a prefix first.
pub open spec fn str_order(a: Seq<char>, b: Seq<char>) -> Order3 {
    if a == b {
        Order3::Equal
    } else if lex_le(a, b) {
        Order3::Less
    } else {
        Order3::Greater
    }
}

/// `x.cmp(y)` for numbers.
pub open spec fn num_order(x: nat, y: nat) -> Order3 {
    if x < y {
        Order3::Less
    } else if x == y {
        Order3::Equal
    } else {
        Order3::Greater
    }
}

fn text_order(a: &[char], b: &[char]) -> (r: Order3)
    ensures
        r == str_order(a@, b@),
{
    if crate::text::eq(a, b) {
        Order3::Equal
    } else if crate::php::lex_le_exec(a, b) {
        Order3::Less
    } else {
        Order3::Greater
    }
}

fn u64_order(x: u64, y: u64) -> (r: Order3)
    ensures
        r == num_order(x as nat, y as nat),
{
    if x < y {
        Order3::Less
    } else if x == y {
        Order3::Equal
    } else {
        Order3::Greater
    }
}

/// The store order of two versions from segment `i` on: numbers
/// descending; a longer version first; at the first segment that is not a
/// number, the whole texts in descending order.
pub open spec fn desc_from(a: Seq<char>, b: Seq<char>, i: int) -> Order3
    decreases split_char(a, '.').len() + split_char(b, '.').len() - i,
{
    let xs = split_char(a, '.');
    let ys = split_char(b, '.');
    if i < 0 || (i >= xs.len() && i >= ys.len()) {
        Order3::Equal
    } else if i < xs.len() && i < ys.len() {
        match (parse_unsigned(xs[i], 4294967295), parse_unsigned(ys[i], 4294967295)) {
            (Some(x), Some(y)) => if x != y {
                num_order(y, x)
            } else {
                desc_from(a, b, i + 1)
            },
            _ => str_order(b, a),
        }
    } else if i < xs.len() {
        Order3::Less
    } else {
        Order3::Greater
    }
}

pub(crate) fn desc_order(a: &str, b: &str) -> (r: Order3)
    ensures
        r == desc_from(a@, b@, 0),
{
    let ac = chars_of(a);
    let bc = chars_of(b);
    let xs = crate::text::split_char_exec(&ac, '.');
    let ys = crate::text::split_char_exec(&bc, '.');
    let mut i: usize = 0;
    while i < xs.len() || i < ys.len()
        invariant
            views(xs@) == split_char(a@, '.'),
            views(ys@) == split_char(b@, '.'),
            ac@ == a@,
            bc@ == b@,
            desc_from(a@, b@, 0) == desc_from(a@, b@, i as int),
        decreases xs.len() + ys.len() - i,
    {
        if i < xs.len() && i < ys.len() {
            assert(views(xs@)[i as int] == xs@[i as int]@);
            assert(views(ys@)[i as int] == ys@[i as int]@);
            let px = crate::num::parse_unsigned_exec(&xs[i], 0xffff_ffff);
            let py = crate::num::parse_unsigned_exec(&ys[i], 0xffff_ffff);
            match (px, py) {
                (Some(x), Some(y)) => {
                    if x != y {
                        return u64_order(y, x);
                    }
                },
                _ => {
                    return text_order(&bc, &ac);
                },
            }
        } else if i < xs.len() {
            return Order3::Less;
        } else {
            return Order3::Greater;
        }
        i += 1;
    }
    Order3::Equal
}

/// The order of the package list: numbers descending; a longer version
/// first; segments that are not both numbers compare as text, descending,
/// and equal texts go on to the next segment.
pub open spec fn pkg_desc_from(a: Seq<char>, b: Seq<char>, i: int) -> Order3
    decreases split_char(a, '.').len() + split_char(b, '.').len() - i,
{
    let xs = split_char(a, '.');
    let ys = split_char(b, '.');
    if i < 0 || (i >= xs.len() && i >= ys.len()) {
        Order3::Equal
    } else if i < xs.len() && i < ys.len() {
        match (parse_unsigned(xs[i], 4294967295), parse_unsigned(ys[i], 4294967295)) {
            (Some(x), Some(y)) => if x != y {
                num_order(y, x)
            } else {
                pkg_desc_from(a, b, i + 1)
            },
            _ => if str_order(ys[i], xs[i]) != Order3::Equal {
                str_order(ys[i], xs[i])
            } else {
                pkg_desc_from(a, b, i + 1)
            },
        }
    } else if i < xs.len() {
        Order3::Less
    } else {
        Order3::Greater
    }
}

pub(crate) fn pkg_desc_order(a: &str, b: &str) -> (r: Order3)
    ensures
        r == pkg_desc_from(a@, b@, 0),
{
    let ac = chars_of(a);
    let bc = chars_of(b);
    let xs = crate::text::split_char_exec(&ac, '.');
    let ys = crate::text::split_char_exec(&bc, '.');
    let mut i: usize = 0;
    while i < xs.len() || i < ys.len()
        invariant
            views(xs@) == split_char(a@, '.'),
            views(ys@) == split_char(b@, '.'),
            pkg_desc_from(a@, b@, 0) == pkg_desc_from(a@, b@, i as int),
        decreases xs.len() + ys.len() - i,
    {
        if i < xs.len() && i < ys.len() {
            assert(views(xs@)[i as int] == xs@[i as int]@);
            assert(views(ys@)[i as int] == ys@[i as int]@);
            let px = crate::num::parse_unsigned_exec(&xs[i], 0xffff_ffff);
            let py = crate::num::parse_unsigned_exec(&ys[i], 0xffff_ffff);
            let both = match (px, py) {
                (Some(x), Some(y)) => {
                    if x != y {
                        return u64_order(y, x);
                    }
                    true
                },
                _ => false,
            };
            if !both {
                let o = text_order(&ys[i], &xs[i]);
                if o != Order3::Equal {
                    return o;
                }
            }
        } else if i < xs.len() {
            return Order3::Less;
        } else {
            return Order3::Greater;
        }
        i += 1;
    }
    Order3::Equal
}

/// The order PHP releases are listed in: newest first (see `desc_from`).
pub fn cmp_semver_desc(a: &str, b: &str) -> (r: Ordering)
    ensures
        r == ordering_of(desc_from(a@, b@, 0)),
{
    to_ordering(desc_order(a, b))
}

/// The order of the store's package versions (see `pkg_desc_from`).
pub fn semver_cmp_desc(a: &str, b: &str) -> (r: Ordering)
    ensures
        r == ordering_of(pkg_desc_from(a@, b@, 0)),
{
    to_ordering(pkg_desc_order(a, b))
}

} // verus!
