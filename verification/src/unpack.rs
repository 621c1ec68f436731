//! Unpacking a downloaded package: the entries of the zip archive, the
//! ones that are written out, and where in the unpacked tree the
//! program's executable lives.

use vstd::prelude::*;
use std::io::Read;
use crate::text::{append, append_str, chars_of, string_of};
use crate::ssl_cert::string_views;
use crate::installer::is_zip_archive;

verus! {

// ======================== The archive's entries ========================

/// One entry of a zip archive as the reader lists it: its name as path
/// components when it stays inside the target directory (`None` for an
/// absolute name or one that climbs out with `..`), and whether it is a
/// directory.
#[derive(Debug)]
pub struct ZipEntry {
    pub enclosed: Option<Vec<String>>,
    pub is_dir: bool,
}

pub open spec fn entry_view(e: ZipEntry) -> (Option<Seq<Seq<char>>>, bool) {
    (match e.enclosed {
        Some(c) => Some(string_views(c@)),
        None => None,
    }, e.is_dir)
}

pub open spec fn entries_view(v: Seq<ZipEntry>) -> Seq<(Option<Seq<Seq<char>>>, bool)> {
    v.map_values(|e: ZipEntry| entry_view(e))
}

/// The entries `zip` lists for the archive bytes (`ZipArchive::by_index`,
/// `enclosed_name`, `is_dir`), or `None` when an entry cannot be read.
pub uninterp spec fn zip_listing(data: Seq<u8>) -> Option<Seq<(Option<Seq<Seq<char>>>, bool)>>;

/// Why the archive could not be listed: it did not open (`None`), or the
/// entry at the index could not be read; with the error's text.
pub struct ZipFault {
    pub entry: Option<usize>,
    pub message: String,
}

/// `zip::ZipArchive::new` on the bytes, then `by_index` of each entry
/// with its `enclosed_name` (split into components) and `is_dir`.
#[verifier::external_body]
fn zip_entries(data: &[u8]) -> (r: Result<Vec<ZipEntry>, ZipFault>)
    ensures
        r matches Ok(v) ==> is_zip_archive(data@) && zip_listing(data@) == Some(entries_view(v@)),
        r matches Err(f) ==> (f.entry is None <==> !is_zip_archive(data@)),
        r matches Err(f) ==> (f.entry is Some ==> zip_listing(data@) is None),
{
    let mut a = zip::ZipArchive::new(std::io::Cursor::new(data))
        .map_err(|e| ZipFault { entry: None, message: e.to_string() })?;
    (0..a.len()).map(|i| match a.by_index(i) {
        Ok(e) => Ok(ZipEntry {
            enclosed: e.enclosed_name().map(|p| p.components().map(|c| c.as_os_str().to_string_lossy().into_owned()).collect()),
            is_dir: e.is_dir(),
        }),
        Err(e) => Err(ZipFault { entry: Some(i), message: e.to_string() }),
    }).collect()
}

/// The message when the archive does not open.
pub open spec fn open_failure(e: Seq<char>) -> Seq<char> {
    "解析 zip 失败: "@ + e
}

/// The message when entry `i` cannot be read.
pub open spec fn entry_failure(i: nat, e: Seq<char>) -> Seq<char> {
    "读取 zip 条目 "@ + crate::num::decimal(i) + " 失败: "@ + e
}

/// The entries of a downloaded archive, or the message naming what could
/// not be read.
pub fn list_zip(data: &[u8]) -> (r: Result<Vec<ZipEntry>, String>)
    ensures
        r matches Ok(v) ==> is_zip_archive(data@) && zip_listing(data@) == Some(entries_view(v@)),
        is_zip_archive(data@) && zip_listing(data@) is Some ==> r is Ok,
        !is_zip_archive(data@) ==> (r matches Err(m) && exists|e: Seq<char>| m@ == open_failure(e)),
        is_zip_archive(data@) && zip_listing(data@) is None ==> (r matches Err(m) && exists|i: nat, e: Seq<char>|
            m@ == entry_failure(i, e)),
        r matches Err(m) ==> (exists|e: Seq<char>| m@ == open_failure(e)) || exists|i: nat, e: Seq<char>|
            m@ == entry_failure(i, e),
{
    match zip_entries(data) {
        Ok(v) => Ok(v),
        Err(f) => match f.entry {
            None => {
                let mut m = chars_of("解析 zip 失败: ");
                append_str(&mut m, f.message.as_str());
                assert(m@ == open_failure(f.message@));
                Err(string_of(&m))
            },
            Some(i) => {
                let mut m = chars_of("读取 zip 条目 ");
                append(&mut m, &crate::num::decimal_chars(i as u64));
                append_str(&mut m, " 失败: ");
                append_str(&mut m, f.message.as_str());
                assert(m@ == entry_failure(i as nat, f.message@));
                Err(string_of(&m))
            },
        },
    }
}

/// The content of entry `i` of the archive, as `zip` unpacks it; `None`
/// when it cannot be read.
pub uninterp spec fn zip_entry_bytes(data: Seq<u8>, i: nat) -> Option<Seq<u8>>;

/// `ZipArchive::by_index(i)` of the archive, read to the end.
#[verifier::external_body]
fn zip_entry_data(data: &[u8], i: usize) -> (r: Result<Vec<u8>, String>)
    ensures
        r matches Ok(b) ==> zip_entry_bytes(data@, i as nat) == Some(b@),
        r is Err ==> zip_entry_bytes(data@, i as nat) is None,
{
    let mut a = zip::ZipArchive::new(std::io::Cursor::new(data)).map_err(|e| e.to_string())?;
    let mut e = a.by_index(i).map_err(|e| e.to_string())?;
    let mut out = Vec::new();
    e.read_to_end(&mut out).map_err(|e| e.to_string())?;
    Ok(out)
}

/// The bytes of entry `i` to write out, or the message naming it.
pub fn entry_content(data: &[u8], i: usize) -> (r: Result<Vec<u8>, String>)
    ensures
        match zip_entry_bytes(data@, i as nat) {
            Some(b) => (r matches Ok(v) && v@ == b),
            None => (r matches Err(m) && exists|e: Seq<char>| m@ == entry_failure(i as nat, e)),
        },
{
    match zip_entry_data(data, i) {
        Ok(b) => Ok(b),
        Err(e) => {
            let mut m = chars_of("读取 zip 条目 ");
            append(&mut m, &crate::num::decimal_chars(i as u64));
            append_str(&mut m, " 失败: ");
            append_str(&mut m, e.as_str());
            assert(m@ == entry_failure(i as nat, e@));
            Err(string_of(&m))
        },
    }
}

/// What is written out, in archive order: for each entry with a name that
/// stays inside the target, its index, components and whether it is a
/// directory (created) or a file (written); the others are skipped.
pub open spec fn spec_extraction_plan(v: Seq<(Option<Seq<Seq<char>>>, bool)>) -> Seq<(nat, Seq<Seq<char>>, bool)>
    decreases v.len(),
{
    if v.len() == 0 {
        Seq::empty()
    } else {
        let r = spec_extraction_plan(v.drop_last());
        match v.last().0 {
            Some(c) => r.push(((v.len() - 1) as nat, c, v.last().1)),
            None => r,
        }
    }
}

pub open spec fn plan_view(p: Seq<(usize, Vec<String>, bool)>) -> Seq<(nat, Seq<Seq<char>>, bool)> {
    p.map_values(|x: (usize, Vec<String>, bool)| (x.0 as nat, string_views(x.1@), x.2))
}

fn clone_strings(v: &Vec<String>) -> (r: Vec<String>)
    ensures
        string_views(r@) == string_views(v@),
{
    let mut r: Vec<String> = Vec::new();
    let mut i: usize = 0;
    while i < v.len()
        invariant
            i <= v.len(),
            r@.len() == i,
            forall|k: int| 0 <= k < i ==> (#[trigger] r@[k])@ == v@[k]@,
        decreases v.len() - i,
    {
        r.push(string_of(&chars_of(v[i].as_str())));
        i += 1;
    }
    assert(string_views(r@) =~= string_views(v@));
    r
}

/// The entries to write out (see `spec_extraction_plan`).
pub fn extraction_plan(entries: &Vec<ZipEntry>) -> (r: Vec<(usize, Vec<String>, bool)>)
    ensures
        plan_view(r@) == spec_extraction_plan(entries_view(entries@)),
{
    let ghost ev = entries_view(entries@);
    let mut r: Vec<(usize, Vec<String>, bool)> = Vec::new();
    let mut i: usize = 0;
    while i < entries.len()
        invariant
            i <= entries.len(),
            ev == entries_view(entries@),
            plan_view(r@) == spec_extraction_plan(ev.take(i as int)),
        decreases entries.len() - i,
    {
        assert(ev.take(i + 1).drop_last() =~= ev.take(i as int));
        assert(ev.take(i + 1).last() == entry_view(entries@[i as int]));
        match &entries[i].enclosed {
            Some(c) => {
                let ghost before = plan_view(r@);
                r.push((i, clone_strings(c), entries[i].is_dir));
                assert(plan_view(r@) =~= before.push((i as nat, string_views(c@), entries@[i as int].is_dir)));
            },
            None => {},
        }
        i += 1;
    }
    assert(ev.take(entries.len() as int) =~= ev);
    r
}

} // verus!

verus! {

// ======================== Where the executable lives ========================

/// A path below the unpacked root, as components.
pub type RelPath = Seq<Seq<char>>;

/// The unpacked tree as its listing: each path below the root, with
/// whether it is a directory, in the order the file system lists them.
pub struct DirTree {
    pub entries: Vec<(Vec<String>, bool)>,
}

pub open spec fn tree_view(t: DirTree) -> Seq<(RelPath, bool)> {
    t.entries@.map_values(|e: (Vec<String>, bool)| (string_views(e.0@), e.1))
}

/// The path exists in the tree (the root always does).
pub open spec fn has_path(t: Seq<(RelPath, bool)>, p: RelPath) -> bool {
    p.len() == 0 || exists|i: int| 0 <= i < t.len() && t[i].0 == p
}

/// The subdirectories of `p`, in listing order.
pub open spec fn child_dirs(t: Seq<(RelPath, bool)>, p: RelPath) -> Seq<RelPath>
    decreases t.len(),
{
    if t.len() == 0 {
        Seq::empty()
    } else {
        let r = child_dirs(t.drop_last(), p);
        let e = t.last();
        if e.1 && e.0.len() == p.len() + 1 && e.0.take(p.len() as int) == p {
            r.push(e.0)
        } else {
            r
        }
    }
}

/// The first of `cs` that holds the executable.
pub open spec fn first_with_exe(t: Seq<(RelPath, bool)>, cs: Seq<RelPath>, exe: RelPath) -> Option<RelPath>
    decreases cs.len(),
{
    if cs.len() == 0 {
        None
    } else if has_path(t, cs[0] + exe) {
        Some(cs[0])
    } else {
        first_with_exe(t, cs.drop_first(), exe)
    }
}

/// The search below `p`, `d` levels deep: a subdirectory that holds the
/// executable, else the first hit in a subdirectory's own search.
pub open spec fn search(t: Seq<(RelPath, bool)>, p: RelPath, d: nat, exe: RelPath) -> Option<RelPath>
    decreases d, 0int, 0int,
{
    if d == 0 {
        None
    } else {
        match first_with_exe(t, child_dirs(t, p), exe) {
            Some(c) => Some(c),
            None => search_children(t, child_dirs(t, p), (d - 1) as nat, exe),
        }
    }
}

/// The first hit of the searches below each of `cs`.
pub open spec fn search_children(t: Seq<(RelPath, bool)>, cs: Seq<RelPath>, d: nat, exe: RelPath) -> Option<RelPath>
    decreases d, 1int, cs.len(),
{
    if cs.len() == 0 {
        None
    } else {
        match search(t, cs[0], d, exe) {
            Some(f) => Some(f),
            None => search_children(t, cs.drop_first(), d, exe),
        }
    }
}

/// The components of a relative executable path (`/` and `\` both
/// separate; empty pieces are dropped).
pub open spec fn exe_parts(exe: Seq<char>) -> RelPath {
    crate::template::nonempty(crate::text::split_char(crate::text::replace_char(exe, '/', '\\'), '\\'))
}

/// The directory of the unpacked tree that holds the executable: the root
/// when it holds it, else the first found by searching three levels down,
/// else the root.
pub open spec fn spec_exe_root(t: Seq<(RelPath, bool)>, exe: RelPath) -> RelPath {
    if has_path(t, exe) {
        Seq::empty()
    } else {
        match search(t, Seq::empty(), 3, exe) {
            Some(f) => f,
            None => Seq::empty(),
        }
    }
}

proof fn lemma_views_push(v: Seq<Vec<char>>, x: Vec<char>)
    ensures
        crate::text::views(v.push(x)) == crate::text::views(v).push(x@),
{
    assert(crate::text::views(v.push(x)) =~= crate::text::views(v).push(x@));
}

fn path_eq(a: &Vec<Vec<char>>, b: &Vec<Vec<char>>) -> (r: bool)
    ensures
        r == (crate::text::views(a@) == crate::text::views(b@)),
{
    if a.len() != b.len() {
        assert(crate::text::views(a@).len() != crate::text::views(b@).len());
        return false;
    }
    let mut i: usize = 0;
    while i < a.len()
        invariant
            i <= a.len(),
            a.len() == b.len(),
            forall|k: int| 0 <= k < i ==> a@[k]@ == b@[k]@,
        decreases a.len() - i,
    {
        if !crate::text::eq(&a[i], &b[i]) {
            assert(crate::text::views(a@)[i as int] != crate::text::views(b@)[i as int]);
            return false;
        }
        i += 1;
    }
    assert(crate::text::views(a@) =~= crate::text::views(b@));
    true
}

fn concat_path(a: &Vec<Vec<char>>, b: &Vec<Vec<char>>) -> (r: Vec<Vec<char>>)
    ensures
        crate::text::views(r@) == crate::text::views(a@) + crate::text::views(b@),
{
    let mut r: Vec<Vec<char>> = Vec::new();
    let mut i: usize = 0;
    while i < a.len()
        invariant
            i <= a.len(),
            crate::text::views(r@) == crate::text::views(a@).take(i as int),
        decreases a.len() - i,
    {
        let x = crate::text::slice_of(&a[i], 0, a[i].len());
        assert(x@ =~= a@[i as int]@);
        proof {
            lemma_views_push(r@, x);
            assert(crate::text::views(a@).take(i + 1) =~= crate::text::views(a@).take(i as int).push(a@[i as int]@));
        }
        r.push(x);
        i += 1;
    }
    let mut j: usize = 0;
    while j < b.len()
        invariant
            j <= b.len(),
            crate::text::views(r@) == crate::text::views(a@) + crate::text::views(b@).take(j as int),
        decreases b.len() - j,
    {
        let x = crate::text::slice_of(&b[j], 0, b[j].len());
        assert(x@ =~= b@[j as int]@);
        proof {
            lemma_views_push(r@, x);
            assert(crate::text::views(b@).take(j + 1) =~= crate::text::views(b@).take(j as int).push(b@[j as int]@));
            assert(crate::text::views(a@) + crate::text::views(b@).take(j + 1) =~= (crate::text::views(a@) + crate::text::views(b@).take(j as int)).push(b@[j as int]@));
        }
        r.push(x);
        j += 1;
    }
    assert(crate::text::views(b@).take(b.len() as int) =~= crate::text::views(b@));
    r
}

pub open spec fn tv_of(t: Seq<(Vec<Vec<char>>, bool)>) -> Seq<(RelPath, bool)> {
    t.map_values(|e: (Vec<Vec<char>>, bool)| (crate::text::views(e.0@), e.1))
}

fn has_path_exec(t: &Vec<(Vec<Vec<char>>, bool)>, p: &Vec<Vec<char>>) -> (r: bool)
    ensures
        r == has_path(tv_of(t@), crate::text::views(p@)),
{
    if p.len() == 0 {
        return true;
    }
    let ghost tv = tv_of(t@);
    let mut i: usize = 0;
    while i < t.len()
        invariant
            i <= t.len(),
            tv == tv_of(t@),
            p.len() > 0,
            forall|k: int| 0 <= k < i ==> tv[k].0 != crate::text::views(p@),
        decreases t.len() - i,
    {
        if path_eq(&t[i].0, p) {
            assert(tv[i as int].0 == crate::text::views(p@));
            return true;
        }
        i += 1;
    }
    false
}

fn child_dirs_exec(t: &Vec<(Vec<Vec<char>>, bool)>, p: &Vec<Vec<char>>) -> (r: Vec<Vec<Vec<char>>>)
    ensures
        r@.map_values(|c: Vec<Vec<char>>| crate::text::views(c@)) == child_dirs(tv_of(t@), crate::text::views(p@)),
{
    let ghost tv = tv_of(t@);
    let ghost pv = crate::text::views(p@);
    let mut r: Vec<Vec<Vec<char>>> = Vec::new();
    let mut i: usize = 0;
    while i < t.len()
        invariant
            i <= t.len(),
            tv == tv_of(t@),
            pv == crate::text::views(p@),
            r@.map_values(|c: Vec<Vec<char>>| crate::text::views(c@)) == child_dirs(tv.take(i as int), pv),
        decreases t.len() - i,
    {
        assert(tv.take(i + 1).drop_last() =~= tv.take(i as int));
        assert(tv.take(i + 1).last() == tv[i as int]);
        let e = &t[i];
        let mut hit = false;
        if e.1 && e.0.len() > 0 && e.0.len() - 1 == p.len() {
            let mut front: Vec<Vec<char>> = Vec::new();
            let mut k: usize = 0;
            while k < p.len()
                invariant
                    k <= p.len(),
                    e.0.len() == p.len() + 1,
                    crate::text::views(front@) == crate::text::views(e.0@).take(k as int),
                decreases p.len() - k,
            {
                let x = crate::text::slice_of(&e.0[k], 0, e.0[k].len());
                assert(x@ =~= e.0@[k as int]@);
                proof {
                    lemma_views_push(front@, x);
                    assert(crate::text::views(e.0@).take(k + 1) =~= crate::text::views(e.0@).take(k as int).push(e.0@[k as int]@));
                }
                front.push(x);
                k += 1;
            }
            hit = path_eq(&front, p);
        }
        assert(tv[i as int].0 == crate::text::views(e.0@));
        if hit {
            let ghost before = r@.map_values(|c: Vec<Vec<char>>| crate::text::views(c@));
            let empty: Vec<Vec<char>> = Vec::new();
            assert(crate::text::views(empty@) =~= Seq::<Seq<char>>::empty());
            assert(crate::text::views(e.0@) + crate::text::views(empty@) =~= crate::text::views(e.0@));
            r.push(concat_path(&e.0, &empty));
            assert(r@.map_values(|c: Vec<Vec<char>>| crate::text::views(c@)) =~= before.push(crate::text::views(e.0@)));
        }
        i += 1;
    }
    assert(tv.take(t.len() as int) =~= tv);
    r
}

fn first_with_exe_exec(t: &Vec<(Vec<Vec<char>>, bool)>, cs: &Vec<Vec<Vec<char>>>, exe: &Vec<Vec<char>>) -> (r: Option<usize>)
    ensures
        match r {
            Some(k) => k < cs.len() && first_with_exe(tv_of(t@), cs@.map_values(|c: Vec<Vec<char>>| crate::text::views(c@)), crate::text::views(exe@)) == Some(crate::text::views(cs@[k as int]@)),
            None => first_with_exe(tv_of(t@), cs@.map_values(|c: Vec<Vec<char>>| crate::text::views(c@)), crate::text::views(exe@)) is None,
        },
{
    let ghost cv = cs@.map_values(|c: Vec<Vec<char>>| crate::text::views(c@));
    let mut k: usize = 0;
    assert(cv.skip(0) =~= cv);
    while k < cs.len()
        invariant
            k <= cs.len(),
            cv == cs@.map_values(|c: Vec<Vec<char>>| crate::text::views(c@)),
            first_with_exe(tv_of(t@), cv, crate::text::views(exe@)) == first_with_exe(tv_of(t@), cv.skip(k as int), crate::text::views(exe@)),
        decreases cs.len() - k,
    {
        assert(cv.skip(k as int)[0] == crate::text::views(cs@[k as int]@));
        assert(cv.skip(k as int).drop_first() =~= cv.skip(k + 1));
        let full = concat_path(&cs[k], exe);
        if has_path_exec(t, &full) {
            return Some(k);
        }
        k += 1;
    }
    None
}

fn search_exec(t: &Vec<(Vec<Vec<char>>, bool)>, p: &Vec<Vec<char>>, d: usize, exe: &Vec<Vec<char>>) -> (r: Option<Vec<Vec<char>>>)
    ensures
        match r {
            Some(f) => search(tv_of(t@), crate::text::views(p@), d as nat, crate::text::views(exe@)) == Some(crate::text::views(f@)),
            None => search(tv_of(t@), crate::text::views(p@), d as nat, crate::text::views(exe@)) is None,
        },
    decreases d, 0int, 0int,
{
    if d == 0 {
        return None;
    }
    let cs = child_dirs_exec(t, p);
    match first_with_exe_exec(t, &cs, exe) {
        Some(k) => {
            let empty: Vec<Vec<char>> = Vec::new();
            assert(crate::text::views(empty@) =~= Seq::<Seq<char>>::empty());
            assert(crate::text::views(cs@[k as int]@) + crate::text::views(empty@) =~= crate::text::views(cs@[k as int]@));
            Some(concat_path(&cs[k], &empty))
        },
        None => {
            assert(cs@.map_values(|c: Vec<Vec<char>>| crate::text::views(c@)).skip(0) =~= cs@.map_values(
                |c: Vec<Vec<char>>| crate::text::views(c@),
            ));
            search_children_exec(t, &cs, 0, d - 1, exe)
        },
    }
}

fn search_children_exec(t: &Vec<(Vec<Vec<char>>, bool)>, cs: &Vec<Vec<Vec<char>>>, k: usize, d: usize, exe: &Vec<Vec<char>>) -> (r: Option<Vec<Vec<char>>>)
    requires
        k <= cs.len(),
    ensures
        match r {
            Some(f) => search_children(tv_of(t@), cs@.map_values(|c: Vec<Vec<char>>| crate::text::views(c@)).skip(k as int), d as nat, crate::text::views(exe@)) == Some(crate::text::views(f@)),
            None => search_children(tv_of(t@), cs@.map_values(|c: Vec<Vec<char>>| crate::text::views(c@)).skip(k as int), d as nat, crate::text::views(exe@)) is None,
        },
    decreases d, 1int, cs.len() - k,
{
    let ghost cv = cs@.map_values(|c: Vec<Vec<char>>| crate::text::views(c@));
    if k == cs.len() {
        assert(cv.skip(k as int).len() == 0);
        return None;
    }
    assert(cv.skip(k as int)[0] == crate::text::views(cs@[k as int]@));
    assert(cv.skip(k as int).drop_first() =~= cv.skip(k + 1));
    match search_exec(t, &cs[k], d, exe) {
        Some(f) => Some(f),
        None => search_children_exec(t, cs, k + 1, d, exe),
    }
}

fn split_exe(exe: &str) -> (r: Vec<Vec<char>>)
    ensures
        crate::text::views(r@) == exe_parts(exe@),
{
    let c = crate::text::replace_char_exec(&chars_of(exe), '/', '\\');
    let parts = crate::text::split_char_exec(&c, '\\');
    let ghost pv = crate::text::views(parts@);
    let mut r: Vec<Vec<char>> = Vec::new();
    let mut i: usize = 0;
    while i < parts.len()
        invariant
            i <= parts.len(),
            pv == crate::text::views(parts@),
            crate::text::views(r@) == crate::template::nonempty(pv.take(i as int)),
        decreases parts.len() - i,
    {
        assert(pv.take(i + 1).drop_last() =~= pv.take(i as int));
        assert(pv.take(i + 1).last() == parts@[i as int]@);
        if parts[i].len() > 0 {
            let x = crate::text::slice_of(&parts[i], 0, parts[i].len());
            assert(x@ =~= parts@[i as int]@);
            proof {
                lemma_views_push(r@, x);
            }
            r.push(x);
        }
        i += 1;
    }
    assert(pv.take(parts.len() as int) =~= pv);
    r
}

/// The directory of the unpacked tree that holds `exe_rel` (see
/// `spec_exe_root`), as components below the root.
pub fn exe_root(tree: &DirTree, exe_rel: &str) -> (r: Vec<String>)
    ensures
        string_views(r@) == spec_exe_root(tree_view(*tree), exe_parts(exe_rel@)),
{
    let mut t: Vec<(Vec<Vec<char>>, bool)> = Vec::new();
    let mut i: usize = 0;
    while i < tree.entries.len()
        invariant
            i <= tree.entries.len(),
            tv_of(t@) == tree_view(*tree).take(i as int),
        decreases tree.entries.len() - i,
    {
        let mut comps: Vec<Vec<char>> = Vec::new();
        let mut k: usize = 0;
        while k < tree.entries[i].0.len()
            invariant
                k <= tree.entries[i as int].0.len(),
                i < tree.entries.len(),
                crate::text::views(comps@) == string_views(tree.entries[i as int].0@).take(k as int),
            decreases tree.entries[i as int].0.len() - k,
        {
            let x = chars_of(tree.entries[i].0[k].as_str());
            proof {
                lemma_views_push(comps@, x);
                assert(string_views(tree.entries[i as int].0@).take(k + 1) =~= string_views(tree.entries[i as int].0@).take(k as int).push(tree.entries[i as int].0@[k as int]@));
            }
            comps.push(x);
            k += 1;
        }
        assert(string_views(tree.entries[i as int].0@).take(tree.entries[i as int].0.len() as int)
            =~= string_views(tree.entries[i as int].0@));
        let ghost before = tv_of(t@);
        t.push((comps, tree.entries[i].1));
        assert(tv_of(t@) =~= before.push(tree_view(*tree)[i as int]));
        assert(tree_view(*tree).take(i + 1) =~= tree_view(*tree).take(i as int).push(tree_view(*tree)[i as int]));
        i += 1;
    }
    assert(tree_view(*tree).take(tree.entries.len() as int) =~= tree_view(*tree));
    let exe = split_exe(exe_rel);
    let root: Vec<Vec<char>> = Vec::new();
    assert(crate::text::views(root@) =~= Seq::<Seq<char>>::empty());
    let found = if has_path_exec(&t, &exe) {
        Vec::new()
    } else {
        match search_exec(&t, &root, 3, &exe) {
            Some(f) => f,
            None => Vec::new(),
        }
    };
    assert(found@.len() == 0 ==> crate::text::views(found@) =~= Seq::<Seq<char>>::empty());
    let mut r: Vec<String> = Vec::new();
    let mut j: usize = 0;
    while j < found.len()
        invariant
            j <= found.len(),
            r@.len() == j,
            forall|k: int| 0 <= k < j ==> (#[trigger] r@[k])@ == found@[k]@,
        decreases found.len() - j,
    {
        r.push(string_of(&found[j]));
        j += 1;
    }
    assert(string_views(r@) =~= crate::text::views(found@));
    r
}

} // verus!
