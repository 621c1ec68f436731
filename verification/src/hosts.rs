//! The system hosts file: the text kept when entries are added and
//! removed, its byte-order mark, and how failures to write it are told to
//! the user.

use vstd::prelude::*;
use crate::text::{append, append_str, chars_of, contains, join_lines, lines, starts_with, string_of, trim, views};
use crate::vhost_scan::{replace_str, words};
use crate::error::{NaxOneError, spec_error_message};
use crate::strangers::{to_lowercase, unicode_lower};

verus! {

/// The three bytes of a UTF-8 byte-order mark.
pub open spec fn is_bom(b: Seq<u8>) -> bool {
    b.len() >= 3 && b[0] == 0xEF && b[1] == 0xBB && b[2] == 0xBF
}

/// The file's bytes without a leading byte-order mark, and whether it had
/// one.
pub fn strip_bom(bytes: &[u8]) -> (r: (Vec<u8>, bool))
    ensures
        r.1 == is_bom(bytes@),
        r.0@ == (if is_bom(bytes@) { bytes@.skip(3) } else { bytes@ }),
{
    let had = bytes.len() >= 3 && bytes[0] == 0xEF && bytes[1] == 0xBB && bytes[2] == 0xBF;
    let start: usize = if had {
        3
    } else {
        0
    };
    let mut out: Vec<u8> = Vec::new();
    let mut i: usize = start;
    while i < bytes.len()
        invariant
            start <= i <= bytes.len(),
            out@ == bytes@.subrange(start as int, i as int),
        decreases bytes.len() - i,
    {
        out.push(bytes[i]);
        assert(out@ =~= bytes@.subrange(start as int, i + 1));
        i += 1;
    }
    assert(bytes@.skip(start as int) =~= bytes@.subrange(start as int, bytes.len() as int));
    (out, had)
}

/// The bytes to write: the mark again when the file had one, then the
/// text's bytes.
pub fn hosts_bytes(text_bytes: &[u8], had_bom: bool) -> (r: Vec<u8>)
    ensures
        r@ == (if had_bom { seq![0xEFu8, 0xBBu8, 0xBFu8] + text_bytes@ } else { text_bytes@ }),
{
    let mut out: Vec<u8> = Vec::new();
    if had_bom {
        out.push(0xEF);
        out.push(0xBB);
        out.push(0xBF);
    }
    let ghost start = out@;
    let mut i: usize = 0;
    while i < text_bytes.len()
        invariant
            i <= text_bytes.len(),
            out@ == start + text_bytes@.take(i as int),
        decreases text_bytes.len() - i,
    {
        out.push(text_bytes[i]);
        assert(out@ =~= start + text_bytes@.take(i + 1));
        i += 1;
    }
    assert(text_bytes@.take(text_bytes.len() as int) =~= text_bytes@);
    assert(start =~= (if had_bom { seq![0xEFu8, 0xBBu8, 0xBFu8] } else { Seq::<u8>::empty() }));
    out
}

/// Text from the hosts editor with Windows line breaks made `\n`.
pub fn normalize_hosts_text(input: &str) -> (r: String)
    ensures
        r@ == replace_str(input@, "\r\n"@, "\n"@),
{
    proof {
        reveal_strlit("\r\n");
    }
    let c = chars_of(input);
    string_of(&crate::vhost_scan::replace_str_exec(&c, &chars_of("\r\n"), &chars_of("\n")))
}

/// The message the hosts page shows for an error: refused access and a
/// locked file are tagged so that the page can offer elevation.
pub open spec fn spec_map_hosts_error(e: NaxOneError) -> Seq<char> {
    match e {
        NaxOneError::PermissionDenied(m) => "PERMISSION_DENIED: "@ + m@,
        NaxOneError::FileLocked(m) => "FILE_LOCKED: "@ + m@,
        other => spec_error_message(other),
    }
}

pub fn map_hosts_error(e: NaxOneError) -> (r: String)
    ensures
        r@ == spec_map_hosts_error(e),
{
    match e {
        NaxOneError::PermissionDenied(m) => {
            let mut v = chars_of("PERMISSION_DENIED: ");
            append_str(&mut v, m.as_str());
            string_of(&v)
        },
        NaxOneError::FileLocked(m) => {
            let mut v = chars_of("FILE_LOCKED: ");
            append_str(&mut v, m.as_str());
            string_of(&v)
        },
        other => other.to_message(),
    }
}

// ======================== Adding and removing entries ========================

/// A line is kept unless it is an entry one of whose host names (the
/// fields after the address) is to be removed; comments and blank lines
/// always stay.
pub open spec fn keep_hosts_line(line: Seq<char>, removals: Seq<Seq<char>>) -> bool {
    let t = trim(line);
    if starts_with(t, "#"@) || t.len() == 0 {
        true
    } else {
        let ws = words(t);
        !(exists|j: int, k: int| 1 <= j < ws.len() && 0 <= k < removals.len() && #[trigger] ws[j] == #[trigger] removals[k])
    }
}

/// The kept lines.
pub open spec fn kept_hosts_lines(ls: Seq<Seq<char>>, removals: Seq<Seq<char>>) -> Seq<Seq<char>>
    decreases ls.len(),
{
    if ls.len() == 0 {
        ls
    } else if keep_hosts_line(ls.last(), removals) {
        kept_hosts_lines(ls.drop_last(), removals).push(ls.last())
    } else {
        kept_hosts_lines(ls.drop_last(), removals)
    }
}

/// `ip hostname`.
pub open spec fn hosts_entry(ip: Seq<char>, host: Seq<char>) -> Seq<char> {
    ip + " "@ + host
}

/// Some active line equals the entry once trimmed.
pub open spec fn has_entry(ls: Seq<Seq<char>>, e: Seq<char>) -> bool {
    exists|i: int| 0 <= i < ls.len() && !starts_with(trim(#[trigger] ls[i]), "#"@) && trim(ls[i]) == e
}

/// The lines after adding each `(hostname, ip)` entry not yet present.
pub open spec fn add_entries(ls: Seq<Seq<char>>, additions: Seq<(Seq<char>, Seq<char>)>) -> Seq<Seq<char>>
    decreases additions.len(),
{
    if additions.len() == 0 {
        ls
    } else {
        let r = add_entries(ls, additions.drop_last());
        let e = hosts_entry(additions.last().1, additions.last().0);
        if has_entry(r, e) {
            r
        } else {
            r.push(e)
        }
    }
}

/// `trim_end_matches('\n')`.
pub open spec fn trim_end_nl(s: Seq<char>) -> Seq<char>
    decreases s.len(),
{
    if s.len() > 0 && s.last() == '\n' {
        trim_end_nl(s.drop_last())
    } else {
        s
    }
}

/// The hosts file after the changes: the lines without the removed host
/// names, then the new entries, joined and ended by one line break.
pub open spec fn spec_hosts_after_changes(
    content: Seq<char>,
    additions: Seq<(Seq<char>, Seq<char>)>,
    removals: Seq<Seq<char>>,
) -> Seq<char> {
    trim_end_nl(join_lines(add_entries(kept_hosts_lines(lines(content), removals), additions))) + "\n"@
}

pub open spec fn pairs_view(v: Seq<(String, String)>) -> Seq<(Seq<char>, Seq<char>)> {
    v.map_values(|p: (String, String)| (p.0@, p.1@))
}

fn keep_exec(line: &[char], removals: &Vec<Vec<char>>) -> (r: bool)
    ensures
        r == keep_hosts_line(line@, views(removals@)),
{
    let t = crate::text::trim_of(line);
    if crate::text::starts_with_str(&t, "#") || t.len() == 0 {
        return true;
    }
    let ws = crate::vhost_scan::words_exec(&t);
    let ghost rv = views(removals@);
    let mut j: usize = 1;
    while j < ws.len()
        invariant
            1 <= j,
            j <= ws.len() || j == 1,
            t@ == trim(line@),
            !starts_with(t@, "#"@),
            t@.len() > 0,
            views(ws@) == words(t@),
            rv == views(removals@),
            forall|a: int, k: int| 1 <= a < j && 0 <= k < rv.len() ==> #[trigger] views(ws@)[a] != #[trigger] rv[k],
        decreases ws.len() - j,
    {
        let mut k: usize = 0;
        while k < removals.len()
            invariant
                1 <= j < ws.len(),
                0 <= k <= removals.len(),
                rv == views(removals@),
                t@ == trim(line@),
                !starts_with(t@, "#"@),
                t@.len() > 0,
                views(ws@) == words(t@),
                forall|a: int, b: int| 1 <= a < j && 0 <= b < rv.len() ==> #[trigger] views(ws@)[a] != #[trigger] rv[b],
                forall|b: int| 0 <= b < k ==> views(ws@)[j as int] != #[trigger] rv[b],
            decreases removals.len() - k,
        {
            assert(views(ws@)[j as int] == ws@[j as int]@);
            assert(rv[k as int] == removals@[k as int]@);
            if crate::text::eq(&ws[j], &removals[k]) {
                assert(words(t@)[j as int] == rv[k as int]);
                return false;
            }
            k += 1;
        }
        j += 1;
    }
    true
}

fn has_entry_exec(ls: &Vec<Vec<char>>, e: &[char]) -> (r: bool)
    ensures
        r == has_entry(views(ls@), e@),
{
    let mut i: usize = 0;
    while i < ls.len()
        invariant
            i <= ls.len(),
            forall|j: int| 0 <= j < i ==> !(!starts_with(trim(#[trigger] views(ls@)[j]), "#"@) && trim(views(ls@)[j]) == e@),
        decreases ls.len() - i,
    {
        assert(views(ls@)[i as int] == ls@[i as int]@);
        let t = crate::text::trim_of(&ls[i]);
        if !crate::text::starts_with_str(&t, "#") && crate::text::eq(&t, e) {
            return true;
        }
        i += 1;
    }
    false
}

/// The new hosts text (see `spec_hosts_after_changes`).
pub fn hosts_after_changes(content: &str, additions: &Vec<(String, String)>, removals: &Vec<String>) -> (r: String)
    ensures
        r@ == spec_hosts_after_changes(content@, pairs_view(additions@), removals@.map_values(|s: String| s@)),
{
    let c = chars_of(content);
    let ls = crate::lineedit::lines_vec(&c);
    let mut rems: Vec<Vec<char>> = Vec::new();
    let mut k: usize = 0;
    while k < removals.len()
        invariant
            k <= removals.len(),
            rems@.len() == k,
            forall|j: int| 0 <= j < k ==> (#[trigger] rems@[j])@ == removals@[j]@,
        decreases removals.len() - k,
    {
        rems.push(chars_of(removals[k].as_str()));
        k += 1;
    }
    let ghost rv = removals@.map_values(|s: String| s@);
    assert(views(rems@) =~= rv);
    let mut kept: Vec<Vec<char>> = Vec::new();
    let mut i: usize = 0;
    while i < ls.len()
        invariant
            i <= ls.len(),
            views(ls@) == lines(c@),
            views(rems@) == rv,
            views(kept@) == kept_hosts_lines(views(ls@).take(i as int), rv),
        decreases ls.len() - i,
    {
        assert(views(ls@).take(i + 1).drop_last() == views(ls@).take(i as int));
        assert(views(ls@).take(i + 1).last() == ls@[i as int]@);
        if keep_exec(&ls[i], &rems) {
            let e = crate::text::slice_of(&ls[i], 0, ls[i].len());
            assert(e@ =~= ls@[i as int]@);
            kept.push(e);
        }
        assert(views(kept@) =~= kept_hosts_lines(views(ls@).take(i + 1), rv));
        i += 1;
    }
    assert(views(ls@).take(ls.len() as int) == views(ls@));
    let ghost base = views(kept@);
    let ghost av = pairs_view(additions@);
    let mut a: usize = 0;
    while a < additions.len()
        invariant
            a <= additions.len(),
            av == pairs_view(additions@),
            views(kept@) == add_entries(base, av.take(a as int)),
        decreases additions.len() - a,
    {
        assert(av.take(a + 1).drop_last() == av.take(a as int));
        assert(av.take(a + 1).last() == (additions@[a as int].0@, additions@[a as int].1@));
        let mut e = chars_of(additions[a].1.as_str());
        append_str(&mut e, " ");
        append(&mut e, &chars_of(additions[a].0.as_str()));
        if !has_entry_exec(&kept, &e) {
            let ghost before = views(kept@);
            kept.push(e);
            assert(views(kept@) =~= before.push(hosts_entry(additions@[a as int].1@, additions@[a as int].0@)));
        }
        a += 1;
    }
    assert(av.take(additions.len() as int) == av);
    let joined = crate::text::join_lines_of(&kept);
    let mut n = joined.len();
    assert(joined@.take(n as int) =~= joined@);
    while n > 0 && joined[n - 1] == '\n'
        invariant
            n <= joined.len(),
            trim_end_nl(joined@) == trim_end_nl(joined@.take(n as int)),
        decreases n,
    {
        assert(joined@.take(n as int).drop_last() == joined@.take(n - 1));
        n -= 1;
    }
    if n > 0 {
        assert(joined@.take(n as int).last() == joined@[n - 1]);
    }
    let mut out = crate::text::slice_of(&joined, 0, n);
    append_str(&mut out, "\n");
    string_of(&out)
}

/// Every entry asked for is in the lines written: adding a host name
/// always leaves an active `ip hostname` line for it.
pub proof fn law_added_entries_present(ls: Seq<Seq<char>>, additions: Seq<(Seq<char>, Seq<char>)>, j: int)
    requires
        0 <= j < additions.len(),
        crate::text::no_nl(hosts_entry(additions[j].1, additions[j].0)),
        !starts_with(hosts_entry(additions[j].1, additions[j].0), "#"@),
        trim(hosts_entry(additions[j].1, additions[j].0)) == hosts_entry(additions[j].1, additions[j].0),
    ensures
        has_entry(add_entries(ls, additions), hosts_entry(additions[j].1, additions[j].0)),
    decreases additions.len(),
{
    let e = hosts_entry(additions[j].1, additions[j].0);
    let r = add_entries(ls, additions.drop_last());
    if j < additions.len() - 1 {
        assert(additions.drop_last()[j] == additions[j]);
        law_added_entries_present(ls, additions.drop_last(), j);
        if !has_entry(r, hosts_entry(additions.last().1, additions.last().0)) {
            let i = choose|i: int| 0 <= i < r.len() && !starts_with(trim(#[trigger] r[i]), "#"@) && trim(r[i]) == e;
            let r2 = r.push(hosts_entry(additions.last().1, additions.last().0));
            assert(r2[i] == r[i]);
        }
    } else {
        if !has_entry(r, e) {
            let r2 = r.push(e);
            assert(r2[r.len() as int] == e);
        }
    }
}

/// No line that is kept names a removed host: every kept line passes the
/// removal test.
pub proof fn law_removed_hosts_gone(ls: Seq<Seq<char>>, removals: Seq<Seq<char>>)
    ensures
        forall|i: int|
            0 <= i < kept_hosts_lines(ls, removals).len() ==> keep_hosts_line(
                #[trigger] kept_hosts_lines(ls, removals)[i],
                removals,
            ),
    decreases ls.len(),
{
    if ls.len() > 0 {
        law_removed_hosts_gone(ls.drop_last(), removals);
        let r = kept_hosts_lines(ls.drop_last(), removals);
        assert forall|i: int| 0 <= i < kept_hosts_lines(ls, removals).len() implies keep_hosts_line(
            #[trigger] kept_hosts_lines(ls, removals)[i],
            removals,
        ) by {
            if i < r.len() {
                assert(kept_hosts_lines(ls, removals)[i] == r[i]);
            }
        }
    }
}

// ======================== Failures ========================

/// The user declined the elevation prompt, by the output of the elevated
/// command.
pub open spec fn declined(combined: Seq<char>) -> bool {
    contains(combined, "取消"@) || contains(unicode_lower(combined), "cancel"@) || contains(unicode_lower(combined), "declined"@)
}

/// The error of an elevated hosts write that failed with the given
/// output: declined, or failed with that output.
pub fn elevation_error(combined: &str) -> (r: NaxOneError)
    ensures
        declined(combined@) ==> (r matches NaxOneError::PermissionDenied(m) && m@ == "已取消（未确认管理员权限）"@),
        !declined(combined@) ==> (r matches NaxOneError::PermissionDenied(m) && m@ == "提权写 hosts 失败: "@ + combined@),
{
    let c = chars_of(combined);
    let l = chars_of(to_lowercase(combined).as_str());
    if crate::text::contains_str(&c, "取消") || crate::text::contains_str(&l, "cancel")
        || crate::text::contains_str(&l, "declined") {
        NaxOneError::PermissionDenied("已取消（未确认管理员权限）".to_owned())
    } else {
        let mut m = chars_of("提权写 hosts 失败: ");
        append_str(&mut m, combined);
        NaxOneError::PermissionDenied(string_of(&m))
    }
}

/// The name of the firewall rule for a port.
pub fn firewall_rule_name(port: u16) -> (r: String)
    ensures
        r@ == "NaxOne port "@ + crate::num::decimal(port as nat),
{
    let mut v = chars_of("NaxOne port ");
    append(&mut v, &crate::num::decimal_chars(port as u64));
    string_of(&v)
}

/// The output of a failed `netsh` asks for administrator rights.
pub open spec fn netsh_needs_admin(combined: Seq<char>) -> bool {
    ||| contains(unicode_lower(combined), "elevation"@)
    ||| contains(unicode_lower(combined), "access is denied"@)
    ||| contains(combined, "管理员"@)
    ||| contains(combined, "拒绝访问"@)
    ||| contains(combined, "需要"@)
}

/// The error of a failed `netsh` call with the given output.
pub fn classify_netsh_err(combined: &str) -> (r: NaxOneError)
    ensures
        netsh_needs_admin(combined@) ==> (r matches NaxOneError::PermissionDenied(m) && m@
            == "修改防火墙需要以管理员身份运行 NaxOne: "@ + combined@),
        !netsh_needs_admin(combined@) ==> (r matches NaxOneError::Process(m) && m@ == "netsh 执行失败: "@
            + combined@),
{
    let c = chars_of(combined);
    let l = chars_of(to_lowercase(combined).as_str());
    if crate::text::contains_str(&l, "elevation") || crate::text::contains_str(&l, "access is denied")
        || crate::text::contains_str(&c, "管理员") || crate::text::contains_str(&c, "拒绝访问")
        || crate::text::contains_str(&c, "需要") {
        let mut m = chars_of("修改防火墙需要以管理员身份运行 NaxOne: ");
        append_str(&mut m, combined);
        NaxOneError::PermissionDenied(string_of(&m))
    } else {
        let mut m = chars_of("netsh 执行失败: ");
        append_str(&mut m, combined);
        NaxOneError::Process(string_of(&m))
    }
}

/// Deleting a firewall rule that does not exist counts as done.
pub fn netsh_no_rule(combined: &str) -> (r: bool)
    ensures
        r == (contains(combined@, "No rules match"@) || contains(combined@, "找不到与指定条件相符的规则"@)
            || contains(combined@, "没有与指定条件匹配的规则"@)),
{
    let c = chars_of(combined);
    crate::text::contains_str(&c, "No rules match") || crate::text::contains_str(&c, "找不到与指定条件相符的规则")
        || crate::text::contains_str(&c, "没有与指定条件匹配的规则")
}

/// The Windows platform.
pub struct WindowsPlatform;

/// The Linux platform, where hosts editing is not supported yet.
pub struct LinuxPlatform;

impl WindowsPlatform {
    /// Where Windows keeps its hosts file.
    pub fn hosts_file_path() -> (r: &'static str)
        ensures
            r@ == "C:\\Windows\\System32\\drivers\\etc\\hosts"@,
    {
        "C:\\Windows\\System32\\drivers\\etc\\hosts"
    }
}

impl LinuxPlatform {
    /// Where Linux keeps its hosts file.
    pub fn hosts_file_path() -> (r: &'static str)
        ensures
            r@ == "/etc/hosts"@,
    {
        "/etc/hosts"
    }

    /// Nothing to do is fine; any change is refused as not supported.
    pub fn apply_hosts_changes(additions: &Vec<(String, String)>, removals: &Vec<String>) -> (r: Result<(), NaxOneError>)
        ensures
            (additions@.len() == 0 && removals@.len() == 0) <==> (r is Ok),
            r matches Err(e) ==> (e matches NaxOneError::Process(m) && m@ == "Linux support not yet implemented"@),
    {
        if additions.len() == 0 && removals.len() == 0 {
            Ok(())
        } else {
            Err(NaxOneError::Process("Linux support not yet implemented".to_owned()))
        }
    }
}

} // verus!

verus! {

// ======================== The elevated write ========================

/// A path quoted for a PowerShell double-quoted string: every `"` becomes
/// ``` ``" ```.
pub open spec fn ps_quote(s: Seq<char>) -> Seq<char>
    decreases s.len(),
{
    if s.len() == 0 {
        Seq::empty()
    } else {
        ps_quote(s.drop_last()) + if s.last() == '"' { seq!['`', '`', '"'] } else { seq![s.last()] }
    }
}

fn ps_quote_exec(s: &str) -> (r: Vec<char>)
    ensures
        r@ == ps_quote(s@),
{
    let c = chars_of(s);
    let mut r: Vec<char> = Vec::new();
    let mut i: usize = 0;
    while i < c.len()
        invariant
            i <= c.len(),
            c@ == s@,
            r@ == ps_quote(c@.take(i as int)),
        decreases c.len() - i,
    {
        assert(c@.take(i + 1).drop_last() =~= c@.take(i as int));
        if c[i] == '"' {
            r.push('`');
            r.push('`');
            r.push('"');
        } else {
            r.push(c[i]);
        }
        let ghost r1 = r@;
        i += 1;
        assert(r1 =~= ps_quote(c@.take(i as int)));
    }
    assert(c@.take(c.len() as int) =~= c@);
    r
}

/// The script run elevated to copy the prepared file over the hosts file.
pub open spec fn spec_copy_script(src: Seq<char>, dst: Seq<char>) -> Seq<char> {
    "$ErrorActionPreference = 'Stop'\nCopy-Item -LiteralPath \""@ + ps_quote(src) + "\" -Destination \""@
        + ps_quote(dst) + "\" -Force\n"@
}

/// The script run elevated to copy `src` over `dst`.
pub fn copy_script(src: &str, dst: &str) -> (r: String)
    ensures
        r@ == spec_copy_script(src@, dst@),
{
    let mut m = chars_of("$ErrorActionPreference = 'Stop'\nCopy-Item -LiteralPath \"");
    append(&mut m, &ps_quote_exec(src));
    append_str(&mut m, "\" -Destination \"");
    append(&mut m, &ps_quote_exec(dst));
    append_str(&mut m, "\" -Force\n");
    string_of(&m)
}

/// The script run elevated to save edited hosts text at `dst` from `src`,
/// keeping a byte-order mark when the file had one.
pub open spec fn spec_bom_keeping_script(src: Seq<char>, dst: Seq<char>) -> Seq<char> {
    "$ErrorActionPreference = 'Stop'\n$src = \""@ + ps_quote(src) + "\"\n$dst = \""@ + ps_quote(dst)
        + "\"\n$old = [IO.File]::ReadAllBytes($dst)\n$bom = $old.Length -ge 3 -and $old[0] -eq 239 -and $old[1] -eq 187 -and $old[2] -eq 191\n$txt = Get-Content -Raw -LiteralPath $src\nif ($bom) {\n  [IO.File]::WriteAllBytes($dst, [Text.Encoding]::UTF8.GetPreamble() + [Text.Encoding]::UTF8.GetBytes($txt))\n} else {\n  [IO.File]::WriteAllText($dst, $txt, [Text.UTF8Encoding]::new($false))\n}\n"@
}

/// The script run elevated to save edited hosts text.
pub fn bom_keeping_script(src: &str, dst: &str) -> (r: String)
    ensures
        r@ == spec_bom_keeping_script(src@, dst@),
{
    let mut m = chars_of("$ErrorActionPreference = 'Stop'\n$src = \"");
    append(&mut m, &ps_quote_exec(src));
    append_str(&mut m, "\"\n$dst = \"");
    append(&mut m, &ps_quote_exec(dst));
    append_str(&mut m, "\"\n$old = [IO.File]::ReadAllBytes($dst)\n$bom = $old.Length -ge 3 -and $old[0] -eq 239 -and $old[1] -eq 187 -and $old[2] -eq 191\n$txt = Get-Content -Raw -LiteralPath $src\nif ($bom) {\n  [IO.File]::WriteAllBytes($dst, [Text.Encoding]::UTF8.GetPreamble() + [Text.Encoding]::UTF8.GetBytes($txt))\n} else {\n  [IO.File]::WriteAllText($dst, $txt, [Text.UTF8Encoding]::new($false))\n}\n");
    string_of(&m)
}

/// The PowerShell command that runs a script elevated and waits for it.
pub open spec fn spec_elevated_launcher(script_path: Seq<char>) -> Seq<char> {
    "Start-Process powershell -Verb RunAs -Wait -WindowStyle Hidden -ArgumentList '-NoProfile','-ExecutionPolicy','Bypass','-File','"@
        + ps_quote(script_path) + "'"@
}

/// The arguments given to `powershell` to run `script_path` elevated.
pub fn elevated_powershell_args(script_path: &str) -> (r: Vec<String>)
    ensures
        r@.map_values(|s: String| s@) == seq![
            "-NoProfile"@,
            "-NonInteractive"@,
            "-ExecutionPolicy"@,
            "Bypass"@,
            "-Command"@,
            spec_elevated_launcher(script_path@),
        ],
{
    let mut l = chars_of("Start-Process powershell -Verb RunAs -Wait -WindowStyle Hidden -ArgumentList '-NoProfile','-ExecutionPolicy','Bypass','-File','");
    append(&mut l, &ps_quote_exec(script_path));
    append_str(&mut l, "'");
    let mut r: Vec<String> = Vec::new();
    r.push(string_of(&chars_of("-NoProfile")));
    r.push(string_of(&chars_of("-NonInteractive")));
    r.push(string_of(&chars_of("-ExecutionPolicy")));
    r.push(string_of(&chars_of("Bypass")));
    r.push(string_of(&chars_of("-Command")));
    r.push(string_of(&l));
    assert(r@.map_values(|s: String| s@) =~= seq![
        "-NoProfile"@,
        "-NonInteractive"@,
        "-ExecutionPolicy"@,
        "Bypass"@,
        "-Command"@,
        spec_elevated_launcher(script_path@),
    ]);
    r
}

/// The message of an elevated save of edited hosts text that failed with
/// the given output.
pub fn elevated_save_error(combined: &str) -> (r: String)
    ensures
        declined(combined@) ==> r@ == "已取消（未确认管理员权限）"@,
        !declined(combined@) ==> r@ == "提权保存失败: "@ + combined@,
{
    let c = chars_of(combined);
    let l = chars_of(to_lowercase(combined).as_str());
    if crate::text::contains_str(&c, "取消") || crate::text::contains_str(&l, "cancel")
        || crate::text::contains_str(&l, "declined") {
        string_of(&chars_of("已取消（未确认管理员权限）"))
    } else {
        let mut m = chars_of("提权保存失败: ");
        append_str(&mut m, combined);
        string_of(&m)
    }
}

} // verus!
