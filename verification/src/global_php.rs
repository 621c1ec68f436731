//! The global PHP command line: `%VAR%` expansion of `PATH` entries, the
//! system `PATH` entries that hide the shims, and the elevated script that
//! takes them out.

use vstd::prelude::*;
use vstd::utf8::encode_utf8;
use crate::text::{append, append_str, chars_of, split_char, string_of, trim, views};
use crate::paths::norm_path;

verus! {

// ======================== %VAR% expansion ========================

/// The byte of `%`.
pub open spec fn percent() -> u8 {
    37u8
}

/// A byte in ASCII lower case.
pub open spec fn lower_byte(b: u8) -> u8 {
    if 65 <= b <= 90 {
        (b + 32) as u8
    } else {
        b
    }
}

/// Two variable names are the same but for ASCII case.
pub open spec fn same_name(a: Seq<u8>, b: Seq<u8>) -> bool {
    a.len() == b.len() && forall|i: int| 0 <= i < a.len() ==> lower_byte(#[trigger] a[i]) == lower_byte(b[i])
}

/// The value of the variable `name`: that of the first entry of `vars`
/// with the same name, ASCII case aside.
pub open spec fn env_lookup(vars: Seq<(Seq<u8>, Seq<char>)>, name: Seq<u8>) -> Option<Seq<char>>
    decreases vars.len(),
{
    if vars.len() == 0 {
        None
    } else if same_name(vars[0].0, name) {
        Some(vars[0].1)
    } else {
        env_lookup(vars.drop_first(), name)
    }
}

/// The environment as names (their UTF-8 bytes) and values.
pub open spec fn env_views(v: Seq<(String, String)>) -> Seq<(Seq<u8>, Seq<char>)> {
    v.map_values(|p: (String, String)| (encode_utf8(p.0@), p.1@))
}

/// The index of the first `%` at or after `from`.
pub open spec fn next_percent(s: Seq<u8>, from: int) -> Option<int>
    decreases s.len() - from,
{
    if from < 0 || from >= s.len() {
        None
    } else if s[from] == percent() {
        Some(from)
    } else {
        next_percent(s, from + 1)
    }
}

/// The bytes of `s` from `i` on with each `%NAME%` whose variable is set
/// replaced by its value; every other byte is taken as the char of that
/// code (a byte of a multi-byte character stays apart).
pub open spec fn expand_from(s: Seq<u8>, vars: Seq<(Seq<u8>, Seq<char>)>, i: int) -> Seq<char>
    decreases s.len() - i,
{
    if i < 0 || i >= s.len() {
        Seq::empty()
    } else {
        let lit = seq![s[i] as char];
        if s[i] == percent() {
            match next_percent(s, i + 1) {
                Some(e) => if i + 1 < e < s.len() && env_lookup(vars, s.subrange(i + 1, e)) is Some {
                    env_lookup(vars, s.subrange(i + 1, e)).unwrap() + expand_from(s, vars, e + 1)
                } else {
                    lit + expand_from(s, vars, i + 1)
                },
                None => lit + expand_from(s, vars, i + 1),
            }
        } else {
            lit + expand_from(s, vars, i + 1)
        }
    }
}

proof fn lemma_next_percent(s: Seq<u8>, from: int)
    requires
        from >= 0,
    ensures
        match next_percent(s, from) {
            Some(e) => from <= e < s.len() && s[e] == percent() && forall|k: int|
                from <= k < e ==> s[k] != percent(),
            None => forall|k: int| from <= k < s.len() ==> s[k] != percent(),
        },
    decreases s.len() - from,
{
    if from >= 0 && from < s.len() && s[from] != percent() {
        lemma_next_percent(s, from + 1);
    }
}

fn find_percent(b: &[u8], from: usize) -> (r: Option<usize>)
    requires
        from <= b.len(),
    ensures
        match r {
            Some(e) => next_percent(b@, from as int) == Some(e as int),
            None => next_percent(b@, from as int) is None,
        },
{
    let mut k = from;
    while k < b.len()
        invariant
            from <= k <= b.len(),
            next_percent(b@, from as int) == next_percent(b@, k as int),
        decreases b.len() - k,
    {
        if b[k] == 37u8 {
            return Some(k);
        }
        k += 1;
    }
    None
}

fn lower_byte_exec(x: u8) -> (r: u8)
    ensures
        r == lower_byte(x),
{
    if 65 <= x && x <= 90 {
        x + 32
    } else {
        x
    }
}

fn same_name_exec(a: &[u8], b: &[u8], lo: usize, hi: usize) -> (r: bool)
    requires
        lo <= hi <= b.len(),
    ensures
        r == same_name(a@, b@.subrange(lo as int, hi as int)),
{
    if a.len() != hi - lo {
        return false;
    }
    let mut k: usize = 0;
    while k < a.len()
        invariant
            k <= a.len(),
            a.len() == hi - lo,
            lo <= hi <= b.len(),
            forall|j: int| 0 <= j < k ==> lower_byte(#[trigger] a@[j]) == lower_byte(b@[lo + j]),
        decreases a.len() - k,
    {
        if lower_byte_exec(a[k]) != lower_byte_exec(b[lo + k]) {
            assert(!same_name(a@, b@.subrange(lo as int, hi as int)) ) by {
                assert(b@.subrange(lo as int, hi as int)[k as int] == b@[lo + k]);
            }
            return false;
        }
        k += 1;
    }
    assert(same_name(a@, b@.subrange(lo as int, hi as int))) by {
        assert forall|j: int| 0 <= j < a@.len() implies lower_byte(#[trigger] a@[j]) == lower_byte(
            b@.subrange(lo as int, hi as int)[j],
        ) by {
            assert(b@.subrange(lo as int, hi as int)[j] == b@[lo + j]);
        }
    }
    true
}

fn lookup_var(vars: &[(String, String)], b: &[u8], lo: usize, hi: usize) -> (r: Option<Vec<char>>)
    requires
        lo <= hi <= b.len(),
    ensures
        match r {
            Some(v) => env_lookup(env_views(vars@), b@.subrange(lo as int, hi as int)) == Some(v@),
            None => env_lookup(env_views(vars@), b@.subrange(lo as int, hi as int)) is None,
        },
{
    let ghost name = b@.subrange(lo as int, hi as int);
    let ghost ev = env_views(vars@);
    let mut k: usize = 0;
    assert(ev.skip(0) =~= ev);
    while k < vars.len()
        invariant
            k <= vars.len(),
            lo <= hi <= b.len(),
            name == b@.subrange(lo as int, hi as int),
            ev == env_views(vars@),
            env_lookup(ev, name) == env_lookup(ev.skip(k as int), name),
        decreases vars.len() - k,
    {
        let nb = vars[k].0.as_str().as_bytes();
        assert(ev.skip(k as int)[0] == ev[k as int]);
        assert(ev.skip(k as int).drop_first() =~= ev.skip(k + 1));
        if same_name_exec(nb, b, lo, hi) {
            return Some(chars_of(vars[k].1.as_str()));
        }
        k += 1;
    }
    assert(ev.skip(vars.len() as int).len() == 0);
    None
}

/// `s` with each `%NAME%` replaced by the value of the variable `NAME`
/// in `vars`, names compared without regard to ASCII case; a reference
/// to an unset variable, an empty `%%` or a lone `%` stays as it is. The
/// text is read byte by byte, each byte that is kept becoming the char of
/// that code.
pub fn expand_env_vars(s: &str, vars: &[(String, String)]) -> (r: String)
    ensures
        r@ == expand_from(encode_utf8(s@), env_views(vars@), 0),
{
    let b = s.as_bytes();
    let ghost ev = env_views(vars@);
    let mut out: Vec<char> = Vec::new();
    let mut i: usize = 0;
    while i < b.len()
        invariant
            i <= b.len(),
            b@ == encode_utf8(s@),
            ev == env_views(vars@),
            out@ + expand_from(b@, ev, i as int) == expand_from(b@, ev, 0),
        decreases b.len() - i,
    {
        if b[i] == 37u8 {
            let found = find_percent(b, i + 1);
            proof {
                lemma_next_percent(b@, i + 1);
            }
            if let Some(e) = found {
                if e > i + 1 {
                    if let Some(v) = lookup_var(vars, b, i + 1, e) {
                        let ghost before = out@;
                        append(&mut out, &v);
                        assert(out@ + expand_from(b@, ev, e + 1) =~= before + expand_from(b@, ev, i as int));
                        i = e + 1;
                        continue;
                    }
                }
            }
        }
        let ghost before = out@;
        out.push(b[i] as char);
        assert(out@ + expand_from(b@, ev, i + 1) =~= before + expand_from(b@, ev, i as int));
        i += 1;
    }
    assert(out@ =~= out@ + expand_from(b@, ev, i as int));
    string_of(&out)
}

} // verus!

verus! {

// ======================== Entries that hide the shims ========================

/// The system `PATH` entries that may hide the shims, in order: each
/// non-blank entry, trimmed and with its `%VAR%` references expanded,
/// unless it is the shim directory itself (compared as `PATH` entries).
/// The caller keeps those that hold a `php.exe`.
pub open spec fn masking_entries(parts: Seq<Seq<char>>, bin: Seq<char>, vars: Seq<(Seq<u8>, Seq<char>)>) -> Seq<Seq<char>>
    decreases parts.len(),
{
    if parts.len() == 0 {
        Seq::empty()
    } else {
        let r = masking_entries(parts.drop_last(), bin, vars);
        let t = trim(parts.last());
        if t.len() == 0 {
            r
        } else {
            let e = expand_from(encode_utf8(t), vars, 0);
            if norm_path(e) == norm_path(bin) {
                r
            } else {
                r.push(e)
            }
        }
    }
}

/// The entries of the system `PATH` value that may hide the shims in
/// `bin_dir` (see `masking_entries`).
pub fn masking_candidates(system_path: &str, bin_dir: &str, vars: &[(String, String)]) -> (r: Vec<String>)
    ensures
        r@.map_values(|s: String| s@) == masking_entries(split_char(system_path@, ';'), bin_dir@, env_views(vars@)),
{
    let parts = crate::text::split_char_exec(&chars_of(system_path), ';');
    let nb = crate::paths::normalize_path(bin_dir);
    let ghost ps = split_char(system_path@, ';');
    let ghost ev = env_views(vars@);
    let mut out: Vec<String> = Vec::new();
    let mut i: usize = 0;
    while i < parts.len()
        invariant
            i <= parts.len(),
            views(parts@) == ps,
            ps == split_char(system_path@, ';'),
            ev == env_views(vars@),
            nb@ == norm_path(bin_dir@),
            out@.map_values(|s: String| s@) == masking_entries(ps.take(i as int), bin_dir@, ev),
        decreases parts.len() - i,
    {
        assert(ps.take(i + 1).drop_last() =~= ps.take(i as int));
        assert(ps.take(i + 1).last() == parts@[i as int]@);
        let t = crate::text::trim_of(&parts[i]);
        if t.len() > 0 {
            let ts = string_of(&t);
            let e = expand_env_vars(ts.as_str(), vars);
            let ne = crate::paths::normalize_path(e.as_str());
            if !crate::text::eq(&chars_of(ne.as_str()), &chars_of(nb.as_str())) {
                out.push(e);
            }
        }
        assert(out@.map_values(|s: String| s@) =~= masking_entries(ps.take(i + 1), bin_dir@, ev));
        i += 1;
    }
    assert(ps.take(parts.len() as int) =~= ps);
    out
}

// ======================== The elevated fix ========================

/// Text in a PowerShell single-quoted string: each `'` doubled.
pub open spec fn ps_single(s: Seq<char>) -> Seq<char>
    decreases s.len(),
{
    if s.len() == 0 {
        Seq::empty()
    } else {
        ps_single(s.drop_last()) + if s.last() == '\'' { seq!['\'', '\''] } else { seq![s.last()] }
    }
}

fn ps_single_exec(s: &str) -> (r: Vec<char>)
    ensures
        r@ == ps_single(s@),
{
    let c = chars_of(s);
    let mut r: Vec<char> = Vec::new();
    let mut i: usize = 0;
    while i < c.len()
        invariant
            i <= c.len(),
            c@ == s@,
            r@ == ps_single(c@.take(i as int)),
        decreases c.len() - i,
    {
        assert(c@.take(i + 1).drop_last() =~= c@.take(i as int));
        if c[i] == '\'' {
            r.push('\'');
            r.push('\'');
        } else {
            r.push(c[i]);
        }
        let ghost r1 = r@;
        i += 1;
        assert(r1 =~= ps_single(c@.take(i as int)));
    }
    assert(c@.take(c.len() as int) =~= c@);
    r
}

/// The directories as items of a PowerShell array: each single-quoted,
/// separated by `, `.
pub open spec fn ps_items(ps: Seq<Seq<char>>) -> Seq<char>
    decreases ps.len(),
{
    if ps.len() == 0 {
        Seq::empty()
    } else if ps.len() == 1 {
        "'"@ + ps_single(ps[0]) + "'"@
    } else {
        ps_items(ps.drop_last()) + ", '"@ + ps_single(ps.last()) + "'"@
    }
}

/// The head of the elevated script, up to the array of directories.
pub open spec fn fix_script_head() -> Seq<char> {
    "$ErrorActionPreference = 'Stop'\n$current = [Environment]::GetEnvironmentVariable('Path', 'Machine')\n$toRemove = @("@
}

/// The rest of the elevated script: it keeps the system `PATH` entries
/// that differ from every listed directory (trimmed, `/` as `\`, without
/// trailing `\`, in lower case), writes `PATH` back and tells the other
/// windows that the environment changed.
pub open spec fn fix_script_tail() -> Seq<char> {
    ")\n$normalize = { param($s) ($s.Trim() -replace '/', '\\').TrimEnd('\\').ToLower() }\n$removeSet = $toRemove | ForEach-Object { & $normalize $_ }\n$kept = @()\nforeach ($entry in $current -split ';') {\n    $trimmed = $entry.Trim()\n    if ($trimmed -eq '') { continue }\n    if ($removeSet -contains (& $normalize $trimmed)) { continue }\n    $kept += $trimmed\n}\n$newPath = $kept -join ';'\n[Environment]::SetEnvironmentVariable('Path', $newPath, 'Machine')\n# 广播环境变量变化\nAdd-Type @\"\nusing System;\nusing System.Runtime.InteropServices;\npublic static class Env {\n    [DllImport(\"user32.dll\", CharSet=CharSet.Auto)]\n    public static extern IntPtr SendMessageTimeout(IntPtr hWnd, uint Msg, UIntPtr wParam, string lParam, uint fuFlags, uint uTimeout, out UIntPtr lpdwResult);\n}\n\"@\n[UIntPtr]$result = [UIntPtr]::Zero\n[Env]::SendMessageTimeout([IntPtr]0xffff, 0x1A, [UIntPtr]::Zero, 'Environment', 2, 3000, [ref]$result) | Out-Null\n"@
}

/// The script that takes `dirs` out of the system `PATH`.
pub open spec fn spec_fix_script(dirs: Seq<Seq<char>>) -> Seq<char> {
    fix_script_head() + ps_items(dirs) + fix_script_tail()
}

/// The script run elevated to take the directories out of the system
/// `PATH`, or `None` when there are none (nothing to do).
pub fn masking_fix_script(to_remove: &[String]) -> (r: Option<String>)
    ensures
        to_remove.len() == 0 <==> r is None,
        r matches Some(s) ==> s@ == spec_fix_script(to_remove@.map_values(|p: String| p@)),
{
    if to_remove.len() == 0 {
        return None;
    }
    let ghost ds = to_remove@.map_values(|p: String| p@);
    let mut items: Vec<char> = Vec::new();
    let mut i: usize = 0;
    while i < to_remove.len()
        invariant
            i <= to_remove.len(),
            ds == to_remove@.map_values(|p: String| p@),
            items@ == ps_items(ds.take(i as int)),
        decreases to_remove.len() - i,
    {
        assert(ds.take(i + 1).drop_last() =~= ds.take(i as int));
        assert(ds.take(i + 1).last() == to_remove@[i as int]@);
        if i > 0 {
            append_str(&mut items, ", ");
        }
        append_str(&mut items, "'");
        append(&mut items, &ps_single_exec(to_remove[i].as_str()));
        append_str(&mut items, "'");
        proof {
            reveal_strlit(", ");
            reveal_strlit("'");
            reveal_strlit(", '");
            if i == 0 {
                assert(ds.take(1).len() == 1);
                assert(ds.take(1)[0] == to_remove@[0]@);
            }
        }
        assert(items@ =~= ps_items(ds.take(i + 1)));
        i += 1;
    }
    assert(ds.take(to_remove.len() as int) =~= ds);
    let mut s = chars_of("$ErrorActionPreference = 'Stop'\n$current = [Environment]::GetEnvironmentVariable('Path', 'Machine')\n$toRemove = @(");
    append(&mut s, &items);
    append_str(&mut s, ")\n$normalize = { param($s) ($s.Trim() -replace '/', '\\').TrimEnd('\\').ToLower() }\n$removeSet = $toRemove | ForEach-Object { & $normalize $_ }\n$kept = @()\nforeach ($entry in $current -split ';') {\n    $trimmed = $entry.Trim()\n    if ($trimmed -eq '') { continue }\n    if ($removeSet -contains (& $normalize $trimmed)) { continue }\n    $kept += $trimmed\n}\n$newPath = $kept -join ';'\n[Environment]::SetEnvironmentVariable('Path', $newPath, 'Machine')\n# 广播环境变量变化\nAdd-Type @\"\nusing System;\nusing System.Runtime.InteropServices;\npublic static class Env {\n    [DllImport(\"user32.dll\", CharSet=CharSet.Auto)]\n    public static extern IntPtr SendMessageTimeout(IntPtr hWnd, uint Msg, UIntPtr wParam, string lParam, uint fuFlags, uint uTimeout, out UIntPtr lpdwResult);\n}\n\"@\n[UIntPtr]$result = [UIntPtr]::Zero\n[Env]::SendMessageTimeout([IntPtr]0xffff, 0x1A, [UIntPtr]::Zero, 'Environment', 2, 3000, [ref]$result) | Out-Null\n");
    Some(string_of(&s))
}

/// The PowerShell command that runs the fix script elevated and waits.
pub open spec fn spec_fix_launcher(script_path: Seq<char>) -> Seq<char> {
    "Start-Process powershell -Verb RunAs -Wait -WindowStyle Hidden -ArgumentList '-NoProfile','-ExecutionPolicy','Bypass','-File','"@
        + ps_single(script_path) + "'"@
}

/// The arguments given to `powershell` to run the fix script elevated.
pub fn masking_fix_args(script_path: &str) -> (r: Vec<String>)
    ensures
        r@.map_values(|s: String| s@) == seq![
            "-NoProfile"@,
            "-NonInteractive"@,
            "-ExecutionPolicy"@,
            "Bypass"@,
            "-Command"@,
            spec_fix_launcher(script_path@),
        ],
{
    let mut l = chars_of("Start-Process powershell -Verb RunAs -Wait -WindowStyle Hidden -ArgumentList '-NoProfile','-ExecutionPolicy','Bypass','-File','");
    append(&mut l, &ps_single_exec(script_path));
    append_str(&mut l, "'");
    let mut r: Vec<String> = Vec::new();
    r.push(string_of(&chars_of("-NoProfile")));
    r.push(string_of(&chars_of("-NonInteractive")));
    r.push(string_of(&chars_of("-ExecutionPolicy")));
    r.push(string_of(&chars_of("Bypass")));
    r.push(string_of(&chars_of("-Command")));
    r.push(string_of(&l));
    assert(r@.map_values(|s: String| s@) =~= seq![
        "-NoProfile"@,
        "-NonInteractive"@,
        "-ExecutionPolicy"@,
        "Bypass"@,
        "-Command"@,
        spec_fix_launcher(script_path@),
    ]);
    r
}

/// The user turned the elevation prompt down, by the launcher's output.
pub open spec fn fix_declined(combined: Seq<char>) -> bool {
    crate::text::contains(combined, "取消"@) || crate::text::contains(crate::strangers::unicode_lower(combined), "cancel"@)
        || crate::text::contains(crate::strangers::unicode_lower(combined), "user declined"@)
}

/// What the elevated fix came to: `Ok` when the launcher succeeded; else
/// the trimmed standard output and error run together tell whether the
/// user declined or the fix failed.
pub fn masking_fix_outcome(success: bool, stdout: &str, stderr: &str) -> (r: Result<(), String>)
    ensures
        success <==> r is Ok,
        r matches Err(m) ==> {
            let combined = trim(stdout@) + trim(stderr@);
            if fix_declined(combined) {
                m@ == "已取消（未确认管理员权限）"@
            } else {
                m@ == "修复失败: "@ + combined
            }
        },
{
    if success {
        return Ok(());
    }
    let mut c = crate::text::trim_of(&chars_of(stdout));
    append(&mut c, &crate::text::trim_of(&chars_of(stderr)));
    let l = chars_of(crate::strangers::to_lowercase(string_of(&c).as_str()).as_str());
    if crate::text::contains_str(&c, "取消") || crate::text::contains_str(&l, "cancel")
        || crate::text::contains_str(&l, "user declined") {
        Err(string_of(&chars_of("已取消（未确认管理员权限）")))
    } else {
        let mut m = chars_of("修复失败: ");
        append(&mut m, &c);
        Err(string_of(&m))
    }
}

} // verus!

verus! {

// ======================== The command-line shims ========================

/// The executables given a shim: the source file in the PHP directory and
/// the `.cmd` file written for it.
pub open spec fn shim_pairs() -> Seq<(Seq<char>, Seq<char>)> {
    seq![("php.exe"@, "php.cmd"@), ("php-cgi.exe"@, "php-cgi.cmd"@), ("phpize.bat"@, "phpize.cmd"@)]
}

/// The names of the shim files, all removed before new ones are written.
pub fn shim_names() -> (r: Vec<String>)
    ensures
        r@.map_values(|s: String| s@) == shim_pairs().map_values(|p: (Seq<char>, Seq<char>)| p.1),
{
    let mut r: Vec<String> = Vec::new();
    r.push(string_of(&chars_of("php.cmd")));
    r.push(string_of(&chars_of("php-cgi.cmd")));
    r.push(string_of(&chars_of("phpize.cmd")));
    assert(r@.map_values(|s: String| s@) =~= shim_pairs().map_values(|p: (Seq<char>, Seq<char>)| p.1));
    r
}

/// A shim: quiet, it runs `source` with all the arguments it was given.
pub open spec fn spec_shim_content(source: Seq<char>) -> Seq<char> {
    "@echo off\r\n\""@ + source + "\" %*\r\n"@
}

/// The shims to write for the PHP in `php_dir`, as file name and content,
/// for the sources that exist there (`present`, in the order of
/// `shim_pairs`).
pub open spec fn spec_shim_writes(php_dir: Seq<char>, present: Seq<bool>) -> Seq<(Seq<char>, Seq<char>)>
    decreases present.len(),
{
    if present.len() == 0 || present.len() > 3 {
        Seq::empty()
    } else {
        let r = spec_shim_writes(php_dir, present.drop_last());
        let k = present.len() - 1;
        if present.last() {
            r.push((shim_pairs()[k].1, spec_shim_content(crate::paths::win_join(php_dir, shim_pairs()[k].0))))
        } else {
            r
        }
    }
}

/// The shims to write for the PHP in `php_dir` (see `spec_shim_writes`).
pub fn shim_writes(php_dir: &str, present: &[bool]) -> (r: Vec<(String, String)>)
    requires
        present.len() == 3,
    ensures
        r@.map_values(|p: (String, String)| (p.0@, p.1@)) == spec_shim_writes(php_dir@, present@),
{
    let d = chars_of(php_dir);
    let mut r: Vec<(String, String)> = Vec::new();
    let mut i: usize = 0;
    while i < 3
        invariant
            i <= 3,
            present.len() == 3,
            d@ == php_dir@,
            r@.map_values(|p: (String, String)| (p.0@, p.1@)) == spec_shim_writes(php_dir@, present@.take(i as int)),
        decreases 3 - i,
    {
        assert(present@.take(i + 1).drop_last() =~= present@.take(i as int));
        let (src, shim) = if i == 0 {
            ("php.exe", "php.cmd")
        } else if i == 1 {
            ("php-cgi.exe", "php-cgi.cmd")
        } else {
            ("phpize.bat", "phpize.cmd")
        };
        assert(src@ == shim_pairs()[i as int].0 && shim@ == shim_pairs()[i as int].1);
        if present[i] {
            let path = crate::paths::win_join_exec(&d, &chars_of(src));
            let mut c = chars_of("@echo off\r\n\"");
            append(&mut c, &path);
            append_str(&mut c, "\" %*\r\n");
            r.push((string_of(&chars_of(shim)), string_of(&c)));
        }
        assert(r@.map_values(|p: (String, String)| (p.0@, p.1@)) =~= spec_shim_writes(php_dir@, present@.take(i + 1)));
        i += 1;
    }
    assert(present@.take(3) =~= present@);
    r
}

/// The executable a shim runs: the text between its first two `"`.
pub open spec fn spec_shim_target(content: Seq<char>) -> Option<Seq<char>> {
    match crate::text::find_char(content, '"') {
        Some(a) => {
            let rest = content.skip(a + 1);
            match crate::text::find_char(rest, '"') {
                Some(b) => Some(rest.take(b)),
                None => None,
            }
        },
        None => None,
    }
}

/// The PHP directory the `php.cmd` shim points at: the directory of the
/// executable it runs, or `None` when the text names none.
pub open spec fn spec_active_php_dir(content: Seq<char>) -> Option<Seq<char>> {
    match spec_shim_target(content) {
        Some(exe) => if exe.len() == 0 {
            None
        } else {
            Some(crate::system_scan::win_parent(exe))
        },
        None => None,
    }
}

/// The PHP directory read back from the content of `php.cmd`.
pub fn active_php_dir(content: &str) -> (r: Option<String>)
    ensures
        match r {
            Some(d) => spec_active_php_dir(content@) == Some(d@),
            None => spec_active_php_dir(content@) is None,
        },
{
    let c = chars_of(content);
    let a = match crate::text::find_char_exec(&c, '"') {
        Some(a) => a,
        None => return None,
    };
    let rest = crate::text::slice_of(&c, a + 1, c.len());
    assert(rest@ =~= content@.skip(a + 1));
    let b = match crate::text::find_char_exec(&rest, '"') {
        Some(b) => b,
        None => return None,
    };
    let exe = crate::text::slice_of(&rest, 0, b);
    assert(exe@ =~= rest@.take(b as int));
    if exe.len() == 0 {
        return None;
    }
    Some(string_of(&crate::system_scan::win_parent_exec(&exe)))
}

} // verus!
