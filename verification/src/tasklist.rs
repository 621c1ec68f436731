//! Reading the output of `tasklist /FO CSV` and `netstat -ano`: process
//! memory, CSV fields, and which process listens on which port.

use vstd::prelude::*;
use crate::text::{chars_of, string_of, trim, trim_of, trim_end_char, views, lines, lines_of, contains, contains_str, slice_of};
use crate::num::{parse_unsigned, parse_unsigned_exec};
use crate::vhost_scan::{words, words_exec, rfind_char, rfind_char_exec};

verus! {

/// The ASCII digits of `s`, in order.
pub open spec fn keep_digits(s: Seq<char>) -> Seq<char>
    decreases s.len(),
{
    if s.len() == 0 {
        s
    } else if '0' <= s.last() && s.last() <= '9' {
        keep_digits(s.drop_last()).push(s.last())
    } else {
        keep_digits(s.drop_last())
    }
}

/// The digits of a `Mem Usage` field such as `12,345 K`.
pub open spec fn mem_digits(raw: Seq<char>) -> Seq<char> {
    keep_digits(trim(trim_end_char(trim_end_char(trim(raw), 'K'), ' ')))
}

/// The memory in megabytes, rounded to nearest: `12,345 K` → 12, `512 K`
/// → 1; `None` when there are no digits or they exceed `u64`.
pub open spec fn spec_tasklist_memory(raw: Seq<char>) -> Option<nat> {
    match parse_unsigned(mem_digits(raw), 0xffff_ffff_ffff_ffff) {
        Some(kb) => Some(((kb + 512) / 1024) as nat),
        None => None,
    }
}

fn keep_digits_exec(s: &[char]) -> (r: Vec<char>)
    ensures
        r@ == keep_digits(s@),
{
    let mut r: Vec<char> = Vec::new();
    let mut i: usize = 0;
    while i < s.len()
        invariant
            i <= s.len(),
            r@ == keep_digits(s@.take(i as int)),
        decreases s.len() - i,
    {
        assert(s@.take(i + 1).drop_last() == s@.take(i as int));
        assert(s@.take(i + 1).last() == s@[i as int]);
        if '0' <= s[i] && s[i] <= '9' {
            r.push(s[i]);
        }
        i += 1;
    }
    assert(s@.take(s.len() as int) == s@);
    r
}

fn mem_digits_exec(raw: &[char]) -> (r: Vec<char>)
    ensures
        r@ == mem_digits(raw@),
{
    let t0 = crate::text::trim_of(raw);
    let t1 = crate::text::trim_end_char_exec(&t0, 'K');
    let t2 = crate::text::trim_end_char_exec(&t1, ' ');
    let t3 = crate::text::trim_of(&t2);
    keep_digits_exec(&t3)
}

/// Megabytes of a tasklist `Mem Usage` field (see `spec_tasklist_memory`).
/// Kilobyte counts within 512 of the `u64` limit are left out, since
/// rounding them overflows.
pub fn parse_tasklist_memory(raw: &str) -> (r: Option<u64>)
    requires
        parse_unsigned(mem_digits(raw@), 0xffff_ffff_ffff_ffff) matches Some(kb) ==> kb + 512
            <= 0xffff_ffff_ffff_ffff,
    ensures
        match r {
            Some(m) => spec_tasklist_memory(raw@) == Some(m as nat),
            None => spec_tasklist_memory(raw@) is None,
        },
{
    let digits = mem_digits_exec(&chars_of(raw));
    match crate::num::parse_unsigned_exec(&digits, 0xffff_ffff_ffff_ffff) {
        Some(kb) => Some((kb + 512) / 1024),
        None => None,
    }
}

/// The state of the CSV reader after some characters: the finished
/// fields, the field being read, and whether a quote is open.
pub open spec fn csv_state(s: Seq<char>) -> (Seq<Seq<char>>, Seq<char>, bool)
    decreases s.len(),
{
    if s.len() == 0 {
        (Seq::empty(), Seq::empty(), false)
    } else {
        let (fields, cur, q) = csv_state(s.drop_last());
        let c = s.last();
        if c == '"' {
            (fields, cur, !q)
        } else if c == ',' && !q {
            (fields.push(cur), Seq::empty(), q)
        } else {
            (fields, cur.push(c), q)
        }
    }
}

/// The fields of a CSV line: commas outside quotes separate them and the
/// quotes themselves are dropped.
pub open spec fn spec_csv_fields(s: Seq<char>) -> Seq<Seq<char>> {
    csv_state(s).0.push(csv_state(s).1)
}

/// The fields of a `tasklist /FO CSV` line (see `spec_csv_fields`).
pub fn parse_csv_line(line: &str) -> (r: Vec<String>)
    ensures
        r@.map_values(|f: String| f@) == spec_csv_fields(line@),
{
    let c = chars_of(line);
    let mut fields: Vec<String> = Vec::new();
    let mut current: Vec<char> = Vec::new();
    let mut in_quotes = false;
    let mut i: usize = 0;
    while i < c.len()
        invariant
            i <= c.len(),
            c@ == line@,
            (fields@.map_values(|f: String| f@), current@, in_quotes) == csv_state(c@.take(i as int)),
        decreases c.len() - i,
    {
        assert(c@.take(i + 1).drop_last() == c@.take(i as int));
        assert(c@.take(i + 1).last() == c@[i as int]);
        let ch = c[i];
        if ch == '"' {
            in_quotes = !in_quotes;
        } else if ch == ',' && !in_quotes {
            let ghost before = fields@.map_values(|f: String| f@);
            let f = string_of(&current);
            fields.push(f);
            assert(fields@.map_values(|f: String| f@) =~= before.push(current@));
            current = Vec::new();
        } else {
            current.push(ch);
        }
        i += 1;
    }
    assert(c@.take(c.len() as int) == c@);
    let ghost before = fields@.map_values(|f: String| f@);
    let f = string_of(&current);
    fields.push(f);
    assert(fields@.map_values(|f: String| f@) =~= before.push(current@));
    fields
}

} // verus!

verus! {

// ------------------------------------------------------------------
// Listening ports from `netstat -ano -p TCP`
// ------------------------------------------------------------------

/// The port and PID of one `netstat -ano` line, when it is a LISTENING
/// line of at least five columns whose local address ends in `:port` and
/// whose last column is a PID.
pub open spec fn spec_netstat_line(line: Seq<char>) -> Option<(u16, u32)> {
    let t = trim(line);
    let parts = words(t);
    if !contains(t, "LISTENING"@) || parts.len() < 5 {
        None
    } else {
        match rfind_char(parts[1], ':') {
            None => None,
            Some(c) => match (
                parse_unsigned(parts[1].skip(c + 1), 65535),
                parse_unsigned(parts.last(), 4294967295),
            ) {
                (Some(port), Some(pid)) => Some((port as u16, pid as u32)),
                _ => None,
            },
        }
    }
}

/// The port and PID a `netstat -ano` line reports as listening, if any.
pub fn parse_netstat_line(line: &str) -> (r: Option<(u16, u32)>)
    ensures
        r == spec_netstat_line(line@),
{
    let t = trim_of(&chars_of(line));
    proof {
        reveal_strlit("LISTENING");
    }
    if !contains_str(&t, "LISTENING") {
        return None;
    }
    let parts = words_exec(&t);
    if parts.len() < 5 {
        return None;
    }
    assert(views(parts@)[1] == parts@[1]@);
    assert(views(parts@).last() == parts@[parts.len() - 1]@);
    let local = &parts[1];
    let colon = match rfind_char_exec(local, ':') {
        Some(c) => c,
        None => return None,
    };
    let port_text = slice_of(local, colon + 1, local.len());
    assert(port_text@ =~= local@.skip(colon + 1));
    let port = parse_unsigned_exec(&port_text, 65535);
    let pid = parse_unsigned_exec(&parts[parts.len() - 1], 4294967295);
    match (port, pid) {
        (Some(p), Some(q)) => Some((p as u16, q as u32)),
        _ => None,
    }
}

/// Some entry has key `k`.
pub open spec fn has_key<V>(m: Seq<(u16, V)>, k: u16) -> bool {
    exists|i: int| 0 <= i < m.len() && (#[trigger] m[i]).0 == k
}

/// The listening ports of a `netstat -ano` listing and their PIDs; a port
/// listed twice (IPv4 and IPv6) keeps its first PID.
pub open spec fn spec_netstat_snapshot(ls: Seq<Seq<char>>) -> Seq<(u16, u32)>
    decreases ls.len(),
{
    if ls.len() == 0 {
        Seq::empty()
    } else {
        let prev = spec_netstat_snapshot(ls.drop_last());
        match spec_netstat_line(ls.last()) {
            Some((port, pid)) => if has_key(prev, port) { prev } else { prev.push((port, pid)) },
            None => prev,
        }
    }
}

fn key_in(m: &Vec<(u16, u32)>, k: u16) -> (r: bool)
    ensures
        r == has_key(m@, k),
{
    let mut i: usize = 0;
    while i < m.len()
        invariant
            i <= m.len(),
            forall|j: int| 0 <= j < i ==> (#[trigger] m@[j]).0 != k,
        decreases m.len() - i,
    {
        if m[i].0 == k {
            assert(m@[i as int].0 == k);
            return true;
        }
        i += 1;
    }
    false
}

/// Port to PID, in the order the ports first appear in the listing.
pub fn netstat_snapshot(text: &str) -> (r: Vec<(u16, u32)>)
    ensures
        r@ == spec_netstat_snapshot(lines(text@)),
{
    let ls = lines_of(&chars_of(text));
    let ghost lv = views(ls@);
    let mut r: Vec<(u16, u32)> = Vec::new();
    let mut i: usize = 0;
    while i < ls.len()
        invariant
            i <= ls.len(),
            lv == views(ls@),
            r@ == spec_netstat_snapshot(lv.take(i as int)),
        decreases ls.len() - i,
    {
        assert(lv.take(i + 1).drop_last() =~= lv.take(i as int));
        assert(lv.take(i + 1).last() == ls@[i as int]@);
        let line = string_of(&ls[i]);
        match parse_netstat_line(line.as_str()) {
            Some((port, pid)) => {
                if !key_in(&r, port) {
                    r.push((port, pid));
                }
            },
            None => {},
        }
        i += 1;
    }
    assert(lv.take(ls.len() as int) =~= lv);
    r
}

// ------------------------------------------------------------------
// Process memory from `tasklist /FO CSV /NH`
// ------------------------------------------------------------------

/// The PID and memory (MB) of one `tasklist` CSV line: a line of at least
/// five fields whose second is a PID and whose fifth is a memory figure.
/// Figures within 512 KB of the `u64` limit are not read.
pub open spec fn spec_tasklist_line(line: Seq<char>) -> Option<(u32, u64)> {
    let t = trim(line);
    let f = spec_csv_fields(t);
    if t.len() == 0 || f.len() < 5 {
        None
    } else {
        match (parse_unsigned(f[1], 4294967295), parse_unsigned(mem_digits(f[4]), 0xffff_ffff_ffff_ffff)) {
            (Some(pid), Some(kb)) => if kb + 512 <= 0xffff_ffff_ffff_ffff {
                Some((pid as u32, ((kb + 512) / 1024) as u64))
            } else {
                None
            },
            _ => None,
        }
    }
}

/// `m` with `k` set to `v`: the entry of `k` replaced in place, or added at
/// the end.
pub open spec fn assoc_set(m: Seq<(u32, u64)>, k: u32, v: u64) -> Seq<(u32, u64)> {
    if exists|i: int| 0 <= i < m.len() && (#[trigger] m[i]).0 == k {
        let i = choose|i: int| 0 <= i < m.len() && (#[trigger] m[i]).0 == k;
        m.update(i, (k, v))
    } else {
        m.push((k, v))
    }
}

/// No key occurs twice.
pub open spec fn unique_keys(m: Seq<(u32, u64)>) -> bool {
    forall|i: int, j: int| 0 <= i < j < m.len() ==> (#[trigger] m[i]).0 != (#[trigger] m[j]).0
}

/// The memory of each process in a `tasklist` listing; a PID listed twice
/// keeps its last figure.
pub open spec fn spec_tasklist_snapshot(ls: Seq<Seq<char>>) -> Seq<(u32, u64)>
    decreases ls.len(),
{
    if ls.len() == 0 {
        Seq::empty()
    } else {
        let prev = spec_tasklist_snapshot(ls.drop_last());
        match spec_tasklist_line(ls.last()) {
            Some((pid, mb)) => assoc_set(prev, pid, mb),
            None => prev,
        }
    }
}

/// The PID and memory of one `tasklist` line, if it reports them.
pub fn parse_tasklist_line(line: &str) -> (r: Option<(u32, u64)>)
    ensures
        r == spec_tasklist_line(line@),
{
    let t = trim_of(&chars_of(line));
    if t.len() == 0 {
        return None;
    }
    let ts = string_of(&t);
    let f = parse_csv_line(ts.as_str());
    if f.len() < 5 {
        return None;
    }
    assert(f@.map_values(|x: String| x@)[1] == f@[1]@);
    assert(f@.map_values(|x: String| x@)[4] == f@[4]@);
    let pid = parse_unsigned_exec(&chars_of(f[1].as_str()), 4294967295);
    let digits = mem_digits_exec(&chars_of(f[4].as_str()));
    let kb = parse_unsigned_exec(&digits, 0xffff_ffff_ffff_ffff);
    match (pid, kb) {
        (Some(p), Some(k)) => {
            if k <= 0xffff_ffff_ffff_ffff - 512 {
                Some((p as u32, (k + 512) / 1024))
            } else {
                None
            }
        },
        _ => None,
    }
}

proof fn lemma_assoc_set_unique(m: Seq<(u32, u64)>, k: u32, v: u64)
    requires
        unique_keys(m),
    ensures
        unique_keys(assoc_set(m, k, v)),
{
    if exists|i: int| 0 <= i < m.len() && (#[trigger] m[i]).0 == k {
        let i = choose|i: int| 0 <= i < m.len() && (#[trigger] m[i]).0 == k;
        let t = m.update(i, (k, v));
        assert forall|a: int, b: int| 0 <= a < b < t.len() implies (#[trigger] t[a]).0 != (#[trigger] t[b]).0 by {
            assert(t[a].0 == m[a].0);
            assert(t[b].0 == m[b].0);
        }
    } else {
        let t = m.push((k, v));
        assert forall|a: int, b: int| 0 <= a < b < t.len() implies (#[trigger] t[a]).0 != (#[trigger] t[b]).0 by {
            if b == m.len() {
                assert(m[a].0 != k);
            } else {
                assert(t[a] == m[a] && t[b] == m[b]);
            }
        }
    }
}

fn assoc_set_exec(m: &mut Vec<(u32, u64)>, k: u32, v: u64)
    requires
        unique_keys(old(m)@),
    ensures
        final(m)@ == assoc_set(old(m)@, k, v),
        unique_keys(final(m)@),
{
    let mut i: usize = 0;
    proof {
        lemma_assoc_set_unique(m@, k, v);
    }
    while i < m.len()
        invariant
            i <= m.len(),
            m@ == old(m)@,
            unique_keys(m@),
            forall|j: int| 0 <= j < i ==> (#[trigger] m@[j]).0 != k,
        decreases m.len() - i,
    {
        if m[i].0 == k {
            let ghost m0 = m@;
            assert(m0[i as int].0 == k);
            assert(forall|j: int| 0 <= j < m0.len() && (#[trigger] m0[j]).0 == k ==> j == i);
            m.set(i, (k, v));
            proof {
                lemma_assoc_set_unique(m0, k, v);
            }
            return;
        }
        i += 1;
    }
    m.push((k, v));
}

/// PID to memory in megabytes, in the order the PIDs first appear.
pub fn tasklist_snapshot(text: &str) -> (r: Vec<(u32, u64)>)
    ensures
        r@ == spec_tasklist_snapshot(lines(text@)),
        unique_keys(r@),
{
    let ls = lines_of(&chars_of(text));
    let ghost lv = views(ls@);
    let mut r: Vec<(u32, u64)> = Vec::new();
    let mut i: usize = 0;
    while i < ls.len()
        invariant
            i <= ls.len(),
            lv == views(ls@),
            r@ == spec_tasklist_snapshot(lv.take(i as int)),
            unique_keys(r@),
        decreases ls.len() - i,
    {
        assert(lv.take(i + 1).drop_last() =~= lv.take(i as int));
        assert(lv.take(i + 1).last() == ls@[i as int]@);
        let line = string_of(&ls[i]);
        match parse_tasklist_line(line.as_str()) {
            Some((pid, mb)) => {
                assoc_set_exec(&mut r, pid, mb);
            },
            None => {},
        }
        i += 1;
    }
    assert(lv.take(ls.len() as int) =~= lv);
    r
}

} // verus!

verus! {

// ======================== Process names ========================

/// `c` removed from the front as often as it stands there.
pub open spec fn trim_start_char(s: Seq<char>, c: char) -> Seq<char>
    decreases s.len(),
{
    if s.len() > 0 && s[0] == c {
        trim_start_char(s.drop_first(), c)
    } else {
        s
    }
}

fn trim_start_char_exec(s: &[char], c: char) -> (r: Vec<char>)
    ensures
        r@ == trim_start_char(s@, c),
{
    let mut i: usize = 0;
    assert(s@.skip(0) =~= s@);
    while i < s.len() && s[i] == c
        invariant
            i <= s.len(),
            trim_start_char(s@, c) == trim_start_char(s@.skip(i as int), c),
        decreases s.len() - i,
    {
        assert(s@.skip(i as int).drop_first() =~= s@.skip(i + 1));
        i += 1;
    }
    let r = slice_of(s, i, s.len());
    assert(r@ =~= s@.skip(i as int));
    r
}

/// The image name on the first line of `tasklist /FO CSV /NH` output for
/// one process: its first field without the quotes, in lower case; `None`
/// for empty output.
pub open spec fn spec_process_name(text: Seq<char>) -> Option<Seq<char>> {
    let ls = lines(text);
    if ls.len() == 0 {
        None
    } else {
        Some(crate::strangers::unicode_lower(
            trim_end_char(trim_start_char(crate::text::split_char(ls[0], ',')[0], '"'), '"'),
        ))
    }
}

/// The process name read from the `tasklist` output for one PID.
pub fn process_name(text: &str) -> (r: Option<String>)
    ensures
        match r {
            Some(n) => spec_process_name(text@) == Some(n@),
            None => spec_process_name(text@) is None,
        },
{
    let ls = lines_of(&chars_of(text));
    if ls.len() == 0 {
        return None;
    }
    assert(views(ls@)[0] == ls@[0]@);
    let fields = crate::text::split_char_exec(&ls[0], ',');
    proof {
        crate::text::lemma_split_char_len(ls@[0]@, ',');
    }
    assert(views(fields@)[0] == fields@[0]@);
    let a = trim_start_char_exec(&fields[0], '"');
    let b = crate::text::trim_end_char_exec(&a, '"');
    Some(crate::strangers::to_lowercase(string_of(&b).as_str()))
}

/// A process name belongs to a service of the kind: it holds `nginx`,
/// `httpd`, `php`, `mysqld` or `redis`.
pub open spec fn name_fits(name: Seq<char>, kind: crate::service::ServiceKind) -> bool {
    match kind {
        crate::service::ServiceKind::Nginx => contains(name, "nginx"@),
        crate::service::ServiceKind::Apache => contains(name, "httpd"@),
        crate::service::ServiceKind::Php => contains(name, "php"@),
        crate::service::ServiceKind::Mysql => contains(name, "mysqld"@),
        crate::service::ServiceKind::Redis => contains(name, "redis"@),
    }
}

/// Whether the process `pid`, whose name `tasklist` gave (if it gave
/// one), is a service of the kind; PID 0 is never one.
pub fn pid_matches_service(pid: u32, kind: crate::service::ServiceKind, name: Option<&str>) -> (r: bool)
    ensures
        r == (pid != 0 && match name {
            Some(n) => name_fits(n@, kind),
            None => false,
        }),
{
    if pid == 0 {
        return false;
    }
    let n = match name {
        Some(n) => chars_of(n),
        None => return false,
    };
    match kind {
        crate::service::ServiceKind::Nginx => contains_str(&n, "nginx"),
        crate::service::ServiceKind::Apache => contains_str(&n, "httpd"),
        crate::service::ServiceKind::Php => contains_str(&n, "php"),
        crate::service::ServiceKind::Mysql => contains_str(&n, "mysqld"),
        crate::service::ServiceKind::Redis => contains_str(&n, "redis"),
    }
}

} // verus!

verus! {

// ======================== The application's own figures ========================

/// The memory figure of `pid` in a snapshot: that of its first entry.
pub open spec fn memory_of(m: Seq<(u32, u64)>, pid: u32) -> Option<u64>
    decreases m.len(),
{
    if m.len() == 0 {
        None
    } else if m[0].0 == pid {
        Some(m[0].1)
    } else {
        memory_of(m.drop_first(), pid)
    }
}

/// The figures shown for the application itself.
#[derive(Debug, Clone, Copy, PartialEq, Eq, Structural)]
pub struct AppStats {
    pub pid: u32,
    pub memory_mb: Option<u64>,
    pub uptime_secs: u64,
}

/// The application's figures: its process id, its memory as the
/// `tasklist` snapshot gives it (none when it is not listed), and how long
/// it has run.
pub fn app_stats(pid: u32, snapshot: &Vec<(u32, u64)>, uptime_secs: u64) -> (r: AppStats)
    ensures
        r == (AppStats { pid, memory_mb: memory_of(snapshot@, pid), uptime_secs }),
{
    AppStats { pid, memory_mb: memory_of_exec(snapshot, pid), uptime_secs }
}

pub(crate) fn memory_of_exec(snapshot: &Vec<(u32, u64)>, pid: u32) -> (r: Option<u64>)
    ensures
        r == memory_of(snapshot@, pid),
{
    let mut i: usize = 0;
    assert(snapshot@.skip(0) =~= snapshot@);
    while i < snapshot.len()
        invariant
            i <= snapshot.len(),
            memory_of(snapshot@, pid) == memory_of(snapshot@.skip(i as int), pid),
        decreases snapshot.len() - i,
    {
        assert(snapshot@.skip(i as int)[0] == snapshot@[i as int]);
        assert(snapshot@.skip(i as int).drop_first() =~= snapshot@.skip(i + 1));
        if snapshot[i].0 == pid {
            return Some(snapshot[i].1);
        }
        i += 1;
    }
    None
}

} // verus!
