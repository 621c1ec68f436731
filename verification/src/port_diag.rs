//! Port diagnosis: which processes listen on a port according to
//! `netstat -ano -p TCP`, where they come from, and what ending one
//! reports.

use vstd::prelude::*;
use crate::text::{chars_of, string_of, append_str, append, contains, contains_str, lines, lines_of, lower, lower_of, trim, trim_of, views};
use crate::num::parse_unsigned;
use crate::vhost_scan::{words, words_exec, rfind_char, rfind_char_exec};

verus! {

/// What follows the last `:` of an address, or the whole address.
pub open spec fn after_last_colon(a: Seq<char>) -> Seq<char> {
    match rfind_char(a, ':') {
        Some(i) => a.skip(i + 1),
        None => a,
    }
}

/// The PID and local address of a `netstat` line listening on `port`: a
/// TCP line of at least five columns, one of them `LISTENING`.
pub open spec fn spec_listener_line(line: Seq<char>, port: u16) -> Option<(u32, Seq<char>)> {
    let cols = words(line);
    if cols.len() < 5 || cols[0] != "TCP"@ || !cols.contains("LISTENING"@) {
        None
    } else {
        match parse_unsigned(after_last_colon(cols[1]), 65535) {
            Some(p) => if p != port {
                None
            } else {
                match parse_unsigned(cols.last(), 4294967295) {
                    Some(pid) => Some((pid as u32, cols[1])),
                    None => None,
                }
            },
            None => None,
        }
    }
}

/// Some listener has PID `pid`.
pub open spec fn has_pid(v: Seq<(u32, Seq<char>)>, pid: u32) -> bool {
    exists|i: int| 0 <= i < v.len() && (#[trigger] v[i]).0 == pid
}

/// The listeners on `port`, each PID once, in the order first listed.
pub open spec fn spec_listeners(ls: Seq<Seq<char>>, port: u16) -> Seq<(u32, Seq<char>)>
    decreases ls.len(),
{
    if ls.len() == 0 {
        Seq::empty()
    } else {
        let prev = spec_listeners(ls.drop_last(), port);
        match spec_listener_line(ls.last(), port) {
            Some((pid, addr)) => if has_pid(prev, pid) { prev } else { prev.push((pid, addr)) },
            None => prev,
        }
    }
}

fn listener_line(line: &[char], port: u16) -> (r: Option<(u32, Vec<char>)>)
    ensures
        match spec_listener_line(line@, port) {
            Some((pid, addr)) => r matches Some((p, a)) && p == pid && a@ == addr,
            None => r is None,
        },
{
    let cols = words_exec(line);
    let ghost cv = views(cols@);
    proof {
        reveal_strlit("TCP");
        reveal_strlit("LISTENING");
    }
    if cols.len() < 5 {
        return None;
    }
    assert(cv[0] == cols@[0]@);
    if !crate::text::eq_str(&cols[0], "TCP") {
        return None;
    }
    let mut found = false;
    let mut i: usize = 0;
    while i < cols.len()
        invariant
            i <= cols.len(),
            cv == views(cols@),
            found <==> exists|j: int| 0 <= j < i && cv[j] == "LISTENING"@,
        decreases cols.len() - i,
    {
        assert(cv[i as int] == cols@[i as int]@);
        if crate::text::eq_str(&cols[i], "LISTENING") {
            found = true;
        }
        i += 1;
    }
    if !found {
        assert(!cv.contains("LISTENING"@));
        return None;
    }
    assert(cv[1] == cols@[1]@);
    assert(cv.last() == cols@[cols.len() - 1]@);
    let local = &cols[1];
    let port_text = match rfind_char_exec(local, ':') {
        Some(c) => crate::text::slice_of(local, c + 1, local.len()),
        None => crate::text::slice_of(local, 0, local.len()),
    };
    assert(port_text@ =~= after_last_colon(local@));
    match crate::num::parse_unsigned_exec(&port_text, 65535) {
        Some(p) => {
            if p != port as u64 {
                return None;
            }
        },
        None => return None,
    }
    match crate::num::parse_unsigned_exec(&cols[cols.len() - 1], 4294967295) {
        Some(pid) => Some((pid as u32, crate::text::slice_of(local, 0, local.len()))),
        None => None,
    }
}

/// The processes listening on `port` in a `netstat -ano -p TCP` listing:
/// PID and local address, each PID once, in the order first listed.
pub fn port_listeners(netstat_output: &str, port: u16) -> (r: Vec<(u32, String)>)
    ensures
        r@.map_values(|x: (u32, String)| (x.0, x.1@)) == spec_listeners(lines(netstat_output@), port),
{
    let ls = lines_of(&chars_of(netstat_output));
    let ghost lv = views(ls@);
    let mut r: Vec<(u32, String)> = Vec::new();
    let mut i: usize = 0;
    while i < ls.len()
        invariant
            i <= ls.len(),
            lv == views(ls@),
            r@.map_values(|x: (u32, String)| (x.0, x.1@)) == spec_listeners(lv.take(i as int), port),
        decreases ls.len() - i,
    {
        assert(lv.take(i + 1).drop_last() =~= lv.take(i as int));
        assert(lv.take(i + 1).last() == ls@[i as int]@);
        let ghost rv = r@.map_values(|x: (u32, String)| (x.0, x.1@));
        match listener_line(&ls[i], port) {
            Some((pid, addr)) => {
                let mut seen = false;
                let mut j: usize = 0;
                while j < r.len()
                    invariant
                        j <= r.len(),
                        rv == r@.map_values(|x: (u32, String)| (x.0, x.1@)),
                        seen <==> exists|k: int| 0 <= k < j && (#[trigger] rv[k]).0 == pid,
                    decreases r.len() - j,
                {
                    assert(rv[j as int].0 == r@[j as int].0);
                    if r[j].0 == pid {
                        seen = true;
                    }
                    j += 1;
                }
                if !seen {
                    r.push((pid, string_of(&addr)));
                    assert(r@.map_values(|x: (u32, String)| (x.0, x.1@)) =~= rv.push((pid, addr@)));
                }
            },
            None => {},
        }
        i += 1;
    }
    assert(lv.take(ls.len() as int) =~= lv);
    r
}

/// Where a listening executable comes from, as far as it can be told: a
/// path mentioning `phpstudy` (in any ASCII case) is PHPStudy's.
pub open spec fn spec_identify_source(exe_path: Option<Seq<char>>) -> Option<Seq<char>> {
    match exe_path {
        Some(p) => if contains(lower(p), "phpstudy"@) { Some("PHPStudy"@) } else { None },
        None => None,
    }
}

/// Where a listening executable comes from, when it can be told.
pub fn identify_source(exe_path: Option<&str>) -> (r: Option<String>)
    ensures
        match spec_identify_source(match exe_path { Some(p) => Some(p@), None => None }) {
            Some(s) => r matches Some(x) && x@ == s,
            None => r is None,
        },
{
    match exe_path {
        Some(p) => {
            let l = lower_of(&chars_of(p));
            if contains_str(&l, "phpstudy") {
                proof { reveal_strlit("PHPStudy"); }
                Some(string_of(&chars_of("PHPStudy")))
            } else {
                None
            }
        },
        None => None,
    }
}

/// A port can be diagnosed when it is not 0.
pub fn check_port_number(port: u16) -> (r: Result<(), String>)
    ensures
        port == 0 ==> (r matches Err(m) && m@ == "端口号必须大于 0"@),
        port != 0 ==> r is Ok,
{
    if port == 0 {
        proof { reveal_strlit("端口号必须大于 0"); }
        Err(string_of(&chars_of("端口号必须大于 0")))
    } else {
        Ok(())
    }
}

/// The message when `taskkill` failed: its trimmed error output, or its
/// trimmed standard output when the error output is blank.
pub open spec fn spec_kill_process_failure(stderr: Seq<char>, stdout: Seq<char>) -> Seq<char> {
    "结束进程失败: "@ + if trim(stderr).len() > 0 { trim(stderr) } else { trim(stdout) }
}

/// The message when `taskkill` failed.
pub fn kill_process_failure(stderr: &str, stdout: &str) -> (r: String)
    ensures
        r@ == spec_kill_process_failure(stderr@, stdout@),
{
    let e = trim_of(&chars_of(stderr));
    let mut m = chars_of("结束进程失败: ");
    if e.len() > 0 {
        append(&mut m, &e);
    } else {
        append(&mut m, &trim_of(&chars_of(stdout)));
    }
    string_of(&m)
}

} // verus!

verus! {

/// One process listening on a diagnosed port.
pub struct PortListener {
    pub pid: u32,
    pub process_name: Option<String>,
    pub exe_path: Option<String>,
    /// Where the executable comes from, when it can be told.
    pub source: Option<String>,
    pub local_address: String,
}

/// What listens on a port.
pub struct PortDiagnosis {
    pub port: u16,
    pub in_use: bool,
    pub listeners: Vec<PortListener>,
}

/// The diagnosis of `port` from its listeners: in use exactly when some
/// process listens on it.
pub fn port_diagnosis(port: u16, listeners: Vec<PortListener>) -> (r: PortDiagnosis)
    ensures
        r.port == port,
        r.in_use == (listeners@.len() > 0),
        r.listeners@ == listeners@,
{
    let in_use = listeners.len() > 0;
    PortDiagnosis { port, in_use, listeners }
}

/// A listener as reported: its PID and address, the name and executable
/// found for the PID, and the source told from the executable.
pub fn port_listener(pid: u32, local_address: String, process_name: Option<String>, exe_path: Option<String>) -> (r: PortListener)
    ensures
        r.pid == pid,
        r.local_address@ == local_address@,
        r.process_name == process_name,
        r.exe_path == exe_path,
        match spec_identify_source(match exe_path { Some(p) => Some(p@), None => None }) {
            Some(s) => r.source matches Some(x) && x@ == s,
            None => r.source is None,
        },
{
    let source = match &exe_path {
        Some(p) => identify_source(Some(p.as_str())),
        None => identify_source(None),
    };
    PortListener { pid, process_name, exe_path, source, local_address }
}

} // verus!
