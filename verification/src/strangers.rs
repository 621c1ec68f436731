//! Services run by someone else: a process listening on a port this
//! manager cares about whose executable lies outside every known install
//! directory, and the rules for ending such a process.

use vstd::prelude::*;
use crate::text::{chars_of, string_of, append, append_str, contains, contains_str, starts_with, eq};
use crate::num::{decimal, u64_to_string};
use crate::vhost_scan::{rfind_char, rfind_char_exec};

verus! {

/// The Unicode lowercase of `s` (`str::to_lowercase`).
pub uninterp spec fn unicode_lower(s: Seq<char>) -> Seq<char>;

/// `str::to_lowercase`: the text with every character mapped to its
/// Unicode lowercase.
#[verifier::external_body]
pub(crate) fn to_lowercase(s: &str) -> (r: String)
    ensures
        r@ == unicode_lower(s@),
{
    s.to_lowercase()
}

/// The ports watched for foreign services.
pub open spec fn watched_ports() -> Seq<u16> {
    seq![80u16, 443u16, 3306u16, 6379u16]
}

/// The ports watched for foreign services: web, HTTPS, MySQL, Redis.
pub fn watched_port_list() -> (r: Vec<u16>)
    ensures
        r@ == watched_ports(),
{
    let r = vec![80u16, 443u16, 3306u16, 6379u16];
    assert(r@ =~= watched_ports());
    r
}

/// The kind of service an executable path (in lowercase) belongs to.
pub open spec fn spec_classify_exe(exe_lower: Seq<char>) -> Option<Seq<char>> {
    if contains(exe_lower, "nginx.exe"@) {
        Some("Nginx"@)
    } else if contains(exe_lower, "httpd.exe"@) {
        Some("Apache"@)
    } else if contains(exe_lower, "mysqld.exe"@) || contains(exe_lower, "mariadbd.exe"@) {
        Some("MySQL"@)
    } else if contains(exe_lower, "redis-server.exe"@) {
        Some("Redis"@)
    } else {
        None
    }
}

/// The kind of service an executable path (in lowercase) belongs to.
pub fn classify_exe(exe_lower: &str) -> (r: Option<&'static str>)
    ensures
        match spec_classify_exe(exe_lower@) {
            Some(k) => r matches Some(s) && s@ == k,
            None => r is None,
        },
{
    let e = chars_of(exe_lower);
    if contains_str(&e, "nginx.exe") {
        proof { reveal_strlit("Nginx"); }
        Some("Nginx")
    } else if contains_str(&e, "httpd.exe") {
        proof { reveal_strlit("Apache"); }
        Some("Apache")
    } else if contains_str(&e, "mysqld.exe") || contains_str(&e, "mariadbd.exe") {
        proof { reveal_strlit("MySQL"); }
        Some("MySQL")
    } else if contains_str(&e, "redis-server.exe") {
        proof { reveal_strlit("Redis"); }
        Some("Redis")
    } else {
        None
    }
}

/// The last path separator (`\` or `/`).
pub open spec fn last_sep(s: Seq<char>) -> Option<int>
    decreases s.len(),
{
    if s.len() == 0 {
        None
    } else if s.last() == '\\' || s.last() == '/' {
        Some(s.len() - 1)
    } else {
        last_sep(s.drop_last())
    }
}

/// The directory part of a Windows path: what stands before its last
/// separator, or nothing.
pub open spec fn dir_of(p: Seq<char>) -> Seq<char> {
    match last_sep(p) {
        Some(i) => p.take(i),
        None => Seq::empty(),
    }
}

/// `dir` is the install directory `known` or lies below it.
pub open spec fn under(dir: Seq<char>, known: Seq<char>) -> bool {
    known.len() > 0 && (dir == known || starts_with(dir, known + "/"@) || starts_with(dir, known + "\\"@))
}

/// The executable's directory lies in one of the known install
/// directories (all in lowercase).
pub open spec fn in_known(dir: Seq<char>, known: Seq<Seq<char>>) -> bool {
    exists|i: int| 0 <= i < known.len() && under(dir, #[trigger] known[i])
}

/// A service found running outside the managed installs.
pub struct StrangerService {
    pub kind: String,
    pub port: u16,
    pub pid: u32,
    pub exe_path: String,
    pub label: String,
}

/// The label shown for a foreign service.
pub open spec fn stranger_label(kind: Seq<char>, port: u16, exe: Seq<char>, pid: u32) -> Seq<char> {
    kind + " 占用端口 "@ + decimal(port as nat) + "（"@ + exe + ", PID "@ + decimal(pid as nat) + "）"@
}

/// The foreign service on `port`, given the listening PID, that process's
/// executable path and the known install directories (in lowercase): none
/// for PID 0, an unknown kind of executable, or one inside a known install.
pub open spec fn spec_stranger(port: u16, pid: u32, exe: Seq<char>, known: Seq<Seq<char>>) -> Option<(Seq<char>, Seq<char>)> {
    let lower = unicode_lower(exe);
    if pid == 0 {
        None
    } else {
        match spec_classify_exe(lower) {
            None => None,
            Some(kind) => if in_known(unicode_lower(dir_of(exe)), known) {
                None
            } else {
                Some((kind, stranger_label(kind, port, exe, pid)))
            },
        }
    }
}

fn under_exec(dir: &[char], known: &[char]) -> (r: bool)
    ensures
        r == under(dir@, known@),
{
    if known.len() == 0 {
        return false;
    }
    let mut k1 = crate::text::slice_of(known, 0, known.len());
    k1.push('/');
    let mut k2 = crate::text::slice_of(known, 0, known.len());
    k2.push('\\');
    proof {
        reveal_strlit("/");
        reveal_strlit("\\");
        assert(k1@ =~= known@ + "/"@);
        assert(k2@ =~= known@ + "\\"@);
    }
    eq(dir, known) || crate::text::starts_with_chars(dir, &k1) || crate::text::starts_with_chars(dir, &k2)
}

pub(crate) fn last_sep_exec(s: &[char]) -> (r: Option<usize>)
    ensures
        match r {
            Some(i) => last_sep(s@) == Some(i as int) && i < s.len(),
            None => last_sep(s@) is None,
        },
{
    let mut n: usize = s.len();
    assert(s@.take(n as int) =~= s@);
    while n > 0
        invariant
            n <= s.len(),
            last_sep(s@) == last_sep(s@.take(n as int)),
        decreases n,
    {
        assert(s@.take(n as int).last() == s@[n - 1]);
        if s[n - 1] == '\\' || s[n - 1] == '/' {
            return Some(n - 1);
        }
        assert(s@.take(n as int).drop_last() =~= s@.take(n - 1));
        n -= 1;
    }
    None
}

/// The foreign service listening on `port`, if the process there is one.
pub fn stranger_on(port: u16, pid: u32, exe_path: &str, known_lower: &Vec<String>) -> (r: Option<StrangerService>)
    ensures
        match spec_stranger(port, pid, exe_path@, known_lower@.map_values(|s: String| s@)) {
            None => r is None,
            Some((kind, label)) => r matches Some(s) && s.kind@ == kind && s.port == port
                && s.pid == pid && s.exe_path@ == exe_path@ && s.label@ == label,
        },
{
    let ghost known = known_lower@.map_values(|s: String| s@);
    if pid == 0 {
        return None;
    }
    let lower = to_lowercase(exe_path);
    let kind = match classify_exe(lower.as_str()) {
        Some(k) => k,
        None => return None,
    };
    let exe = chars_of(exe_path);
    let dir = match last_sep_exec(&exe) {
        Some(i) => crate::text::slice_of(&exe, 0, i),
        None => Vec::new(),
    };
    assert(dir@ =~= dir_of(exe_path@));
    let dir_lower = to_lowercase(string_of(&dir).as_str());
    let dl = chars_of(dir_lower.as_str());
    let mut i: usize = 0;
    while i < known_lower.len()
        invariant
            i <= known_lower.len(),
            known == known_lower@.map_values(|s: String| s@),
            dl@ == unicode_lower(dir_of(exe_path@)),
            forall|j: int| 0 <= j < i ==> !under(dl@, #[trigger] known[j]),
        decreases known_lower.len() - i,
    {
        assert(known[i as int] == known_lower@[i as int]@);
        if under_exec(&dl, &chars_of(known_lower[i].as_str())) {
            return None;
        }
        i += 1;
    }
    let mut label = chars_of(kind);
    append_str(&mut label, " 占用端口 ");
    append_str(&mut label, u64_to_string(port as u64).as_str());
    append_str(&mut label, "（");
    append_str(&mut label, exe_path);
    append_str(&mut label, ", PID ");
    append_str(&mut label, u64_to_string(pid as u64).as_str());
    append_str(&mut label, "）");
    Some(StrangerService {
        kind: string_of(&chars_of(kind)),
        port,
        pid,
        exe_path: string_of(&exe),
        label: string_of(&label),
    })
}

// ------------------------------------------------------------------
// Ending a foreign process
// ------------------------------------------------------------------

/// The executables a foreign process may have for this manager to end it.
pub open spec fn allowed_exes() -> Seq<Seq<char>> {
    seq![
        "nginx.exe"@,
        "httpd.exe"@,
        "mysqld.exe"@,
        "mysqld-nt.exe"@,
        "redis-server.exe"@,
        "php-cgi.exe"@,
        "php.exe"@,
        "xp.cn_cgi.exe"@,
    ]
}

/// Whether a process may be ended, from its PID and its executable name
/// (in lowercase, empty when it could not be read).
pub open spec fn spec_kill_check(pid: u32, exe_lower: Seq<char>) -> Result<(), Seq<char>> {
    if pid == 0 {
        Err("无效 PID"@)
    } else if exe_lower.len() == 0 {
        Err("无法读取 PID "@ + decimal(pid as nat) + " 的进程信息（可能已退出或权限不足）"@)
    } else if !allowed_exes().contains(exe_lower) {
        Err("拒绝结束 PID "@ + decimal(pid as nat) + "（"@ + exe_lower
            + "）：不在 NaxOne 可管理的服务进程白名单内"@)
    } else {
        Ok(())
    }
}

/// Whether the process `pid`, whose executable name in lowercase is
/// `exe_lower`, may be ended: only the web, database and PHP servers may.
pub fn kill_check(pid: u32, exe_lower: &str) -> (r: Result<(), String>)
    ensures
        spec_kill_check(pid, exe_lower@) is Ok <==> r is Ok,
        spec_kill_check(pid, exe_lower@) matches Err(m) ==> (r matches Err(e) && e@ == m),
{
    if pid == 0 {
        proof { reveal_strlit("无效 PID"); }
        return Err(string_of(&chars_of("无效 PID")));
    }
    let e = chars_of(exe_lower);
    if e.len() == 0 {
        let mut m = chars_of("无法读取 PID ");
        append_str(&mut m, u64_to_string(pid as u64).as_str());
        append_str(&mut m, " 的进程信息（可能已退出或权限不足）");
        return Err(string_of(&m));
    }
    let allowed = vec![
        "nginx.exe",
        "httpd.exe",
        "mysqld.exe",
        "mysqld-nt.exe",
        "redis-server.exe",
        "php-cgi.exe",
        "php.exe",
        "xp.cn_cgi.exe",
    ];
    let ghost av = allowed@.map_values(|s: &str| s@);
    assert(av =~= allowed_exes());
    let mut i: usize = 0;
    while i < allowed.len()
        invariant
            i <= allowed.len(),
            av == allowed@.map_values(|s: &str| s@),
            av == allowed_exes(),
            e@ == exe_lower@,
            pid != 0,
            e@.len() > 0,
            forall|j: int| 0 <= j < i ==> #[trigger] av[j] != e@,
        decreases allowed.len() - i,
    {
        assert(av[i as int] == allowed@[i as int]@);
        if crate::text::eq_str(&e, allowed[i]) {
            assert(av[i as int] == e@);
            assert(allowed_exes()[i as int] == exe_lower@);
            assert(allowed_exes().contains(exe_lower@));
            return Ok(());
        }
        i += 1;
    }
    let mut m = chars_of("拒绝结束 PID ");
    append_str(&mut m, u64_to_string(pid as u64).as_str());
    append_str(&mut m, "（");
    append_str(&mut m, exe_lower);
    append_str(&mut m, "）：不在 NaxOne 可管理的服务进程白名单内");
    Err(string_of(&m))
}

/// What a failed `taskkill` means.
pub enum KillFailure {
    /// The process had already exited; nothing to do.
    AlreadyGone,
    /// Ending it failed, for the reason given.
    Failed(String),
}

/// What a failed `taskkill` of `pid` means, from its trimmed error output.
pub open spec fn spec_kill_failure_kind(pid: u32, stderr: Seq<char>) -> Option<Seq<char>> {
    let lower = unicode_lower(stderr);
    if contains(lower, "access is denied"@) || contains(stderr, "拒绝访问"@) {
        Some("结束 PID "@ + decimal(pid as nat) + " 失败：权限不足（请以管理员身份运行 NaxOne）"@)
    } else if contains(lower, "not be found"@) || contains(stderr, "找不到"@) {
        None
    } else {
        Some("结束 PID "@ + decimal(pid as nat) + " 失败: "@ + stderr)
    }
}

/// What a failed `taskkill` of `pid` means: the process was already gone,
/// or the reason ending it failed.
pub fn classify_kill_failure(pid: u32, stderr: &str) -> (r: KillFailure)
    ensures
        match spec_kill_failure_kind(pid, stderr@) {
            None => r is AlreadyGone,
            Some(m) => r matches KillFailure::Failed(e) && e@ == m,
        },
{
    let lower = chars_of(to_lowercase(stderr).as_str());
    let raw = chars_of(stderr);
    if contains_str(&lower, "access is denied") || contains_str(&raw, "拒绝访问") {
        let mut m = chars_of("结束 PID ");
        append_str(&mut m, u64_to_string(pid as u64).as_str());
        append_str(&mut m, " 失败：权限不足（请以管理员身份运行 NaxOne）");
        KillFailure::Failed(string_of(&m))
    } else if contains_str(&lower, "not be found") || contains_str(&raw, "找不到") {
        KillFailure::AlreadyGone
    } else {
        let mut m = chars_of("结束 PID ");
        append_str(&mut m, u64_to_string(pid as u64).as_str());
        append_str(&mut m, " 失败: ");
        append(&mut m, &raw);
        KillFailure::Failed(string_of(&m))
    }
}

} // verus!
