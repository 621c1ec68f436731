//! The command lines that start, stop and reload each kind of service on
//! Windows, and the messages made from what those commands report.

use vstd::prelude::*;
use crate::text::{chars_of, string_of, append, append_str, trim, trim_of, lines, lines_of, contains, contains_str, views};
use crate::num::{decimal, signed_decimal, u64_to_string, i32_to_string};
use crate::paths::{win_join, win_join_exec};
use crate::service::{ServiceInstance, ServiceKind, spec_display_name};
use crate::ssl_cert::string_views;

verus! {

/// A program to run, its arguments, and the directory it runs in.
pub struct CommandSpec {
    pub program: String,
    pub args: Vec<String>,
    pub cwd: Option<String>,
}

/// The view of a command: program, arguments, directory.
pub open spec fn cmd_view(c: CommandSpec) -> (Seq<char>, Seq<Seq<char>>, Option<Seq<char>>) {
    (c.program@, string_views(c.args@), match c.cwd { Some(d) => Some(d@), None => None })
}

/// `base\a\b`.
pub open spec fn join2(base: Seq<char>, a: Seq<char>, b: Seq<char>) -> Seq<char> {
    win_join(win_join(base, a), b)
}

/// The configured file, or the kind's default one under the install path.
pub open spec fn conf_or(cfg: Option<String>, default: Seq<char>) -> Seq<char> {
    match cfg {
        Some(c) => c@,
        None => default,
    }
}

/// The command that starts `s` in the foreground.
pub open spec fn spec_start_command(s: ServiceInstance) -> (Seq<char>, Seq<Seq<char>>, Option<Seq<char>>) {
    let ip = s.install_path@;
    match s.kind {
        ServiceKind::Nginx => (
            win_join(ip, "nginx.exe"@),
            seq!["-c"@, conf_or(s.config_path, join2(ip, "conf"@, "nginx.conf"@))],
            Some(ip),
        ),
        ServiceKind::Apache => (
            join2(ip, "bin"@, "httpd.exe"@),
            seq!["-f"@, conf_or(s.config_path, join2(ip, "conf"@, "httpd.conf"@))],
            Some(ip),
        ),
        ServiceKind::Php => (
            win_join(ip, "php-cgi.exe"@),
            seq!["-b"@, "127.0.0.1:"@ + decimal(s.port as nat)] + match s.config_path {
                Some(c) => seq!["-c"@, c@],
                None => Seq::empty(),
            },
            Some(ip),
        ),
        ServiceKind::Mysql => (
            join2(ip, "bin"@, "mysqld.exe"@),
            seq!["--defaults-file="@ + conf_or(s.config_path, win_join(ip, "my.ini"@))],
            Some(ip),
        ),
        ServiceKind::Redis => (
            win_join(ip, "redis-server.exe"@),
            seq![conf_or(s.config_path, win_join(ip, "redis.windows.conf"@))],
            Some(ip),
        ),
    }
}

/// The graceful stop command of `s`; PHP-CGI has none and is killed.
pub open spec fn spec_stop_command(s: ServiceInstance) -> Option<(Seq<char>, Seq<Seq<char>>, Option<Seq<char>>)> {
    let ip = s.install_path@;
    match s.kind {
        ServiceKind::Nginx => Some((win_join(ip, "nginx.exe"@), seq!["-s"@, "quit"@], Some(ip))),
        ServiceKind::Apache => Some((join2(ip, "bin"@, "httpd.exe"@), seq!["-k"@, "stop"@], Some(ip))),
        ServiceKind::Redis => Some((
            win_join(ip, "redis-cli.exe"@),
            seq!["-p"@, decimal(s.port as nat), "shutdown"@],
            None,
        )),
        ServiceKind::Mysql => Some((
            join2(ip, "bin"@, "mysqladmin.exe"@),
            seq!["-u"@, "root"@, "shutdown"@],
            Some(ip),
        )),
        ServiceKind::Php => None,
    }
}

fn lit(s: &str) -> (r: String)
    ensures
        r@ == s@,
{
    string_of(&chars_of(s))
}

fn join_lit(base: &[char], part: &str) -> (r: Vec<char>)
    ensures
        r@ == win_join(base@, part@),
{
    win_join_exec(base, &chars_of(part))
}

fn conf_or_exec(cfg: &Option<String>, default: Vec<char>) -> (r: String)
    ensures
        r@ == conf_or(*cfg, default@),
{
    match cfg {
        Some(c) => c.clone(),
        None => string_of(&default),
    }
}

fn cmd(program: Vec<char>, args: Vec<String>, cwd: Option<&[char]>) -> (r: CommandSpec)
    ensures
        r.program@ == program@,
        r.args@ == args@,
        match cwd {
            Some(d) => r.cwd matches Some(c) && c@ == d@,
            None => r.cwd is None,
        },
{
    CommandSpec {
        program: string_of(&program),
        args,
        cwd: match cwd {
            Some(d) => Some(string_of(d)),
            None => None,
        },
    }
}

/// The command that starts `s`: the service's executable under its install
/// path, pointed at its configuration file (or the kind's default one), run
/// in the install path.
pub fn start_command(s: &ServiceInstance) -> (r: CommandSpec)
    ensures
        cmd_view(r) == spec_start_command(*s),
{
    proof {
        reveal_strlit("nginx.exe");
        reveal_strlit("conf");
        reveal_strlit("nginx.conf");
        reveal_strlit("-c");
        reveal_strlit("bin");
        reveal_strlit("httpd.exe");
        reveal_strlit("httpd.conf");
        reveal_strlit("-f");
        reveal_strlit("php-cgi.exe");
        reveal_strlit("-b");
        reveal_strlit("127.0.0.1:");
        reveal_strlit("mysqld.exe");
        reveal_strlit("my.ini");
        reveal_strlit("--defaults-file=");
        reveal_strlit("redis-server.exe");
        reveal_strlit("redis.windows.conf");
    }
    let ip = chars_of(s.install_path.as_str());
    let mut args: Vec<String> = Vec::new();
    let program: Vec<char>;
    match s.kind {
        ServiceKind::Nginx => {
            program = join_lit(&ip, "nginx.exe");
            args.push(lit("-c"));
            args.push(conf_or_exec(&s.config_path, join_lit(&join_lit(&ip, "conf"), "nginx.conf")));
        },
        ServiceKind::Apache => {
            program = join_lit(&join_lit(&ip, "bin"), "httpd.exe");
            args.push(lit("-f"));
            args.push(conf_or_exec(&s.config_path, join_lit(&join_lit(&ip, "conf"), "httpd.conf")));
        },
        ServiceKind::Php => {
            program = join_lit(&ip, "php-cgi.exe");
            args.push(lit("-b"));
            let mut bind = chars_of("127.0.0.1:");
            append_str(&mut bind, u64_to_string(s.port as u64).as_str());
            args.push(string_of(&bind));
            match &s.config_path {
                Some(c) => {
                    args.push(lit("-c"));
                    args.push(c.clone());
                },
                None => {},
            }
        },
        ServiceKind::Mysql => {
            program = join_lit(&join_lit(&ip, "bin"), "mysqld.exe");
            let conf = conf_or_exec(&s.config_path, join_lit(&ip, "my.ini"));
            let mut a = chars_of("--defaults-file=");
            append_str(&mut a, conf.as_str());
            args.push(string_of(&a));
        },
        ServiceKind::Redis => {
            program = join_lit(&ip, "redis-server.exe");
            args.push(conf_or_exec(&s.config_path, join_lit(&ip, "redis.windows.conf")));
        },
    }
    let r = cmd(program, args, Some(ip.as_slice()));
    assert(cmd_view(r) =~= spec_start_command(*s));
    r
}

/// The graceful stop command of `s`, if its kind has one.
pub fn stop_command(s: &ServiceInstance) -> (r: Option<CommandSpec>)
    ensures
        match spec_stop_command(*s) {
            Some(c) => r matches Some(x) && cmd_view(x) == c,
            None => r is None,
        },
{
    proof {
        reveal_strlit("nginx.exe");
        reveal_strlit("-s");
        reveal_strlit("quit");
        reveal_strlit("bin");
        reveal_strlit("httpd.exe");
        reveal_strlit("-k");
        reveal_strlit("stop");
        reveal_strlit("redis-cli.exe");
        reveal_strlit("-p");
        reveal_strlit("shutdown");
        reveal_strlit("mysqladmin.exe");
        reveal_strlit("-u");
        reveal_strlit("root");
    }
    let ip = chars_of(s.install_path.as_str());
    let mut args: Vec<String> = Vec::new();
    match s.kind {
        ServiceKind::Nginx => {
            args.push(lit("-s"));
            args.push(lit("quit"));
            let r = cmd(join_lit(&ip, "nginx.exe"), args, Some(ip.as_slice()));
            assert(string_views(r.args@) =~= seq!["-s"@, "quit"@]);
            Some(r)
        },
        ServiceKind::Apache => {
            args.push(lit("-k"));
            args.push(lit("stop"));
            let r = cmd(join_lit(&join_lit(&ip, "bin"), "httpd.exe"), args, Some(ip.as_slice()));
            assert(string_views(r.args@) =~= seq!["-k"@, "stop"@]);
            Some(r)
        },
        ServiceKind::Redis => {
            args.push(lit("-p"));
            args.push(u64_to_string(s.port as u64));
            args.push(lit("shutdown"));
            let r = cmd(join_lit(&ip, "redis-cli.exe"), args, None);
            assert(string_views(r.args@) =~= seq!["-p"@, decimal(s.port as nat), "shutdown"@]);
            Some(r)
        },
        ServiceKind::Mysql => {
            args.push(lit("-u"));
            args.push(lit("root"));
            args.push(lit("shutdown"));
            let r = cmd(join_lit(&join_lit(&ip, "bin"), "mysqladmin.exe"), args, Some(ip.as_slice()));
            assert(string_views(r.args@) =~= seq!["-u"@, "root"@, "shutdown"@]);
            Some(r)
        },
        ServiceKind::Php => None,
    }
}

// ------------------------------------------------------------------
// Messages from what the commands report
// ------------------------------------------------------------------

/// The message when a service exits at once after start: its last line of
/// error output when there is any, else its exit code.
pub open spec fn spec_start_failure(kind: ServiceKind, code: i32, stderr: Seq<char>) -> Seq<char> {
    let t = trim(stderr);
    if t.len() == 0 {
        spec_display_name(kind) + " 启动失败 (exit code "@ + signed_decimal(code as int) + ")"@
    } else {
        spec_display_name(kind) + " 启动失败: "@ + lines(t).last()
    }
}

proof fn lemma_lines_nonempty(s: Seq<char>, cur: Seq<char>)
    requires
        s.len() > 0 || cur.len() > 0,
    ensures
        crate::text::lines_from(s, cur).len() > 0,
    decreases s.len(),
{
    if s.len() > 0 && s[0] != '\n' {
        lemma_lines_nonempty(s.drop_first(), cur.push(s[0]));
    }
}

/// The message when a service exits at once after start.
pub fn start_failure_message(kind: ServiceKind, code: i32, stderr: &str) -> (r: String)
    ensures
        r@ == spec_start_failure(kind, code, stderr@),
{
    let t = trim_of(&chars_of(stderr));
    let mut m = chars_of(kind.display_name());
    if t.len() == 0 {
        append_str(&mut m, " 启动失败 (exit code ");
        append_str(&mut m, i32_to_string(code).as_str());
        append_str(&mut m, ")");
    } else {
        let ls = lines_of(&t);
        proof {
            lemma_lines_nonempty(t@, Seq::empty());
        }
        append_str(&mut m, " 启动失败: ");
        assert(views(ls@).last() == ls@[ls.len() - 1]@);
        append(&mut m, &ls[ls.len() - 1]);
    }
    string_of(&m)
}

/// The message when killing a service's process failed: a lack of rights
/// is named as such, anything else quotes the error output.
pub open spec fn spec_kill_failure(kind: ServiceKind, pid: u32, stderr: Seq<char>) -> Seq<char> {
    let d = spec_display_name(kind);
    if contains(stderr, "Access is denied"@) || contains(stderr, "拒绝访问"@) {
        "无法结束 "@ + d + " (PID "@ + decimal(pid as nat) + "): 权限不足（进程可能以管理员身份启动）"@
    } else {
        "无法结束 "@ + d + " (PID "@ + decimal(pid as nat) + "): "@ + stderr
    }
}

/// The message when killing a service's process failed; `stderr` is the
/// trimmed error output of the kill.
pub fn kill_failure_message(kind: ServiceKind, pid: u32, stderr: &str) -> (r: String)
    ensures
        r@ == spec_kill_failure(kind, pid, stderr@),
{
    let e = chars_of(stderr);
    let mut m = chars_of("无法结束 ");
    append_str(&mut m, kind.display_name());
    append_str(&mut m, " (PID ");
    append_str(&mut m, u64_to_string(pid as u64).as_str());
    if contains_str(&e, "Access is denied") || contains_str(&e, "拒绝访问") {
        append_str(&mut m, "): 权限不足（进程可能以管理员身份启动）");
    } else {
        append_str(&mut m, "): ");
        append_str(&mut m, stderr);
    }
    string_of(&m)
}

/// The message when the port is still taken after a stop; the process
/// holding it is named when known (a non-zero PID).
pub open spec fn spec_port_still_busy(kind: ServiceKind, port: u16, holder: u32) -> Seq<char> {
    spec_display_name(kind) + " 已发出停止命令但端口 "@ + decimal(port as nat) + " 仍被占用"@
        + if holder > 0 { "（端口仍被 PID "@ + decimal(holder as nat) + " 占用）"@ } else { Seq::empty() }
}

/// The message when the port is still taken after a stop.
pub fn port_still_busy_message(kind: ServiceKind, port: u16, holder: u32) -> (r: String)
    ensures
        r@ == spec_port_still_busy(kind, port, holder),
{
    let mut m = chars_of(kind.display_name());
    append_str(&mut m, " 已发出停止命令但端口 ");
    append_str(&mut m, u64_to_string(port as u64).as_str());
    append_str(&mut m, " 仍被占用");
    if holder > 0 {
        append_str(&mut m, "（端口仍被 PID ");
        append_str(&mut m, u64_to_string(holder as u64).as_str());
        append_str(&mut m, " 占用）");
    }
    string_of(&m)
}

/// The index of the first line that mentions `emerg` or `error`.
pub open spec fn first_error_line(ls: Seq<Seq<char>>) -> Option<int>
    decreases ls.len(),
{
    if ls.len() == 0 {
        None
    } else if contains(ls[0], "emerg"@) || contains(ls[0], "error"@) {
        Some(0)
    } else {
        match first_error_line(ls.drop_first()) {
            Some(i) => Some(i + 1),
            None => None,
        }
    }
}

/// The message when `nginx -t` rejects the configuration: the first line of
/// its error output that mentions `emerg` or `error`, else its last line,
/// else `unknown`.
pub open spec fn spec_nginx_config_error(stderr: Seq<char>) -> Seq<char> {
    let ls = lines(stderr);
    "Nginx 配置错误: "@ + match first_error_line(ls) {
        Some(i) => ls[i],
        None => if ls.len() > 0 { ls.last() } else { "unknown"@ },
    }
}

proof fn lemma_first_error_line(ls: Seq<Seq<char>>, i: int)
    requires
        0 <= i <= ls.len(),
        forall|j: int| 0 <= j < i ==> !(contains(#[trigger] ls[j], "emerg"@) || contains(ls[j], "error"@)),
    ensures
        i < ls.len() && (contains(ls[i], "emerg"@) || contains(ls[i], "error"@)) ==> first_error_line(ls) == Some(i),
        i == ls.len() ==> first_error_line(ls) is None,
    decreases i,
{
    if i > 0 {
        let t = ls.drop_first();
        assert forall|j: int| 0 <= j < i - 1 implies !(contains(#[trigger] t[j], "emerg"@) || contains(t[j], "error"@)) by {
            assert(t[j] == ls[j + 1]);
        }
        assert(!(contains(ls[0], "emerg"@) || contains(ls[0], "error"@)));
        lemma_first_error_line(t, i - 1);
    }
}

/// The message when `nginx -t` rejects the configuration.
pub fn nginx_config_error(stderr: &str) -> (r: String)
    ensures
        r@ == spec_nginx_config_error(stderr@),
{
    let ls = lines_of(&chars_of(stderr));
    let ghost lv = views(ls@);
    let mut m = chars_of("Nginx 配置错误: ");
    proof {
        reveal_strlit("unknown");
    }
    let mut i: usize = 0;
    while i < ls.len()
        invariant
            i <= ls.len(),
            lv == views(ls@),
            lv == lines(stderr@),
            m@ == "Nginx 配置错误: "@,
            forall|j: int| 0 <= j < i ==> !(contains(#[trigger] lv[j], "emerg"@) || contains(lv[j], "error"@)),
        decreases ls.len() - i,
    {
        assert(lv[i as int] == ls@[i as int]@);
        if contains_str(&ls[i], "emerg") || contains_str(&ls[i], "error") {
            proof {
                lemma_first_error_line(lv, i as int);
            }
            append(&mut m, &ls[i]);
            return string_of(&m);
        }
        i += 1;
    }
    proof {
        lemma_first_error_line(lv, i as int);
    }
    if ls.len() > 0 {
        assert(lv.last() == ls@[ls.len() - 1]@);
        append(&mut m, &ls[ls.len() - 1]);
    } else {
        append_str(&mut m, "unknown");
    }
    string_of(&m)
}

/// The commands a reload runs, in order: for Nginx a configuration test
/// (`-t`) then `-s reload`; for Apache `-k graceful`; none for the others.
pub open spec fn spec_reload_steps(s: ServiceInstance) -> Seq<(Seq<char>, Seq<Seq<char>>, Option<Seq<char>>)> {
    let ip = s.install_path@;
    match s.kind {
        ServiceKind::Nginx => seq![
            (win_join(ip, "nginx.exe"@), seq!["-t"@], Some(ip)),
            (win_join(ip, "nginx.exe"@), seq!["-s"@, "reload"@], Some(ip)),
        ],
        ServiceKind::Apache => seq![(join2(ip, "bin"@, "httpd.exe"@), seq!["-k"@, "graceful"@], Some(ip))],
        _ => Seq::empty(),
    }
}

/// The commands a reload of `s` runs, in order.
pub fn reload_steps(s: &ServiceInstance) -> (r: Vec<CommandSpec>)
    ensures
        r@.map_values(|c: CommandSpec| cmd_view(c)) == spec_reload_steps(*s),
{
    proof {
        reveal_strlit("nginx.exe");
        reveal_strlit("-t");
        reveal_strlit("-s");
        reveal_strlit("reload");
        reveal_strlit("bin");
        reveal_strlit("httpd.exe");
        reveal_strlit("-k");
        reveal_strlit("graceful");
    }
    let ip = chars_of(s.install_path.as_str());
    let mut r: Vec<CommandSpec> = Vec::new();
    match s.kind {
        ServiceKind::Nginx => {
            let mut a1: Vec<String> = Vec::new();
            a1.push(lit("-t"));
            let c1 = cmd(join_lit(&ip, "nginx.exe"), a1, Some(ip.as_slice()));
            assert(string_views(c1.args@) =~= seq!["-t"@]);
            let mut a2: Vec<String> = Vec::new();
            a2.push(lit("-s"));
            a2.push(lit("reload"));
            let c2 = cmd(join_lit(&ip, "nginx.exe"), a2, Some(ip.as_slice()));
            assert(string_views(c2.args@) =~= seq!["-s"@, "reload"@]);
            r.push(c1);
            r.push(c2);
        },
        ServiceKind::Apache => {
            let mut a: Vec<String> = Vec::new();
            a.push(lit("-k"));
            a.push(lit("graceful"));
            let c = cmd(join_lit(&join_lit(&ip, "bin"), "httpd.exe"), a, Some(ip.as_slice()));
            assert(string_views(c.args@) =~= seq!["-k"@, "graceful"@]);
            r.push(c);
        },
        _ => {},
    }
    assert(r@.map_values(|c: CommandSpec| cmd_view(c)) =~= spec_reload_steps(*s));
    r
}

/// The message when a reload command failed: the kind's name and the
/// trimmed error output.
pub open spec fn spec_reload_failure(kind: ServiceKind, stderr: Seq<char>) -> Seq<char> {
    spec_display_name(kind) + " reload 失败: "@ + trim(stderr)
}

/// The message when a reload command failed.
pub fn reload_failure_message(kind: ServiceKind, stderr: &str) -> (r: String)
    ensures
        r@ == spec_reload_failure(kind, stderr@),
{
    let mut m = chars_of(kind.display_name());
    append_str(&mut m, " reload 失败: ");
    append(&mut m, &trim_of(&chars_of(stderr)));
    string_of(&m)
}

} // verus!

verus! {

/// The process manager on Linux, where managing services is not supported
/// yet: every action fails with that message, and every service reads as
/// stopped.
pub struct LinuxProcessManager;

/// The message of every Linux process action.
pub open spec fn linux_unsupported() -> Seq<char> {
    "Linux support not yet implemented"@
}

fn unsupported() -> (e: crate::error::NaxOneError)
    ensures
        e matches crate::error::NaxOneError::Process(m) && m@ == linux_unsupported(),
{
    proof {
        reveal_strlit("Linux support not yet implemented");
    }
    crate::error::NaxOneError::Process(lit("Linux support not yet implemented"))
}

impl LinuxProcessManager {
    /// Starting fails: not supported.
    pub fn start(&self, _instance: &ServiceInstance) -> (r: Result<u32, crate::error::NaxOneError>)
        ensures
            r matches Err(crate::error::NaxOneError::Process(m)) && m@ == linux_unsupported(),
    {
        Err(unsupported())
    }

    /// Stopping fails: not supported.
    pub fn stop(&self, _instance: &ServiceInstance) -> (r: Result<(), crate::error::NaxOneError>)
        ensures
            r matches Err(crate::error::NaxOneError::Process(m)) && m@ == linux_unsupported(),
    {
        Err(unsupported())
    }

    /// Restarting fails: not supported.
    pub fn restart(&self, _instance: &ServiceInstance) -> (r: Result<u32, crate::error::NaxOneError>)
        ensures
            r matches Err(crate::error::NaxOneError::Process(m)) && m@ == linux_unsupported(),
    {
        Err(unsupported())
    }

    /// Every service reads as stopped.
    pub fn status(&self, _instance: &ServiceInstance) -> (r: Result<crate::service::ServiceStatus, crate::error::NaxOneError>)
        ensures
            r == Ok::<crate::service::ServiceStatus, crate::error::NaxOneError>(crate::service::ServiceStatus::Stopped),
    {
        Ok(crate::service::ServiceStatus::Stopped)
    }

    /// Reloading fails: not supported.
    pub fn reload(&self, _instance: &ServiceInstance) -> (r: Result<(), crate::error::NaxOneError>)
        ensures
            r matches Err(crate::error::NaxOneError::Process(m)) && m@ == linux_unsupported(),
    {
        Err(unsupported())
    }
}

} // verus!

verus! {

// ======================== Probing a service's state ========================

/// The PID listening on `port` in a `netstat` snapshot: that of its first
/// entry.
pub open spec fn pid_on_port(m: Seq<(u16, u32)>, port: u16) -> Option<u32>
    decreases m.len(),
{
    if m.len() == 0 {
        None
    } else if m[0].0 == port {
        Some(m[0].1)
    } else {
        pid_on_port(m.drop_first(), port)
    }
}

fn pid_on_port_exec(m: &Vec<(u16, u32)>, port: u16) -> (r: Option<u32>)
    ensures
        r == pid_on_port(m@, port),
{
    let mut i: usize = 0;
    assert(m@.skip(0) =~= m@);
    while i < m.len()
        invariant
            i <= m.len(),
            pid_on_port(m@, port) == pid_on_port(m@.skip(i as int), port),
        decreases m.len() - i,
    {
        assert(m@.skip(i as int)[0] == m@[i as int]);
        assert(m@.skip(i as int).drop_first() =~= m@.skip(i + 1));
        if m[i].0 == port {
            return Some(m[i].1);
        }
        i += 1;
    }
    None
}

/// What the probe of a service goes on with after the port check.
#[derive(Debug, Clone, Copy, PartialEq, Eq, Structural)]
pub enum ProbePid {
    /// Nothing listens, or no process could be tied to the port.
    Stopped,
    /// The process is known: the one the manager started, or the listener
    /// of a PHP port (PHP ports are trusted).
    Known(u32),
    /// The listener of a web, database or cache port; it counts only when
    /// its image name fits the kind (`pid_matches_service`).
    CheckName(u32),
}

/// The process a state probe looks at: none when the port is closed; the
/// one the manager started, when it started one; else the listener in the
/// `netstat` snapshot, none when there is none (or it is PID 0), to be
/// checked by name unless the service is PHP.
pub open spec fn spec_probe_pid(port_open: bool, own_pid: Option<u32>, kind: ServiceKind, port: u16, listening: Seq<(u16, u32)>) -> ProbePid {
    if !port_open {
        ProbePid::Stopped
    } else {
        match own_pid {
            Some(p) => ProbePid::Known(p),
            None => match pid_on_port(listening, port) {
                Some(p) => if p == 0 {
                    ProbePid::Stopped
                } else if kind == ServiceKind::Php {
                    ProbePid::Known(p)
                } else {
                    ProbePid::CheckName(p)
                },
                None => ProbePid::Stopped,
            },
        }
    }
}

/// The first step of a state probe (see `spec_probe_pid`).
pub fn probe_pid(port_open: bool, own_pid: Option<u32>, kind: ServiceKind, port: u16, listening: &Vec<(u16, u32)>) -> (r: ProbePid)
    ensures
        r == spec_probe_pid(port_open, own_pid, kind, port, listening@),
{
    if !port_open {
        return ProbePid::Stopped;
    }
    match own_pid {
        Some(p) => ProbePid::Known(p),
        None => match pid_on_port_exec(listening, port) {
            Some(p) => {
                if p == 0 {
                    ProbePid::Stopped
                } else if kind == ServiceKind::Php {
                    ProbePid::Known(p)
                } else {
                    ProbePid::CheckName(p)
                }
            },
            None => ProbePid::Stopped,
        },
    }
}

/// The state a probe reports for a process that counts: running, with the
/// memory the `tasklist` snapshot gives it.
pub fn probed_status(pid: u32, memory: &Vec<(u32, u64)>) -> (r: crate::service::ServiceStatus)
    ensures
        r == (crate::service::ServiceStatus::Running { pid, memory_mb: crate::tasklist::memory_of(memory@, pid) }),
{
    crate::service::ServiceStatus::Running { pid, memory_mb: crate::tasklist::memory_of_exec(memory, pid) }
}

} // verus!

verus! {

/// The state a probe reports from what its steps found: the port check,
/// the manager's own process, the `netstat` listeners, the listener's
/// image name from `tasklist` (when one was asked for) and the memory
/// snapshot. `probe_pid`, `pid_matches_service` and `probed_status` run
/// these steps.
pub open spec fn probe_outcome(
    port_open: bool,
    own_pid: Option<u32>,
    kind: ServiceKind,
    port: u16,
    listening: Seq<(u16, u32)>,
    name: Option<Seq<char>>,
    memory: Seq<(u32, u64)>,
) -> crate::service::ServiceStatus {
    match spec_probe_pid(port_open, own_pid, kind, port, listening) {
        ProbePid::Stopped => crate::service::ServiceStatus::Stopped,
        ProbePid::Known(p) => crate::service::ServiceStatus::Running {
            pid: p,
            memory_mb: crate::tasklist::memory_of(memory, p),
        },
        ProbePid::CheckName(p) => if p != 0 && match name {
            Some(n) => crate::tasklist::name_fits(n, kind),
            None => false,
        } {
            crate::service::ServiceStatus::Running { pid: p, memory_mb: crate::tasklist::memory_of(memory, p) }
        } else {
            crate::service::ServiceStatus::Stopped
        },
    }
}

/// A probe never reports a service running by mistake: it reports
/// `Running` only when the port answers and the process is the one the
/// manager started, or the port's listener, which for anything but PHP
/// must carry an image name of the service's kind.
pub proof fn law_probe_no_false_running(
    port_open: bool,
    own_pid: Option<u32>,
    kind: ServiceKind,
    port: u16,
    listening: Seq<(u16, u32)>,
    name: Option<Seq<char>>,
    memory: Seq<(u32, u64)>,
)
    ensures
        probe_outcome(port_open, own_pid, kind, port, listening, name, memory) matches
            crate::service::ServiceStatus::Running { pid, .. } ==> {
            &&& port_open
            &&& match own_pid {
                Some(o) => pid == o,
                None => {
                    &&& pid_on_port(listening, port) == Some(pid)
                    &&& pid != 0
                    &&& (kind == ServiceKind::Php || (name matches Some(n) && crate::tasklist::name_fits(n, kind)))
                },
            }
        },
{
}

} // verus!
