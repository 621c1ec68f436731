//! Starting a service together with what it needs and against what it
//! excludes: Nginx and Apache both serve port 80, so starting one first
//! stops the other (and gives up when it will not stop); starting either
//! also starts the PHP-CGI instances.
//!
//! The decisions form a state machine. The caller asks for the next
//! action, performs it with the process manager (stop, probe, start) and
//! hands the outcome back.

use vstd::prelude::*;
use crate::text::{chars_of, string_of, append_str};
use crate::service::{ServiceInstance, ServiceKind, ServiceStatus, spec_display_name};

verus! {

/// Nginx and Apache serve web pages on port 80.
pub open spec fn is_web(k: ServiceKind) -> bool {
    k == ServiceKind::Nginx || k == ServiceKind::Apache
}

/// The web server that excludes `k`.
pub open spec fn rival_of(k: ServiceKind) -> ServiceKind {
    if k == ServiceKind::Nginx { ServiceKind::Apache } else { ServiceKind::Nginx }
}

/// Where a dependency-aware start stands.
pub enum StartPhase {
    /// Stop the running rival web server at this index.
    StopRival(usize),
    /// Check that the rival at this index really stopped.
    ConfirmStopped(usize),
    /// Start the target service.
    StartTarget,
    /// Start the idle PHP-CGI instance at this index.
    StartPhp(usize),
    /// Finished, with this outcome.
    Done(Result<(), String>),
}

/// What the caller does next.
pub enum StartAction {
    /// Stop the service at this index.
    Stop(usize),
    /// Query the status of the service at this index.
    Probe(usize),
    /// Start the service at this index.
    Start(usize),
    /// Report this outcome.
    Finish(Result<(), String>),
}

/// A dependency-aware start of `services[target]`.
pub struct DepsStart {
    pub services: Vec<ServiceInstance>,
    pub target: usize,
    pub phase: StartPhase,
}

/// The first index from `from` on that holds a running service of kind `k`.
pub open spec fn next_running(s: Seq<ServiceInstance>, k: ServiceKind, from: int) -> Option<int>
    decreases s.len() - from,
{
    if from < 0 || from >= s.len() {
        None
    } else if s[from].kind == k && s[from].status is Running {
        Some(from)
    } else {
        next_running(s, k, from + 1)
    }
}

/// The first index from `from` on that holds a PHP-CGI instance not running.
pub open spec fn next_idle_php(s: Seq<ServiceInstance>, from: int) -> Option<int>
    decreases s.len() - from,
{
    if from < 0 || from >= s.len() {
        None
    } else if s[from].kind == ServiceKind::Php && !(s[from].status is Running) {
        Some(from)
    } else {
        next_idle_php(s, from + 1)
    }
}

/// No service of kind `k` below index `n` is running.
pub open spec fn none_running_below(s: Seq<ServiceInstance>, k: ServiceKind, n: int) -> bool {
    forall|j: int| 0 <= j < n && j < s.len() ==> (#[trigger] s[j]).kind == k ==> !(s[j].status is Running)
}

/// The message when the rival web server would not stop.
pub open spec fn rival_stop_failed(rival: ServiceKind, err: Seq<char>) -> Seq<char> {
    "无法停止 "@ + spec_display_name(rival) + "（占用端口 80）: "@ + err
}

/// The message when the rival web server still runs after stopping.
pub open spec fn rival_still_running(rival: ServiceKind, target: ServiceKind) -> Seq<char> {
    spec_display_name(rival) + " 停止后仍在运行（可能是以管理员身份启动的外部进程），已中止启动 "@
        + spec_display_name(target)
}

proof fn lemma_next_running(s: Seq<ServiceInstance>, k: ServiceKind, from: int)
    requires
        0 <= from <= s.len(),
    ensures
        match next_running(s, k, from) {
            Some(i) => from <= i < s.len() && s[i].kind == k && s[i].status is Running
                && forall|j: int| from <= j < i ==> !((#[trigger] s[j]).kind == k && s[j].status is Running),
            None => forall|j: int| from <= j < s.len() ==> !((#[trigger] s[j]).kind == k && s[j].status is Running),
        },
    decreases s.len() - from,
{
    if from < s.len() {
        lemma_next_running(s, k, from + 1);
    }
}

proof fn lemma_next_idle_php(s: Seq<ServiceInstance>, from: int)
    requires
        0 <= from <= s.len(),
    ensures
        match next_idle_php(s, from) {
            Some(i) => from <= i < s.len() && s[i].kind == ServiceKind::Php && !(s[i].status is Running),
            None => true,
        },
    decreases s.len() - from,
{
    if from < s.len() {
        lemma_next_idle_php(s, from + 1);
    }
}

fn next_running_exec(s: &Vec<ServiceInstance>, k: ServiceKind, from: usize) -> (r: Option<usize>)
    requires
        from <= s.len(),
    ensures
        match r {
            Some(i) => next_running(s@, k, from as int) == Some(i as int),
            None => next_running(s@, k, from as int) is None,
        },
{
    let mut i = from;
    while i < s.len()
        invariant
            from <= i <= s.len(),
            next_running(s@, k, from as int) == next_running(s@, k, i as int),
        decreases s.len() - i,
    {
        if s[i].kind == k && s[i].status.is_running() {
            return Some(i);
        }
        i += 1;
    }
    None
}

fn next_idle_php_exec(s: &Vec<ServiceInstance>, from: usize) -> (r: Option<usize>)
    requires
        from <= s.len(),
    ensures
        match r {
            Some(i) => next_idle_php(s@, from as int) == Some(i as int),
            None => next_idle_php(s@, from as int) is None,
        },
{
    let mut i = from;
    while i < s.len()
        invariant
            from <= i <= s.len(),
            next_idle_php(s@, from as int) == next_idle_php(s@, i as int),
        decreases s.len() - i,
    {
        if s[i].kind == ServiceKind::Php && !s[i].status.is_running() {
            return Some(i);
        }
        i += 1;
    }
    None
}

impl DepsStart {
    /// The kind of the target.
    pub open spec fn target_kind(&self) -> ServiceKind {
        self.services@[self.target as int].kind
    }

    /// What holds in every phase: while rivals are handled, those before
    /// the one at hand are not running; once the target is started, no
    /// rival runs; a successful finish leaves the target running.
    pub open spec fn inv(&self) -> bool {
        let s = self.services@;
        let t = self.target as int;
        let web = is_web(self.target_kind());
        let rival = rival_of(self.target_kind());
        &&& 0 <= t < s.len()
        &&& match self.phase {
            StartPhase::StopRival(i) => web && i < s.len() && s[i as int].kind == rival
                && s[i as int].status is Running && none_running_below(s, rival, i as int),
            StartPhase::ConfirmStopped(i) => web && i < s.len() && s[i as int].kind == rival
                && none_running_below(s, rival, i as int),
            StartPhase::StartTarget => !(s[t].status is Running)
                && (web ==> none_running_below(s, rival, s.len() as int)),
            StartPhase::StartPhp(i) => web && i < s.len() && s[i as int].kind == ServiceKind::Php
                && !(s[i as int].status is Running) && s[t].status is Running
                && none_running_below(s, rival, s.len() as int),
            StartPhase::Done(Ok(())) => s[t].status is Running
                && (web ==> none_running_below(s, rival, s.len() as int)),
            StartPhase::Done(Err(_)) => true,
        }
    }

    /// The phase reached once rivals from index `from` on are dealt with.
    pub open spec fn after_rivals(s: Seq<ServiceInstance>, t: int, from: int) -> StartPhase {
        match next_running(s, rival_of(s[t].kind), from) {
            Some(i) => StartPhase::StopRival(i as usize),
            None => if s[t].status is Running {
                DepsStart::after_php(s, t, 0)
            } else {
                StartPhase::StartTarget
            },
        }
    }

    /// The phase reached once PHP-CGI instances from index `from` on are
    /// dealt with (only a web server starts them).
    pub open spec fn after_php(s: Seq<ServiceInstance>, t: int, from: int) -> StartPhase {
        if !is_web(s[t].kind) {
            StartPhase::Done(Ok(()))
        } else {
            match next_idle_php(s, from) {
                Some(i) => StartPhase::StartPhp(i as usize),
                None => StartPhase::Done(Ok(())),
            }
        }
    }

    fn settle_php(services: &Vec<ServiceInstance>, target: usize, from: usize) -> (r: StartPhase)
        requires
            target < services.len(),
            from <= services.len(),
        ensures
            r == DepsStart::after_php(services@, target as int, from as int),
    {
        let web = match services[target].kind {
            ServiceKind::Nginx | ServiceKind::Apache => true,
            _ => false,
        };
        if !web {
            return StartPhase::Done(Ok(()));
        }
        match next_idle_php_exec(services, from) {
            Some(i) => StartPhase::StartPhp(i),
            None => StartPhase::Done(Ok(())),
        }
    }

    fn settle_rivals(services: &Vec<ServiceInstance>, target: usize, from: usize) -> (r: StartPhase)
        requires
            target < services.len(),
            from <= services.len(),
            is_web(services@[target as int].kind),
        ensures
            r == DepsStart::after_rivals(services@, target as int, from as int),
    {
        let rival = match services[target].kind {
            ServiceKind::Nginx => ServiceKind::Apache,
            _ => ServiceKind::Nginx,
        };
        match next_running_exec(services, rival, from) {
            Some(i) => StartPhase::StopRival(i),
            None => {
                if services[target].status.is_running() {
                    DepsStart::settle_php(services, target, 0)
                } else {
                    StartPhase::StartTarget
                }
            },
        }
    }

    /// The start of `services[target]`. A web server first deals with its
    /// rival; a target already running is not started again.
    pub fn new(services: Vec<ServiceInstance>, target: usize) -> (r: DepsStart)
        requires
            target < services.len(),
        ensures
            r.services@ == services@,
            r.target == target,
            is_web(services@[target as int].kind) ==> r.phase == DepsStart::after_rivals(
                services@,
                target as int,
                0,
            ),
            !is_web(services@[target as int].kind) ==> r.phase == (if services@[target as int].status is Running {
                StartPhase::Done(Ok(()))
            } else {
                StartPhase::StartTarget
            }),
            r.inv(),
    {
        let web = match services[target].kind {
            ServiceKind::Nginx | ServiceKind::Apache => true,
            _ => false,
        };
        let phase = if web {
            DepsStart::settle_rivals(&services, target, 0)
        } else if services[target].status.is_running() {
            StartPhase::Done(Ok(()))
        } else {
            StartPhase::StartTarget
        };
        let r = DepsStart { services, target, phase };
        assert(r.services@.len() == r.services.len());
        proof {
            r.lemma_settled_inv(0);
        }
        r
    }

    proof fn lemma_settled_inv(&self, from: int)
        requires
            0 <= self.target < self.services@.len(),
            self.services@.len() <= usize::MAX,
            0 <= from <= self.services@.len(),
            is_web(self.target_kind()) ==> none_running_below(self.services@, rival_of(self.target_kind()), from),
            is_web(self.target_kind()) ==> self.phase == DepsStart::after_rivals(self.services@, self.target as int, from),
            !is_web(self.target_kind()) ==> self.phase == (if self.services@[self.target as int].status is Running {
                StartPhase::Done(Ok(()))
            } else {
                StartPhase::StartTarget
            }),
        ensures
            self.inv(),
    {
        let s = self.services@;
        let t = self.target as int;
        if is_web(self.target_kind()) {
            let rival = rival_of(self.target_kind());
            lemma_next_running(s, rival, from);
            lemma_next_idle_php(s, 0);
            match next_running(s, rival, from) {
                Some(i) => {
                    assert forall|j: int| 0 <= j < i && j < s.len() && (#[trigger] s[j]).kind == rival implies !(s[j].status is Running) by {
                        if j >= from {
                            assert(!(s[j].kind == rival && s[j].status is Running));
                        }
                    }
                },
                None => {
                    assert forall|j: int| 0 <= j < s.len() && j < s.len() && (#[trigger] s[j]).kind == rival implies !(s[j].status is Running) by {
                        if j >= from {
                            assert(!(s[j].kind == rival && s[j].status is Running));
                        }
                    }
                },
            }
        }
    }

    /// The next thing to do.
    pub fn action(&self) -> (a: StartAction)
        ensures
            match self.phase {
                StartPhase::StopRival(i) => a == StartAction::Stop(i),
                StartPhase::ConfirmStopped(i) => a == StartAction::Probe(i),
                StartPhase::StartTarget => a == StartAction::Start(self.target),
                StartPhase::StartPhp(i) => a == StartAction::Start(i),
                StartPhase::Done(r) => a matches StartAction::Finish(x) && match (x, r) {
                    (Ok(()), Ok(())) => true,
                    (Err(m), Err(n)) => m@ == n@,
                    _ => false,
                },
            },
    {
        match &self.phase {
            StartPhase::StopRival(i) => StartAction::Stop(*i),
            StartPhase::ConfirmStopped(i) => StartAction::Probe(*i),
            StartPhase::StartTarget => StartAction::Start(self.target),
            StartPhase::StartPhp(i) => StartAction::Start(*i),
            StartPhase::Done(r) => StartAction::Finish(match r {
                Ok(()) => Ok(()),
                Err(m) => Err(m.clone()),
            }),
        }
    }

    /// The outcome of stopping the rival: on success it is stopped and is
    /// checked next; on failure the start gives up, the rival left stopping.
    pub fn on_stopped(&mut self, result: Result<(), String>)
        requires
            old(self).inv(),
            old(self).phase is StopRival,
        ensures
            final(self).inv(),
            final(self).target == old(self).target,
            ({
                let i = old(self).phase->StopRival_0 as int;
                let rival = rival_of(old(self).target_kind());
                match result {
                    Ok(()) => final(self).services@ == old(self).services@.update(
                        i,
                        ServiceInstance { status: ServiceStatus::Stopped, ..old(self).services@[i] },
                    ) && final(self).phase == StartPhase::ConfirmStopped(i as usize),
                    Err(e) => final(self).services@ == old(self).services@.update(
                        i,
                        ServiceInstance { status: ServiceStatus::Stopping, ..old(self).services@[i] },
                    ) && (final(self).phase matches StartPhase::Done(Err(m)) && m@ == rival_stop_failed(rival, e@)),
                }
            }),
    {
        let i = match self.phase {
            StartPhase::StopRival(i) => i,
            _ => 0,
        };
        let rival = match self.services[self.target].kind {
            ServiceKind::Nginx => ServiceKind::Apache,
            _ => ServiceKind::Nginx,
        };
        let ghost s0 = self.services@;
        match result {
            Ok(()) => {
                set_status(&mut self.services, i, ServiceStatus::Stopped);
                self.phase = StartPhase::ConfirmStopped(i);
                proof {
                    let s = self.services@;
                    assert forall|j: int| 0 <= j < i && j < s.len() && (#[trigger] s[j]).kind == rival implies !(s[j].status is Running) by {
                        assert(s[j] == s0[j]);
                    }
                }
            },
            Err(e) => {
                set_status(&mut self.services, i, ServiceStatus::Stopping);
                let mut m = chars_of("无法停止 ");
                append_str(&mut m, rival.display_name());
                append_str(&mut m, "（占用端口 80）: ");
                append_str(&mut m, e.as_str());
                self.phase = StartPhase::Done(Err(string_of(&m)));
            },
        }
    }

    /// The status found after stopping the rival (`None` when the query
    /// failed): a rival still running makes the start give up; else the
    /// next rival is dealt with.
    pub fn on_probed(&mut self, status: Option<ServiceStatus>)
        requires
            old(self).inv(),
            old(self).phase is ConfirmStopped,
        ensures
            final(self).inv(),
            final(self).target == old(self).target,
            ({
                let i = old(self).phase->ConfirmStopped_0 as int;
                let s1 = match status {
                    Some(st) => old(self).services@.update(i, ServiceInstance { status: st, ..old(self).services@[i] }),
                    None => old(self).services@,
                };
                &&& final(self).services@ == s1
                &&& if s1[i].status is Running {
                    final(self).phase matches StartPhase::Done(Err(m)) && m@ == rival_still_running(
                        rival_of(old(self).target_kind()),
                        old(self).target_kind(),
                    )
                } else {
                    final(self).phase == DepsStart::after_rivals(s1, old(self).target as int, i + 1)
                }
            }),
    {
        let i = match self.phase {
            StartPhase::ConfirmStopped(i) => i,
            _ => 0,
        };
        let tk = self.services[self.target].kind;
        let rival = match tk {
            ServiceKind::Nginx => ServiceKind::Apache,
            _ => ServiceKind::Nginx,
        };
        let ghost s0 = self.services@;
        match status {
            Some(st) => set_status(&mut self.services, i, st),
            None => {},
        }
        if self.services[i].status.is_running() {
            let mut m = chars_of(rival.display_name());
            append_str(&mut m, " 停止后仍在运行（可能是以管理员身份启动的外部进程），已中止启动 ");
            append_str(&mut m, tk.display_name());
            self.phase = StartPhase::Done(Err(string_of(&m)));
        } else {
            let ghost s1 = self.services@;
            assert(i < self.services.len());
            proof {
                assert(s1[self.target as int].kind == tk);
                assert forall|j: int| 0 <= j < i + 1 && j < s1.len() && (#[trigger] s1[j]).kind == rival implies !(s1[j].status is Running) by {
                    if j < i {
                        assert(s1[j] == s0[j]);
                    }
                }
            }
            self.phase = DepsStart::settle_rivals(&self.services, self.target, i + 1);
            assert(self.services@.len() == self.services.len());
            proof {
                self.lemma_settled_inv((i + 1) as int);
            }
        }
    }

    /// The outcome of starting the target or a PHP-CGI instance. The
    /// target that fails to start ends the run with its error, left
    /// starting; a PHP-CGI instance that fails is left starting and the
    /// next one is started.
    pub fn on_started(&mut self, result: Result<u32, String>)
        requires
            old(self).inv(),
            old(self).phase is StartTarget || old(self).phase is StartPhp,
        ensures
            final(self).inv(),
            final(self).target == old(self).target,
            ({
                let i = match old(self).phase {
                    StartPhase::StartPhp(i) => i as int,
                    _ => old(self).target as int,
                };
                let st = match result {
                    Ok(pid) => ServiceStatus::Running { pid, memory_mb: None },
                    Err(_) => ServiceStatus::Starting,
                };
                let s1 = old(self).services@.update(i, ServiceInstance { status: st, ..old(self).services@[i] });
                &&& final(self).services@ == s1
                &&& match (old(self).phase, result) {
                    (StartPhase::StartTarget, Err(e)) => final(self).phase matches StartPhase::Done(Err(m)) && m@ == e@,
                    (StartPhase::StartTarget, Ok(_)) => final(self).phase == DepsStart::after_php(s1, i, 0),
                    (_, _) => final(self).phase == DepsStart::after_php(s1, old(self).target as int, i + 1),
                }
            }),
    {
        let ghost s0 = self.services@;
        let (i, is_target) = match self.phase {
            StartPhase::StartPhp(i) => (i, false),
            _ => (self.target, true),
        };
        let st = match &result {
            Ok(pid) => ServiceStatus::Running { pid: *pid, memory_mb: None },
            Err(_) => ServiceStatus::Starting,
        };
        set_status(&mut self.services, i, st);
        let ghost s1 = self.services@;
        assert(self.services@.len() == self.services.len());
        assert(i < self.services.len());
        let tk = self.services[self.target].kind;
        proof {
            let rival = rival_of(tk);
            assert(s1[self.target as int].kind == s0[self.target as int].kind);
            if is_web(tk) && !is_target {
                assert forall|j: int| 0 <= j < s1.len() && j < s1.len() && (#[trigger] s1[j]).kind == rival implies !(s1[j].status is Running) by {
                    if j != i {
                        assert(s1[j] == s0[j]);
                    }
                }
            }
            if is_web(tk) && is_target {
                assert forall|j: int| 0 <= j < s1.len() && j < s1.len() && (#[trigger] s1[j]).kind == rival implies !(s1[j].status is Running) by {
                    if j != i {
                        assert(s1[j] == s0[j]);
                    }
                }
            }
        }
        if is_target {
            match result {
                Ok(_) => {
                    self.phase = DepsStart::settle_php(&self.services, self.target, 0);
                    proof {
                        lemma_next_idle_php(s1, 0);
                    }
                },
                Err(e) => {
                    self.phase = StartPhase::Done(Err(e));
                },
            }
        } else {
            self.phase = DepsStart::settle_php(&self.services, self.target, i + 1);
            proof {
                lemma_next_idle_php(s1, (i + 1) as int);
            }
        }
    }
}

fn set_status(v: &mut Vec<ServiceInstance>, i: usize, st: ServiceStatus)
    requires
        i < old(v).len(),
    ensures
        final(v)@ == old(v)@.update(i as int, ServiceInstance { status: st, ..old(v)@[i as int] }),
{
    let mut s = v.remove(i);
    s.status = st;
    v.insert(i, s);
    assert(v@ =~= old(v)@.update(i as int, ServiceInstance { status: st, ..old(v)@[i as int] }));
}

/// Mutual exclusion of the web servers: a dependency-aware start that
/// finishes successfully leaves the target running and no service of the
/// rival web server kind running.
pub proof fn law_start_excludes_rival(m: DepsStart)
    requires
        m.inv(),
        m.phase matches StartPhase::Done(Ok(())),
    ensures
        m.services@[m.target as int].status is Running,
        is_web(m.target_kind()) ==> forall|j: int| 0 <= j < m.services@.len()
            ==> (#[trigger] m.services@[j]).kind == rival_of(m.target_kind())
            ==> !(m.services@[j].status is Running),
{
}

} // verus!

verus! {

/// Whether "start all" starts a service of kind `k` when `active_web` is
/// the web server chosen in the settings: only the chosen web server is
/// started, every other kind is.
pub open spec fn spec_start_all_includes(k: ServiceKind, active_web: Seq<char>) -> bool {
    match k {
        ServiceKind::Nginx => active_web == "nginx"@,
        ServiceKind::Apache => active_web == "apache"@,
        _ => true,
    }
}

/// Whether "start all" starts a service of kind `k`.
pub fn start_all_includes(k: ServiceKind, active_web: &str) -> (r: bool)
    ensures
        r == spec_start_all_includes(k, active_web@),
{
    proof {
        reveal_strlit("nginx");
        reveal_strlit("apache");
    }
    let a = chars_of(active_web);
    match k {
        ServiceKind::Nginx => crate::text::eq_str(&a, "nginx"),
        ServiceKind::Apache => crate::text::eq_str(&a, "apache"),
        _ => true,
    }
}

/// The line reported for one service that failed in "start all" or "stop
/// all": its name, version, what failed, and the error.
pub open spec fn spec_failure_line(k: ServiceKind, version: Seq<char>, starting: bool, err: Seq<char>) -> Seq<char> {
    spec_display_name(k) + " "@ + version + (if starting { " 启动失败: "@ } else { " 停止失败: "@ }) + err
}

/// The line reported for one service that failed in "start all" or "stop all".
pub fn failure_line(k: ServiceKind, version: &str, starting: bool, err: &str) -> (r: String)
    ensures
        r@ == spec_failure_line(k, version@, starting, err@),
{
    let mut m = chars_of(k.display_name());
    append_str(&mut m, " ");
    append_str(&mut m, version);
    if starting {
        append_str(&mut m, " 启动失败: ");
    } else {
        append_str(&mut m, " 停止失败: ");
    }
    append_str(&mut m, err);
    string_of(&m)
}

/// The outcome of "start all" or "stop all": `Ok` when nothing failed,
/// else the failure lines joined by line breaks.
pub fn batch_outcome(errors: &Vec<String>) -> (r: Result<(), String>)
    ensures
        errors.len() == 0 ==> r is Ok,
        errors.len() > 0 ==> (r matches Err(m)
            && m@ == crate::text::join_lines(errors@.map_values(|e: String| e@))),
{
    if errors.len() == 0 {
        return Ok(());
    }
    let mut v: Vec<Vec<char>> = Vec::new();
    let mut i: usize = 0;
    while i < errors.len()
        invariant
            i <= errors.len(),
            crate::text::views(v@) == errors@.map_values(|e: String| e@).take(i as int),
        decreases errors.len() - i,
    {
        let ghost v0 = crate::text::views(v@);
        v.push(chars_of(errors[i].as_str()));
        assert(crate::text::views(v@) =~= v0.push(errors@[i as int]@));
        i += 1;
        assert(errors@.map_values(|e: String| e@).take(i as int) =~= errors@.map_values(|e: String| e@).take(
            (i - 1) as int,
        ).push(errors@[i - 1]@));
    }
    assert(errors@.map_values(|e: String| e@).take(errors.len() as int) =~= errors@.map_values(|e: String| e@));
    Err(string_of(&crate::text::join_lines_of(&v)))
}

} // verus!

verus! {

// ======================== Single start and stop ========================

/// The two instances differ at most in their run state.
pub open spec fn same_but_status(a: ServiceInstance, b: ServiceInstance) -> bool {
    &&& a.kind == b.kind
    &&& a.version == b.version
    &&& a.variant == b.variant
    &&& a.install_path == b.install_path
    &&& a.config_path == b.config_path
    &&& a.port == b.port
    &&& a.auto_start == b.auto_start
    &&& a.origin == b.origin
}

/// The state after a start is asked for: a running service stays as it
/// is, any other is `Starting`.
pub open spec fn start_requested(s: ServiceStatus) -> ServiceStatus {
    if s is Running { s } else { ServiceStatus::Starting }
}

/// The state after the process start reported back.
pub open spec fn start_reported(s: ServiceStatus, result: Result<u32, String>) -> ServiceStatus {
    match result {
        Ok(pid) => ServiceStatus::Running { pid, memory_mb: None },
        Err(_) => s,
    }
}

/// The state after a stop is asked for: a running service is `Stopping`,
/// any other stays as it is.
pub open spec fn stop_requested(s: ServiceStatus) -> ServiceStatus {
    if s is Running { ServiceStatus::Stopping } else { s }
}

/// The state after the process stop reported back.
pub open spec fn stop_reported(s: ServiceStatus, result: Result<(), String>) -> ServiceStatus {
    match result {
        Ok(()) => ServiceStatus::Stopped,
        Err(_) => s,
    }
}

/// Starting and stopping one service: the run state moves through
/// `Starting` and `Stopping`; the process work between the two halves of
/// each move is the caller's.
pub struct ServiceManager;

impl ServiceManager {
    pub fn new() -> (r: ServiceManager) {
        ServiceManager
    }

    /// The first half of a start: a running service is left alone (`false`:
    /// nothing to do); any other becomes `Starting` (`true`: start its
    /// process and report with `start_finished`).
    pub fn start_service(&self, instance: &mut ServiceInstance) -> (go: bool)
        ensures
            go == !(old(instance).status is Running),
            final(instance).status == start_requested(old(instance).status),
            same_but_status(*final(instance), *old(instance)),
    {
        if instance.status.is_running() {
            return false;
        }
        instance.status = ServiceStatus::Starting;
        true
    }

    /// The second half of a start: the process id makes the service
    /// `Running`; a failure is passed on and leaves the state as it was.
    pub fn start_finished(&self, instance: &mut ServiceInstance, result: Result<u32, String>) -> (r: Result<(), String>)
        ensures
            final(instance).status == start_reported(old(instance).status, result),
            result is Ok ==> r is Ok,
            result matches Err(e) ==> r == Err::<(), String>(e),
            same_but_status(*final(instance), *old(instance)),
    {
        match result {
            Ok(pid) => {
                instance.status = ServiceStatus::Running { pid, memory_mb: None };
                Ok(())
            },
            Err(e) => Err(e),
        }
    }

    /// The first half of a stop: a service that is not running is left
    /// alone (`false`); a running one becomes `Stopping` (`true`: stop its
    /// process and report with `stop_finished`).
    pub fn stop_service(&self, instance: &mut ServiceInstance) -> (go: bool)
        ensures
            go == (old(instance).status is Running),
            final(instance).status == stop_requested(old(instance).status),
            same_but_status(*final(instance), *old(instance)),
    {
        if !instance.status.is_running() {
            return false;
        }
        instance.status = ServiceStatus::Stopping;
        true
    }

    /// The second half of a stop: success makes the service `Stopped`; a
    /// failure is passed on and leaves the state as it was.
    pub fn stop_finished(&self, instance: &mut ServiceInstance, result: Result<(), String>) -> (r: Result<(), String>)
        ensures
            final(instance).status == stop_reported(old(instance).status, result),
            result is Ok ==> r is Ok,
            result matches Err(e) ==> r == Err::<(), String>(e),
            same_but_status(*final(instance), *old(instance)),
    {
        match result {
            Ok(()) => {
                instance.status = ServiceStatus::Stopped;
                Ok(())
            },
            Err(e) => Err(e),
        }
    }

    /// Records the state the process manager reported.
    pub fn refresh_status(&self, instance: &mut ServiceInstance, status: ServiceStatus)
        ensures
            final(instance).status == status,
            same_but_status(*final(instance), *old(instance)),
    {
        instance.status = status;
    }

    /// The start of `services[target]` with its dependencies (see
    /// `DepsStart`).
    pub fn start_with_deps(&self, services: Vec<ServiceInstance>, target: usize) -> (r: DepsStart)
        requires
            target < services.len(),
        ensures
            r.services@ == services@,
            r.target == target,
            r.inv(),
    {
        DepsStart::new(services, target)
    }
}

/// A restart is a stop (its second half only when the first said to go
/// on) followed by a start. When the process stop and start both succeed,
/// the service ends `Running` under the new process id, whatever state it
/// was in.
pub proof fn law_restart_runs(s: ServiceStatus, pid: u32)
    ensures
        ({
            let s1 = stop_requested(s);
            let s2 = if s is Running { stop_reported(s1, Ok(())) } else { s1 };
            let s3 = start_requested(s2);
            let s4 = if s2 is Running { s3 } else { start_reported(s3, Ok(pid)) };
            s4 == ServiceStatus::Running { pid, memory_mb: None }
        }),
{
}

/// A start asked of a running service changes nothing, and neither does a
/// stop asked of a service that is not running.
pub proof fn law_requests_idempotent(s: ServiceStatus)
    ensures
        s is Running ==> start_requested(s) == s,
        !(s is Running) ==> stop_requested(s) == s,
        start_requested(start_requested(s)) == start_requested(s),
        stop_requested(stop_requested(s)) == stop_requested(s),
{
}

} // verus!
