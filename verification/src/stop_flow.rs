//! The decisions of stopping a service on Windows, as a step function: the
//! caller carries out each action (run the graceful stop command, look up
//! the process, kill it, wait and probe the port) and reports what it saw;
//! the step says what comes next, until the stop has succeeded or failed.

use vstd::prelude::*;
use crate::text::{chars_of, string_of, trim, trim_of};
use crate::service::ServiceInstance;
use crate::process_cmd::{
    CommandSpec, cmd_view, kill_failure_message, port_still_busy_message, spec_kill_failure,
    spec_port_still_busy, spec_stop_command, stop_command,
};

verus! {

/// Where a stop stands.
#[derive(Clone, Copy, PartialEq, Eq, Structural, Debug)]
pub enum StopPhase {
    /// Nothing done yet.
    Begin,
    /// The graceful stop command was started.
    Graceful,
    /// The service's process ID was asked for.
    Lookup,
    /// `taskkill /F` was started on this process.
    Kill { pid: u32 },
    /// The port is being probed after a short wait.
    Settle,
    /// The process still holding the port was asked for.
    Holder,
    /// The stop is over.
    Done,
}

/// What the caller saw after carrying out the last action.
pub enum StopEvent {
    /// The stop is asked for.
    Start,
    /// The graceful command ended: `Some(true)` when it exited with
    /// success, `Some(false)` when it failed, `None` when it could not run.
    GracefulExit(Option<bool>),
    /// The process ID tracked for the service, else the one listening on
    /// its port; 0 when there is none.
    Pid(u32),
    /// `taskkill` ended: its success and its error output, or `None` when
    /// it could not run.
    KillExit(Option<(bool, String)>),
    /// Whether the port still answers.
    PortBusy(bool),
    /// The process ID listening on the port; 0 when none is found.
    HolderPid(u32),
}

/// What the caller does next.
pub enum StopAction {
    /// Run this command and wait for it.
    RunGraceful(CommandSpec),
    /// Ask for the tracked process ID, else the one listening on the port.
    LookupPid,
    /// Run `taskkill /F /PID` on this process.
    Kill(u32),
    /// Wait a moment (200 ms), then probe the port.
    WaitAndProbe,
    /// Ask for the process listening on the port.
    FindHolder,
    /// Forget the service's process: the stop succeeded.
    Forget,
    /// The stop failed with this message.
    Fail(String),
}

/// Whether `ev` answers the action of `phase`.
pub open spec fn stop_event_fits(phase: StopPhase, ev: StopEvent) -> bool {
    match phase {
        StopPhase::Begin => ev is Start,
        StopPhase::Graceful => ev is GracefulExit,
        StopPhase::Lookup => ev is Pid,
        StopPhase::Kill { .. } => ev is KillExit,
        StopPhase::Settle => ev is PortBusy,
        StopPhase::Holder => ev is HolderPid,
        StopPhase::Done => false,
    }
}

/// One step of a stop. The graceful command comes first when the service
/// has one; if it succeeds the stop is done. Otherwise the service's
/// process is killed when one is found, a failed kill ends the stop with
/// its error, and at last the port must be free: the stop succeeds only
/// then, else it fails naming the port and the process still holding it.
pub fn stop_step(s: &ServiceInstance, phase: StopPhase, ev: StopEvent) -> (r: (StopPhase, StopAction))
    requires
        stop_event_fits(phase, ev),
    ensures
        match (phase, ev) {
            (StopPhase::Begin, _) => match spec_stop_command(*s) {
                Some(c) => r.0 == StopPhase::Graceful && (r.1 matches StopAction::RunGraceful(x) && cmd_view(x) == c),
                None => r.0 == StopPhase::Lookup && r.1 is LookupPid,
            },
            (StopPhase::Graceful, StopEvent::GracefulExit(g)) => if g == Some(true) {
                r.0 == StopPhase::Done && r.1 is Forget
            } else {
                r.0 == StopPhase::Lookup && r.1 is LookupPid
            },
            (StopPhase::Lookup, StopEvent::Pid(p)) => if p > 0 {
                r.0 == (StopPhase::Kill { pid: p }) && r.1 == StopAction::Kill(p)
            } else {
                r.0 == StopPhase::Settle && r.1 is WaitAndProbe
            },
            (StopPhase::Kill { pid }, StopEvent::KillExit(k)) => match k {
                Some((false, e)) => r.0 == StopPhase::Done && (r.1 matches StopAction::Fail(m) && m@
                    == spec_kill_failure(s.kind, pid, trim(e@))),
                _ => r.0 == StopPhase::Settle && r.1 is WaitAndProbe,
            },
            (StopPhase::Settle, StopEvent::PortBusy(b)) => if b {
                r.0 == StopPhase::Holder && r.1 is FindHolder
            } else {
                r.0 == StopPhase::Done && r.1 is Forget
            },
            (StopPhase::Holder, StopEvent::HolderPid(h)) => r.0 == StopPhase::Done && (r.1 matches StopAction::Fail(m)
                && m@ == spec_port_still_busy(s.kind, s.port, h)),
            _ => false,
        },
{
    match phase {
        StopPhase::Begin => match stop_command(s) {
            Some(c) => (StopPhase::Graceful, StopAction::RunGraceful(c)),
            None => (StopPhase::Lookup, StopAction::LookupPid),
        },
        StopPhase::Graceful => match ev {
            StopEvent::GracefulExit(Some(true)) => (StopPhase::Done, StopAction::Forget),
            _ => (StopPhase::Lookup, StopAction::LookupPid),
        },
        StopPhase::Lookup => match ev {
            StopEvent::Pid(p) => if p > 0 {
                (StopPhase::Kill { pid: p }, StopAction::Kill(p))
            } else {
                (StopPhase::Settle, StopAction::WaitAndProbe)
            },
            _ => (StopPhase::Settle, StopAction::WaitAndProbe),
        },
        StopPhase::Kill { pid } => match ev {
            StopEvent::KillExit(Some((false, e))) => {
                let t = trim_of(&chars_of(e.as_str()));
                let te = string_of(&t);
                (StopPhase::Done, StopAction::Fail(kill_failure_message(s.kind, pid, te.as_str())))
            },
            _ => (StopPhase::Settle, StopAction::WaitAndProbe),
        },
        StopPhase::Settle => match ev {
            StopEvent::PortBusy(true) => (StopPhase::Holder, StopAction::FindHolder),
            _ => (StopPhase::Done, StopAction::Forget),
        },
        StopPhase::Holder => match ev {
            StopEvent::HolderPid(h) => (
                StopPhase::Done,
                StopAction::Fail(port_still_busy_message(s.kind, s.port, h)),
            ),
            _ => (StopPhase::Done, StopAction::Forget),
        },
        StopPhase::Done => (StopPhase::Done, StopAction::Forget),
    }
}

} // verus!
