//! One supervised instance: the spawn bookkeeping, the liveness snapshot,
//! the bounded log buffer, and the graceful-to-forceful stop escalation.
//!
//! The unverified shell owns the OS process and its pipes.  It reports
//! liveness probes and collected output lines into this state, and carries
//! out the directives (send a line, signal, wait) that the stop ladder
//! hands back.

use vstd::prelude::*;

use crate::config::{ServerConfig, ServerConfigV};
use crate::text::{before_dot, dec_str_signed, integer_prefix, parse_u64, parsed_u64, push_i64,
    tokenize, words_of};
use crate::util::{bytes_str, push_scaled, scaled_str, time_str, FormatBytes, FormatTime};

verus! {

/// How many log lines are retained per instance.
pub const MAX_LINES: usize = 80;

/// The stop timeout applied when the configuration names none, in
/// milliseconds.
pub const STOP_TIMEOUT_MS: u64 = 10000;

/// How a stop attempt ended.
#[derive(Clone, Copy, PartialEq, Eq, Structural, Debug)]
pub enum ExitStatus {
    /// The configured stop commands were sent and the process exited.
    Stopped,
    /// The termination signal reaped the process.
    Terminated,
    /// Only the kill signal reaped the process.
    Killed,
    /// The process was not alive when the stop began.
    AlreadyStopped,
}

/// The report line for an `ExitStatus`.
pub open spec fn exit_status_text(e: ExitStatus) -> Seq<char> {
    match e {
        ExitStatus::Stopped => "Stopped gently (used configured stop command)"@,
        ExitStatus::Terminated => "Terminated normally (no stop command or timed out)"@,
        ExitStatus::Killed => "Killed forcibly (server stopped responding)"@,
        ExitStatus::AlreadyStopped => "Server was already stopped!"@,
    }
}

impl ExitStatus {
    /// The report line for this status.
    pub fn describe(&self) -> (r: String)
        ensures
            r@ == exit_status_text(*self),
    {
        match self {
            ExitStatus::Stopped => String::from_str("Stopped gently (used configured stop command)"),
            ExitStatus::Terminated => String::from_str(
                "Terminated normally (no stop command or timed out)",
            ),
            ExitStatus::Killed => String::from_str("Killed forcibly (server stopped responding)"),
            ExitStatus::AlreadyStopped => String::from_str("Server was already stopped!"),
        }
    }
}

/// A rung of the stop-escalation ladder.
#[derive(Clone, Copy, PartialEq, Eq, Structural, Debug)]
pub enum StopStage {
    /// The configured stop commands were sent; awaiting a voluntary exit.
    Cooperative,
    /// The termination signal was sent; awaiting exit.
    Term,
    /// The kill signal was sent; awaiting exit.
    Kill,
}

/// What the shell must do first to stop an instance.
pub enum StopDirective {
    /// The instance was not alive: the stop is already complete.
    AlreadyDone,
    /// Send each command, in order, to the child's standard input, then
    /// wait up to the stop timeout.
    Cooperative(Vec<String>),
    /// Send the termination signal, then wait up to the stop timeout.
    Term,
}

/// Where the ladder stands after one wait.
pub enum StopOutcome {
    /// The stop is complete with the given status.
    Done(ExitStatus),
    /// Escalate: carry out the next stage, then wait again.
    Escalate(StopStage),
}

/// Advances the stop-escalation ladder after a wait at `stage` has
/// either reaped the process (`exited`) or run out its timeout.
pub fn stop_escalate(stage: StopStage, exited: bool) -> (r: StopOutcome)
    ensures
        stage is Cooperative && exited ==> r == StopOutcome::Done(ExitStatus::Stopped),
        stage is Cooperative && !exited ==> r == StopOutcome::Escalate(StopStage::Term),
        stage is Term && exited ==> r == StopOutcome::Done(ExitStatus::Terminated),
        stage is Term && !exited ==> r == StopOutcome::Escalate(StopStage::Kill),
        stage is Kill ==> r == StopOutcome::Done(ExitStatus::Killed),
{
    match stage {
        StopStage::Cooperative => {
            if exited {
                StopOutcome::Done(ExitStatus::Stopped)
            } else {
                StopOutcome::Escalate(StopStage::Term)
            }
        },
        StopStage::Term => {
            if exited {
                StopOutcome::Done(ExitStatus::Terminated)
            } else {
                StopOutcome::Escalate(StopStage::Kill)
            }
        },
        StopStage::Kill => StopOutcome::Done(ExitStatus::Killed),
    }
}

/// Whether the configuration asks for automatic restart.
pub open spec fn spec_auto_restart(c: ServerConfigV) -> bool {
    match c.auto_restart {
        Some(b) => b,
        None => false,
    }
}

/// The stop timeout the configuration calls for, in milliseconds.
pub open spec fn spec_stop_timeout(c: ServerConfigV) -> u64 {
    match c.stop_timeout {
        Some(t) => t,
        None => STOP_TIMEOUT_MS,
    }
}

/// The log buffer with the oldest lines evicted down to the retention
/// cap.
pub open spec fn cap_log(s: Seq<Seq<char>>) -> Seq<Seq<char>> {
    if s.len() <= MAX_LINES {
        s
    } else {
        s.subrange(s.len() - MAX_LINES, s.len() as int)
    }
}

/// A live instance's resource accounting, read from the host's process
/// accounting files.
#[derive(Clone, Copy, PartialEq, Eq, Structural, Debug)]
pub struct ServerInfo {
    /// The process id the accounting was read for.
    pub pid: i32,
    /// Hundredths of the ratio of CPU time to wall-clock runtime.
    pub cpu_centi: u64,
    /// Resident memory, in bytes.
    pub memory_usage: u64,
    /// Wall-clock runtime, in seconds.
    pub uptime: u64,
}

/// The whole seconds at the front of the host uptime file: the first
/// word, up to its decimal point.
pub open spec fn proc_uptime_secs(up: Seq<char>) -> Option<u64> {
    let ws = words_of(up);
    if ws.len() == 0 {
        None
    } else {
        parsed_u64(before_dot(ws[0]))
    }
}

/// The numeric field at position `idx` of the per-process accounting
/// line.
pub open spec fn stat_field(st: Seq<char>, idx: int) -> Option<u64> {
    let ws = words_of(st);
    if ws.len() <= idx {
        None
    } else {
        parsed_u64(ws[idx])
    }
}

/// The accounting report computed from the host files: CPU time is the
/// sum of user and kernel time in clock ticks, runtime the host uptime
/// minus the process start time, both in whole seconds.  Unreadable or
/// inconsistent files yield nothing, and the caller reports the instance
/// as stopped.
pub open spec fn spec_server_info(pid: i32, up: Seq<char>, st: Seq<char>, tps: u64) -> Option<
    ServerInfo,
> {
    if tps == 0 {
        None
    } else {
        match (proc_uptime_secs(up), stat_field(st, 13), stat_field(st, 14), stat_field(st, 21),
            stat_field(st, 23)) {
            (Some(uptime), Some(utime), Some(stime), Some(starttime), Some(mem)) => {
                if utime + stime > u64::MAX {
                    None
                } else {
                    let cputime = (utime + stime) as int / tps as int;
                    let start_s = starttime as int / tps as int;
                    if uptime as int <= start_s {
                        None
                    } else {
                        let runtime = uptime as int - start_s;
                        let c = 100 * cputime / runtime;
                        if c > u64::MAX {
                            None
                        } else {
                            Some(
                                ServerInfo {
                                    pid,
                                    cpu_centi: c as u64,
                                    memory_usage: mem,
                                    uptime: runtime as u64,
                                },
                            )
                        }
                    }
                }
            },
            _ => None,
        }
    }
}

/// The body of a running instance's status report.
pub open spec fn info_text(i: ServerInfo) -> Seq<char> {
    "PID: "@ + dec_str_signed(i.pid as int) + " Avg CPU: "@ + scaled_str(i.cpu_centi as nat)
        + "% Memory: "@ + bytes_str(i.memory_usage as nat) + " Uptime: "@ + time_str(
        (i.uptime / 3600) as nat,
        ((i.uptime / 60) % 60) as nat,
        (i.uptime % 60) as nat,
    )
}

impl ServerInfo {
    /// Computes the accounting report for a process from the host's
    /// uptime text, the process's accounting line, and the clock-tick
    /// rate.
    pub fn for_process(pid: i32, uptime_text: &str, stat_text: &str, ticks_per_second: u64) -> (r:
        Option<ServerInfo>)
        ensures
            r == spec_server_info(pid, uptime_text@, stat_text@, ticks_per_second),
    {
        if ticks_per_second == 0 {
            return None;
        }
        let uwords = tokenize(uptime_text);
        if uwords.len() == 0 {
            return None;
        }
        let uptime = match parse_u64(integer_prefix(uwords[0].as_str())) {
            Some(v) => v,
            None => {
                return None;
            },
        };
        let swords = tokenize(stat_text);
        if swords.len() <= 23 {
            return None;
        }
        let utime = match parse_u64(swords[13].as_str()) {
            Some(v) => v,
            None => {
                return None;
            },
        };
        let stime = match parse_u64(swords[14].as_str()) {
            Some(v) => v,
            None => {
                return None;
            },
        };
        let starttime = match parse_u64(swords[21].as_str()) {
            Some(v) => v,
            None => {
                return None;
            },
        };
        let mem = match parse_u64(swords[23].as_str()) {
            Some(v) => v,
            None => {
                return None;
            },
        };
        let cputime_ticks = match utime.checked_add(stime) {
            Some(v) => v,
            None => {
                return None;
            },
        };
        let cputime = cputime_ticks / ticks_per_second;
        let start_s = starttime / ticks_per_second;
        if uptime <= start_s {
            return None;
        }
        let runtime = uptime - start_s;
        let c = (100 as u128 * cputime as u128) / runtime as u128;
        if c > u64::MAX as u128 {
            return None;
        }
        Some(ServerInfo { pid, cpu_centi: c as u64, memory_usage: mem, uptime: runtime })
    }

    /// The body of the status report for this accounting.
    pub fn render(&self) -> (r: String)
        ensures
            r@ == info_text(*self),
    {
        let mut s = String::from_str("PID: ");
        push_i64(&mut s, self.pid as i64);
        s.append(" Avg CPU: ");
        push_scaled(&mut s, self.cpu_centi);
        s.append("% Memory: ");
        let mem = FormatBytes(self.memory_usage).render();
        s.append(mem.as_str());
        s.append(" Uptime: ");
        let up = FormatTime::from_s(self.uptime).render();
        s.append(up.as_str());
        proof {
            assert(s@ =~= info_text(*self));
        }
        s
    }
}

/// The status report for an instance: a running report with the
/// accounting body when the instance is alive and its accounting was
/// readable, otherwise a stopped report.
pub open spec fn status_text(alive: bool, info: Option<ServerInfo>) -> Seq<char> {
    if alive && info is Some {
        "Status: Running ["@ + info_text(info->0) + "]\n"@
    } else {
        "Status: Stopped\n"@
    }
}

/// One supervised instance.
pub struct Server {
    pid: i32,
    config: ServerConfig,
    alive: bool,
    pending: Vec<String>,
    log: Vec<String>,
}

impl Server {
    /// The recorded process id.
    pub closed spec fn spec_pid(&self) -> i32 {
        self.pid
    }

    /// The configuration snapshot the instance was spawned from.
    pub closed spec fn cfg(&self) -> ServerConfigV {
        self.config@
    }

    /// The most recent liveness probe result.
    pub closed spec fn spec_alive(&self) -> bool {
        self.alive
    }

    /// Output lines delivered by the collector but not yet folded into
    /// the log buffer.
    pub closed spec fn pending_lines(&self) -> Seq<Seq<char>> {
        self.pending.deep_view()
    }

    /// The retained log buffer, oldest first.
    pub closed spec fn log_lines(&self) -> Seq<Seq<char>> {
        self.log.deep_view()
    }

    /// The log buffer never exceeds its retention cap.
    pub open spec fn wf(&self) -> bool {
        self.log_lines().len() <= MAX_LINES
    }

    /// Records a freshly spawned instance: alive, with empty buffers.
    pub fn new(pid: i32, config: ServerConfig) -> (r: Server)
        ensures
            r.spec_pid() == pid,
            r.cfg() == config@,
            r.spec_alive(),
            r.pending_lines() == Seq::<Seq<char>>::empty(),
            r.log_lines() == Seq::<Seq<char>>::empty(),
            r.wf(),
    {
        let r = Server { pid, config, alive: true, pending: Vec::new(), log: Vec::new() };
        proof {
            assert(r.pending_lines() =~= Seq::<Seq<char>>::empty());
            assert(r.log_lines() =~= Seq::<Seq<char>>::empty());
        }
        r
    }

    /// The most recent liveness probe result.
    pub fn is_alive(&self) -> (r: bool)
        ensures
            r == self.spec_alive(),
    {
        self.alive
    }

    /// Records a liveness probe result.
    pub fn set_alive(&mut self, alive: bool)
        ensures
            final(self).spec_alive() == alive,
            final(self).spec_pid() == old(self).spec_pid(),
            final(self).cfg() == old(self).cfg(),
            final(self).pending_lines() == old(self).pending_lines(),
            final(self).log_lines() == old(self).log_lines(),
    {
        self.alive = alive;
    }

    /// The recorded process id.
    pub fn pid(&self) -> (r: i32)
        ensures
            r == self.spec_pid(),
    {
        self.pid
    }

    /// The configuration snapshot the instance was spawned from.
    pub fn config(&self) -> (r: &ServerConfig)
        ensures
            r@ == self.cfg(),
    {
        &self.config
    }

    /// Whether the health check should restart this instance when dead.
    pub fn auto_restart(&self) -> (r: bool)
        ensures
            r == spec_auto_restart(self.cfg()),
    {
        match self.config.auto_restart {
            Some(b) => b,
            None => false,
        }
    }

    /// The stop timeout to apply at each rung of the ladder.
    pub fn stop_timeout_ms(&self) -> (r: u64)
        ensures
            r == spec_stop_timeout(self.cfg()),
    {
        match self.config.stop_timeout {
            Some(t) => t,
            None => STOP_TIMEOUT_MS,
        }
    }

    /// Accepts one collected output line.
    pub fn deliver_line(&mut self, line: String)
        ensures
            final(self).pending_lines() == old(self).pending_lines().push(line@),
            final(self).spec_pid() == old(self).spec_pid(),
            final(self).cfg() == old(self).cfg(),
            final(self).spec_alive() == old(self).spec_alive(),
            final(self).log_lines() == old(self).log_lines(),
    {
        self.pending.push(line);
        proof {
            assert(self.pending.deep_view() =~= old(self).pending_lines().push(line@));
        }
    }

    /// Takes the next delivered line, if one is queued.
    pub fn read_line(&mut self) -> (r: Option<String>)
        ensures
            old(self).pending_lines().len() == 0 ==> r is None && *final(self) == *old(self),
            old(self).pending_lines().len() > 0 ==> r is Some && r->0@ == old(
                self,
            ).pending_lines()[0] && final(self).pending_lines() == old(
                self,
            ).pending_lines().drop_first(),
            final(self).spec_pid() == old(self).spec_pid(),
            final(self).cfg() == old(self).cfg(),
            final(self).spec_alive() == old(self).spec_alive(),
            final(self).log_lines() == old(self).log_lines(),
    {
        if self.pending.len() == 0 {
            None
        } else {
            let line = self.pending.remove(0);
            proof {
                assert(self.pending.deep_view() =~= old(self).pending_lines().drop_first());
            }
            Some(line)
        }
    }

    /// The exact line to write to the child's standard input for
    /// `command`.
    pub fn send_command(&self, command: &str) -> (r: String)
        ensures
            r@ == command@ + "\n"@,
    {
        let mut line = String::from_str(command);
        line.append("\n");
        line
    }

    /// Folds the delivered lines into the log buffer, evicts down to the
    /// retention cap, and returns the last `lines` retained lines, oldest
    /// first.
    pub fn tail(&mut self, lines: usize) -> (r: Vec<String>)
        requires
            old(self).wf(),
        ensures
            final(self).log_lines() == cap_log(
                old(self).log_lines() + old(self).pending_lines(),
            ),
            final(self).pending_lines() == Seq::<Seq<char>>::empty(),
            final(self).wf(),
            r.deep_view().len() == vstd::math::min(
                lines as int,
                final(self).log_lines().len() as int,
            ),
            r.deep_view() == final(self).log_lines().subrange(
                final(self).log_lines().len() - r.deep_view().len(),
                final(self).log_lines().len() as int,
            ),
            final(self).spec_pid() == old(self).spec_pid(),
            final(self).cfg() == old(self).cfg(),
            final(self).spec_alive() == old(self).spec_alive(),
    {
        self.log.append(&mut self.pending);
        proof {
            assert(self.log.deep_view() =~= old(self).log_lines() + old(self).pending_lines());
            assert(self.pending.deep_view() =~= Seq::<Seq<char>>::empty());
        }
        if self.log.len() > MAX_LINES {
            let excess = self.log.len() - MAX_LINES;
            let kept = self.log.split_off(excess);
            self.log = kept;
            proof {
                assert(self.log.deep_view() =~= cap_log(
                    old(self).log_lines() + old(self).pending_lines(),
                ));
            }
        } else {
            proof {
                assert(self.log.deep_view() =~= cap_log(
                    old(self).log_lines() + old(self).pending_lines(),
                ));
            }
        }
        let len = self.log.len();
        let count = if lines > len {
            len
        } else {
            lines
        };
        let start = len - count;
        let mut r: Vec<String> = Vec::new();
        let mut i = start;
        while i < len
            invariant
                start <= i <= len,
                len == self.log@.len(),
                r@.len() == i - start,
                forall|k: int| 0 <= k < r@.len() ==> r.deep_view()[k] == self.log.deep_view()[
                    start + k
                ],
            decreases len - i,
        {
            let ghost prev = r.deep_view();
            let line = self.log[i].clone();
            r.push(line);
            proof {
                assert(r.deep_view() =~= prev.push(line@));
            }
            i = i + 1;
        }
        proof {
            assert(r.deep_view().len() == count);
            assert(r.deep_view() =~= self.log.deep_view().subrange(
                start as int,
                len as int,
            ));
        }
        r
    }

    /// The status report for this instance, given the accounting read
    /// for it (or nothing, when the read failed or it is not alive).
    pub fn write_status(&self, info: &Option<ServerInfo>) -> (r: String)
        ensures
            r@ == status_text(self.spec_alive(), *info),
    {
        match info {
            Some(i) if self.alive => {
                let mut s = String::from_str("Status: Running [");
                let body = i.render();
                s.append(body.as_str());
                s.append("]\n");
                proof {
                    assert(s@ =~= status_text(self.spec_alive(), *info));
                }
                s
            },
            _ => String::from_str("Status: Stopped\n"),
        }
    }

    /// Begins the stop-escalation ladder: nothing to do when the instance
    /// is not alive; otherwise the cooperative stage when stop commands
    /// are configured, else straight to the termination signal.
    pub fn stop(&self) -> (d: StopDirective)
        ensures
            !self.spec_alive() ==> d is AlreadyDone,
            self.spec_alive() && self.cfg().on_stop.len() > 0 ==> (d matches
                StopDirective::Cooperative(cmds) && cmds.deep_view() == self.cfg().on_stop),
            self.spec_alive() && self.cfg().on_stop.len() == 0 ==> d is Term,
    {
        if !self.alive {
            StopDirective::AlreadyDone
        } else if self.config.on_stop.len() > 0 {
            let cmds = crate::config::clone_string_vec(&self.config.on_stop);
            proof {
                assert(cmds.deep_view() =~= self.cfg().on_stop);
            }
            StopDirective::Cooperative(cmds)
        } else {
            proof {
                assert(self.cfg().on_stop.len() == 0);
            }
            StopDirective::Term
        }
    }
}

} // verus!
