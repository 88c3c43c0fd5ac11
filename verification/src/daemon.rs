//! The control-loop owner: a registry of running instances, the command
//! dispatcher, and the health check.
//!
//! Every command handler computes its exact response text and the state
//! change it makes.  Where a command needs outside work — spawning a
//! process, running the stop ladder, writing to a child's standard input,
//! reading process accounting, reloading the external configuration — the
//! handler returns a [`Pending`] directive; the unverified shell carries
//! it out and hands the outcome to the matching completion handler.

use vstd::prelude::*;

use crate::config::{find_key, table_get, table_has, table_wf, Config, ConfigTable, ConfigV,
    ServerConfig};
use crate::server::{exit_status_text, spec_auto_restart, status_text, ExitStatus, Server,
    ServerInfo};
use crate::text::{dec_str, join_spaces, join_with_spaces, parse_u64, str_eq};

verus! {

/// How many lines `tail` reports when the command names no count.
pub const DEFAULT_TAIL_LINES: usize = 20;

/// How many log lines the health check reports for a dead instance.
pub const HEALTH_TAIL_LINES: usize = 5;

// ---------------------------------------------------------------------
// Response texts
// ---------------------------------------------------------------------

pub open spec fn msg_usage_start() -> Seq<char> {
    "Usage: start <server>\n"@
}

pub open spec fn msg_usage_stop() -> Seq<char> {
    "Usage: stop <server>\n"@
}

pub open spec fn msg_usage_restart() -> Seq<char> {
    "Usage: restart <server>\n"@
}

pub open spec fn msg_usage_status() -> Seq<char> {
    "Usage: status <server>\n"@
}

pub open spec fn msg_usage_tail() -> Seq<char> {
    "Usage: tail <server> [lines]\n"@
}

pub open spec fn msg_usage_send() -> Seq<char> {
    "Usage: send <server> <command>\n"@
}

pub open spec fn msg_already_running(n: Seq<char>) -> Seq<char> {
    "Server \""@ + n + "\" already running!\n"@
}

pub open spec fn msg_no_config(n: Seq<char>) -> Seq<char> {
    "No configuration for \""@ + n + "\"\n"@
}

pub open spec fn msg_starting(n: Seq<char>) -> Seq<char> {
    "Starting \""@ + n + "\"...\n"@
}

pub open spec fn msg_started(n: Seq<char>) -> Seq<char> {
    "Server \""@ + n + "\" started!\n"@
}

pub open spec fn msg_start_error(n: Seq<char>, e: Seq<char>) -> Seq<char> {
    "Error starting \""@ + n + "\": "@ + e + "\n"@
}

pub open spec fn msg_no_instance(n: Seq<char>) -> Seq<char> {
    "No running instance of \""@ + n + "\"\n"@
}

pub open spec fn msg_stopping(n: Seq<char>) -> Seq<char> {
    "Sending stop command to \""@ + n + "\"...\n"@
}

pub open spec fn msg_stopped(n: Seq<char>, st: ExitStatus) -> Seq<char> {
    "\""@ + n + "\" stopped. Status: "@ + exit_status_text(st) + "\n"@
}

pub open spec fn msg_stop_failed(n: Seq<char>, e: Seq<char>) -> Seq<char> {
    "Failed to stop \""@ + n + "\"! Message: "@ + e + "\n"@
}

pub open spec fn msg_not_running_starting(n: Seq<char>) -> Seq<char> {
    "\""@ + n + "\" was not running! Starting anyways...\n"@
}

pub open spec fn msg_no_config_changed(n: Seq<char>) -> Seq<char> {
    "No configuration for \""@ + n + "\"! Did the configuration change?\n"@
}

pub open spec fn msg_status_header(n: Seq<char>) -> Seq<char> {
    "Server instance \""@ + n + "\" \n"@
}

pub open spec fn msg_tail_header(count: nat, n: Seq<char>) -> Seq<char> {
    "Last "@ + dec_str(count) + " lines from \""@ + n + "\":\n"@
}

pub open spec fn msg_sending(n: Seq<char>, cmd: Seq<char>) -> Seq<char> {
    "Sending command to \""@ + n + "\": "@ + cmd + "\n"@
}

pub open spec fn msg_send_line(n: Seq<char>, line: Seq<char>) -> Seq<char> {
    "\""@ + n + "\": "@ + line + "\n"@
}

pub open spec fn msg_reloading() -> Seq<char> {
    "Reloading config. Will not affect existing server instances.\n"@
}

pub open spec fn msg_reload_failed(e: Seq<char>) -> Seq<char> {
    "Failed to load config: "@ + e + "\n"@
}

pub open spec fn msg_reloaded() -> Seq<char> {
    "Config reloaded.\n"@
}

pub open spec fn msg_killing() -> Seq<char> {
    "Killing servers...\n"@
}

/// The fixed-length all-zero marker that closes a `kill-daemon`
/// response, so the client can tell a deliberate close from a stall.
pub open spec fn nul_marker() -> Seq<char> {
    Seq::new(64, |i: int| '\0')
}

pub open spec fn msg_kill_done() -> Seq<char> {
    "Daemon exiting. Any servers that failed to stop will die now.\n"@ + nul_marker()
}

pub open spec fn msg_unrecognized(op: Seq<char>) -> Seq<char> {
    "Unrecognized command: "@ + op + "\n"@
}

/// Each line followed by a newline, in order.
pub open spec fn lines_text(ls: Seq<Seq<char>>) -> Seq<char>
    decreases ls.len(),
{
    if ls.len() == 0 {
        Seq::empty()
    } else {
        lines_text(ls.drop_last()) + ls.last() + "\n"@
    }
}

/// The line count a `tail` command asks for: its optional second word,
/// when that parses; otherwise the default.
pub open spec fn spec_tail_count(args: Seq<Seq<char>>) -> int {
    if args.len() < 2 {
        DEFAULT_TAIL_LINES as int
    } else {
        match crate::text::parsed_u64(args[1]) {
            Some(v) => if v <= usize::MAX as u64 {
                v as int
            } else {
                DEFAULT_TAIL_LINES as int
            },
            None => DEFAULT_TAIL_LINES as int,
        }
    }
}

/// The words of the command vocabulary.
pub open spec fn known_op(op: Seq<char>) -> bool {
    ||| op == "start"@
    ||| op == "stop"@
    ||| op == "restart"@
    ||| op == "status"@
    ||| op == "tail"@
    ||| op == "send"@
    ||| op == "servers"@
    ||| op == "instances"@
    ||| op == "reload-config"@
    ||| op == "kill-daemon"@
    ||| op == "ops"@
}

/// The listing of one configured service.
pub open spec fn servers_entry_text(e: (Seq<char>, crate::config::ServerConfigV)) -> Seq<char> {
    crate::config::quoted(e.0) + ":\n"@ + crate::config::config_text(e.1) + "\n"@
}

/// The body of a `servers` response: every configured service, in
/// order.
pub open spec fn servers_list_text(t: ConfigTable) -> Seq<char>
    decreases t.len(),
{
    if t.len() == 0 {
        Seq::empty()
    } else {
        servers_list_text(t.drop_last()) + servers_entry_text(t.last())
    }
}

/// The body of an `instances` response: every registered instance with
/// its status report, in order, from the accounting read for each.
pub open spec fn instances_list_text(
    inst: Seq<(Seq<char>, Server)>,
    infos: Seq<Option<ServerInfo>>,
) -> Seq<char>
    decreases inst.len(),
{
    if inst.len() == 0 {
        Seq::empty()
    } else {
        instances_list_text(inst.drop_last(), infos.drop_last()) + crate::config::quoted(
            inst.last().0,
        ) + " "@ + status_text(inst.last().1.spec_alive(), infos.last())
    }
}

/// The operations table printed by `ops`, after an unrecognized command,
/// and for an empty command line.
pub open spec fn ops_table() -> Seq<char> {
    "\nshepherd ops:\n    start <server>\n    stop <server>\n    restart <server>\n    tail <server> [lines]\n    send <server> <command>\n    status <server>\n    servers\n    instances\n    reload-config\n    ops\n    kill-daemon\n\n"@
}

/// The operations table.
pub fn list_ops() -> (r: String)
    ensures
        r@ == ops_table(),
{
    String::from_str(
        "\nshepherd ops:\n    start <server>\n    stop <server>\n    restart <server>\n    tail <server> [lines]\n    send <server> <command>\n    status <server>\n    servers\n    instances\n    reload-config\n    ops\n    kill-daemon\n\n",
    )
}

fn msg1(a: &str, x: &str, b: &str) -> (r: String)
    ensures
        r@ == a@ + x@ + b@,
{
    let mut s = String::from_str(a);
    s.append(x);
    s.append(b);
    s
}

fn msg2(a: &str, x: &str, b: &str, y: &str, c: &str) -> (r: String)
    ensures
        r@ == a@ + x@ + b@ + y@ + c@,
{
    let mut s = String::from_str(a);
    s.append(x);
    s.append(b);
    s.append(y);
    s.append(c);
    s
}

fn append_lines(s: &mut String, lines: &Vec<String>)
    ensures
        final(s)@ == old(s)@ + lines_text(lines.deep_view()),
{
    let n = lines.len();
    let mut i: usize = 0;
    while i < n
        invariant
            n == lines@.len(),
            i <= n,
            s@ == old(s)@ + lines_text(lines.deep_view().take(i as int)),
        decreases n - i,
    {
        s.append(lines[i].as_str());
        s.append("\n");
        proof {
            let dv = lines.deep_view();
            assert(dv.take(i as int + 1).drop_last() =~= dv.take(i as int));
            assert(dv.take(i as int + 1).last() == dv[i as int]);
            assert(s@ =~= old(s)@ + lines_text(dv.take(i as int + 1)));
        }
        i = i + 1;
    }
    proof {
        assert(lines.deep_view().take(n as int) =~= lines.deep_view());
    }
}

/// The closing line and zero marker of a `kill-daemon` response.
pub fn kill_daemon_epilogue() -> (r: String)
    ensures
        r@ == msg_kill_done(),
{
    let mut s = String::from_str("Daemon exiting. Any servers that failed to stop will die now.\n");
    let mut k: usize = 0;
    while k < 64
        invariant
            k <= 64,
            s@ == "Daemon exiting. Any servers that failed to stop will die now.\n"@ + Seq::new(
                k as nat,
                |i: int| '\0',
            ),
        decreases 64 - k,
    {
        s.append("\0");
        proof {
            reveal_strlit("\0");
            assert(Seq::new(k as nat + 1, |i: int| '\0') =~= Seq::new(k as nat, |i: int| '\0')
                + "\0"@);
        }
        k = k + 1;
    }
    proof {
        assert(s@ =~= msg_kill_done());
    }
    s
}

// ---------------------------------------------------------------------
// Directives for the unverified shell
// ---------------------------------------------------------------------

/// Outside work a handler needs done before its command is complete.
/// The shell performs it and calls the matching completion handler.
pub enum Pending {
    /// The response is complete.
    Done,
    /// Spawn a process from `config`, build a `Server` from the result,
    /// and hand it to `spawn_finish` under `name`.
    Spawn { name: String, config: ServerConfig },
    /// Run the stop ladder on `server`, then report the outcome through
    /// `stop_server`.
    Stop { name: String, server: Server },
    /// Run the stop ladder on `server`, then continue the restart
    /// through `restart_continue`.
    RestartStop { name: String, server: Server },
    /// Read the accounting for `pid` when `alive`, then finish through
    /// `server_status_report`.
    Status { name: String, pid: i32, alive: bool },
    /// Write `line` to the child's standard input, deliver any collected
    /// output, then finish through `server_send_report`.
    Send { name: String, pid: i32, line: String },
    /// Gather accounting for every instance, then respond with
    /// `list_instances`.
    Instances,
    /// Reload the external configuration, then finish through
    /// `reload_config`.
    Reload,
    /// Run the stop ladder on each drained instance, reporting each
    /// outcome through `stop_server`, write the epilogue, and exit the
    /// control loop.
    Kill { stopping: Vec<(String, Server)> },
}

/// Reports the outcome of one stop ladder: the report line, and whether
/// the stop counts as a success.
pub fn stop_server(name: &str, outcome: &Result<ExitStatus, String>) -> (r: (String, bool))
    ensures
        outcome matches Ok(st) ==> r.0@ == msg_stopped(name@, *st) && r.1,
        outcome matches Err(e) ==> r.0@ == msg_stop_failed(name@, e@) && !r.1,
{
    match outcome {
        Ok(st) => {
            let text = st.describe();
            (msg2("\"", name, "\" stopped. Status: ", text.as_str(), "\n"), true)
        },
        Err(e) => (msg2("Failed to stop \"", name, "\"! Message: ", e.as_str(), "\n"), false),
    }
}

// ---------------------------------------------------------------------
// The daemon state
// ---------------------------------------------------------------------

/// Dead but flagged for automatic restart: what the health check acts
/// on.
pub open spec fn dead_flagged(p: (Seq<char>, Server)) -> bool {
    !p.1.spec_alive() && spec_auto_restart(p.1.cfg())
}

/// Whether the health check keeps this entry registered: everything but
/// a dead, flagged instance whose configuration has vanished.
pub open spec fn health_keeps(p: (Seq<char>, Server), t: ConfigTable) -> bool {
    p.1.spec_alive() || !spec_auto_restart(p.1.cfg()) || table_has(t, p.0)
}

/// The names of the entries, in order.
pub open spec fn names_of(inst: Seq<(Seq<char>, Server)>) -> Seq<Seq<char>> {
    inst.map_values(|p: (Seq<char>, Server)| p.0)
}

/// The names still registered after a health pass, in order.
pub open spec fn surviving_names(inst: Seq<(Seq<char>, Server)>, t: ConfigTable) -> Seq<Seq<char>> {
    names_of(inst.filter(|p: (Seq<char>, Server)| health_keeps(p, t)))
}

/// The names the health pass reports as dead, in order.
pub open spec fn dead_names(inst: Seq<(Seq<char>, Server)>) -> Seq<Seq<char>> {
    names_of(inst.filter(|p: (Seq<char>, Server)| dead_flagged(p)))
}

/// The reported names, in order.
pub open spec fn report_names(rs: Seq<HealthReport>) -> Seq<Seq<char>> {
    rs.map_values(|h: HealthReport| h.name@)
}

/// Extending the scanned prefix by one entry extends its name list by
/// that entry's name.
proof fn lemma_names_step(inst: Seq<(Seq<char>, Server)>, i: int)
    requires
        0 <= i < inst.len(),
    ensures
        names_of(inst.take(i + 1)) == names_of(inst.take(i)).push(inst[i].0),
{
    assert(inst.take(i + 1).drop_last() =~= inst.take(i));
    assert(names_of(inst.take(i + 1)) =~= names_of(inst.take(i)).push(inst[i].0));
}

/// How one more scanned entry changes the surviving and dead name
/// lists.
proof fn lemma_health_step(inst: Seq<(Seq<char>, Server)>, t: ConfigTable, k: int)
    requires
        0 <= k < inst.len(),
    ensures
        health_keeps(inst[k], t) ==> surviving_names(inst.take(k + 1), t) == surviving_names(
            inst.take(k),
            t,
        ).push(inst[k].0),
        !health_keeps(inst[k], t) ==> surviving_names(inst.take(k + 1), t) == surviving_names(
            inst.take(k),
            t,
        ),
        dead_flagged(inst[k]) ==> dead_names(inst.take(k + 1)) == dead_names(inst.take(k)).push(
            inst[k].0,
        ),
        !dead_flagged(inst[k]) ==> dead_names(inst.take(k + 1)) == dead_names(inst.take(k)),
{
    reveal(Seq::filter);
    assert(inst.take(k + 1).drop_last() =~= inst.take(k));
    assert(inst.take(k + 1).drop_last() == inst.take(k));
    assert(inst.take(k + 1).last() == inst[k]);
    if health_keeps(inst[k], t) {
        assert(surviving_names(inst.take(k + 1), t) =~= surviving_names(inst.take(k), t).push(
            inst[k].0,
        ));
    } else {
        assert(surviving_names(inst.take(k + 1), t) =~= surviving_names(inst.take(k), t));
    }
    if dead_flagged(inst[k]) {
        assert(dead_names(inst.take(k + 1)) =~= dead_names(inst.take(k)).push(inst[k].0));
    } else {
        assert(dead_names(inst.take(k + 1)) =~= dead_names(inst.take(k)));
    }
}

/// Sliding both suffixes forward by one keeps them equal.
proof fn lemma_skip_step(a: Seq<(Seq<char>, Server)>, b: Seq<(Seq<char>, Server)>, i: int, k: int)
    requires
        0 <= i < a.len(),
        0 <= k < b.len(),
        a.skip(i) == b.skip(k),
    ensures
        a.skip(i + 1) == b.skip(k + 1),
        a[i] == b[k],
{
    vstd::seq_lib::lemma_seq_skip_len(a, i);
    vstd::seq_lib::lemma_seq_skip_len(b, k);
    vstd::seq_lib::lemma_seq_skip_len(a, i + 1);
    vstd::seq_lib::lemma_seq_skip_len(b, k + 1);
    assert(a.len() - i == b.len() - k);
    vstd::seq_lib::lemma_seq_skip_index(a, i, 0);
    vstd::seq_lib::lemma_seq_skip_index(b, k, 0);
    assert(a.skip(i)[0] == a[i]);
    assert(b.skip(k)[0] == b[k]);
    assert forall|m: int| 0 <= m < a.len() - i - 1 implies #[trigger] a.skip(i + 1)[m] == b.skip(
        k + 1,
    )[m] by {
        vstd::seq_lib::lemma_seq_skip_index(a, i + 1, m);
        vstd::seq_lib::lemma_seq_skip_index(a, i, m + 1);
        vstd::seq_lib::lemma_seq_skip_index(b, k, m + 1);
        vstd::seq_lib::lemma_seq_skip_index(b, k + 1, m);
        assert(a.skip(i + 1)[m] == a[i + 1 + m]);
        assert(a.skip(i)[m + 1] == a[i + 1 + m]);
        assert(b.skip(k)[m + 1] == b[k + 1 + m]);
        assert(b.skip(k + 1)[m] == b[k + 1 + m]);
    };
    assert(a.skip(i + 1) =~= b.skip(k + 1));
}

/// What one health pass found for one dead instance.
pub struct HealthReport {
    /// The instance's name.
    pub name: String,
    /// Its last retained log lines, oldest first.
    pub lines: Vec<String>,
    /// The configuration to respawn it from, or nothing when its
    /// configuration has vanished and the entry was dropped.
    pub config: Option<ServerConfig>,
}

/// What the health check decided for one registry entry.
pub enum HealthDecision {
    /// Alive, or not flagged for restart: left untouched.
    Healthy,
    /// Dead and flagged: respawn it from `config`; `lines` are its last
    /// log lines, for the daemon's own log.
    Respawn { lines: Vec<String>, config: ServerConfig },
    /// Dead, flagged, and its configuration is gone: the entry was
    /// dropped; `lines` are its last log lines.
    Dropped { lines: Vec<String> },
}

/// The registries have the same length and agree on every entry but `i`.
pub open spec fn others_same(
    a: Seq<(Seq<char>, Server)>,
    b: Seq<(Seq<char>, Server)>,
    i: int,
) -> bool {
    a.len() == b.len() && forall|j: int| 0 <= j < a.len() && j != i ==> a[j] == b[j]
}

/// `s` is `p` with its delivered-line queue replaced by `pend`.
pub open spec fn same_but_pending(s: Server, p: Server, pend: Seq<Seq<char>>) -> bool {
    &&& s.spec_pid() == p.spec_pid()
    &&& s.cfg() == p.cfg()
    &&& s.spec_alive() == p.spec_alive()
    &&& s.log_lines() == p.log_lines()
    &&& s.pending_lines() == pend
}

/// `s` is `p` with its delivered lines folded into the capped log
/// buffer, as `tail` leaves it.
pub open spec fn folded_log(s: Server, p: Server) -> bool {
    &&& s.spec_pid() == p.spec_pid()
    &&& s.cfg() == p.cfg()
    &&& s.spec_alive() == p.spec_alive()
    &&& s.log_lines() == crate::server::cap_log(p.log_lines() + p.pending_lines())
    &&& s.pending_lines() == Seq::<Seq<char>>::empty()
}

/// The `instances` response walks exactly the registered entries: a
/// name is among the listed names precisely when an instance is
/// registered under it.  With the membership guarantees of
/// `stop_server` and `spawn_finish`, a name whose stop succeeded is
/// absent from the listing, and one whose start succeeded is present.
pub proof fn lemma_listing_names(inst: Seq<(Seq<char>, Server)>, name: Seq<char>)
    ensures
        names_of(inst).contains(name) <==> exists|i: int|
            0 <= i < inst.len() && inst[i].0 == name,
{
    if names_of(inst).contains(name) {
        let j = choose|j: int| 0 <= j < names_of(inst).len() && names_of(inst)[j] == name;
        assert(inst[j].0 == name);
    }
    if exists|i: int| 0 <= i < inst.len() && inst[i].0 == name {
        let i = choose|i: int| 0 <= i < inst.len() && inst[i].0 == name;
        assert(names_of(inst)[i] == name);
    }
}

/// Removing the entry at `i` from a registry with pairwise-distinct
/// names removes its name outright and keeps the rest, distinct, in
/// order.
proof fn lemma_registry_remove(inst: Seq<(Seq<char>, Server)>, i: int)
    requires
        forall|p: int, q: int| 0 <= p < q < inst.len() ==> inst[p].0 != inst[q].0,
        0 <= i < inst.len(),
    ensures
        inst.remove(i).len() == inst.len() - 1,
        forall|j: int|
            0 <= j < inst.remove(i).len() ==> inst.remove(i)[j] == (if j < i {
                inst[j]
            } else {
                inst[j + 1]
            }),
        forall|j: int| 0 <= j < inst.remove(i).len() ==> (#[trigger] inst.remove(i)[j]).0
            != inst[i].0,
        forall|p: int, q: int|
            0 <= p < q < inst.remove(i).len() ==> inst.remove(i)[p].0 != inst.remove(i)[q].0,
{
    let r = inst.remove(i);
    assert forall|j: int| 0 <= j < r.len() implies r[j] == (if j < i {
        inst[j]
    } else {
        inst[j + 1]
    }) by {
        if j < i {
            assert(r[j] == inst.subrange(0, i)[j]);
        } else {
            assert(r[j] == inst.subrange(i + 1, inst.len() as int)[j - i]);
        }
    };
    assert forall|j: int| 0 <= j < r.len() implies (#[trigger] r[j]).0 != inst[i].0 by {
        if j < i {
            assert(inst[j].0 != inst[i].0);
        } else {
            assert(inst[i].0 != inst[j + 1].0);
        }
    };
}

/// The daemon's verified state: the active configuration and the
/// registry of running instances.
pub struct Daemon {
    config: Config,
    servers: Vec<(String, Server)>,
}

impl Daemon {
    /// The active configuration, as a mathematical value.
    pub closed spec fn cfgv(&self) -> ConfigV {
        self.config@
    }

    /// The active service table.
    pub open spec fn table(&self) -> ConfigTable {
        self.cfgv().servers
    }

    /// The registry: instance names with their instances, in insertion
    /// order.
    pub closed spec fn instances(&self) -> Seq<(Seq<char>, Server)> {
        self.servers@.map_values(|p: (String, Server)| (p.0@, p.1))
    }

    /// The registered instance names, in order.
    pub open spec fn inst_names(&self) -> Seq<Seq<char>> {
        names_of(self.instances())
    }

    /// Whether an instance is registered under `name`.
    pub open spec fn has_instance(&self, name: Seq<char>) -> bool {
        exists|i: int| 0 <= i < self.instances().len() && self.instances()[i].0 == name
    }

    /// Registered names are pairwise distinct — the registry never holds
    /// two instances for one name — every instance's log buffer honours
    /// its cap, and the configuration's names are distinct too.
    pub open spec fn wf(&self) -> bool {
        &&& table_wf(self.table())
        &&& forall|i: int, j: int|
            0 <= i < j < self.instances().len() ==> self.instances()[i].0 != self.instances()[j].0
        &&& forall|i: int| 0 <= i < self.instances().len() ==> (#[trigger] self.instances()[i].1).wf()
    }

    /// A daemon with the given configuration and no running instances.
    pub fn new(config: Config) -> (r: Daemon)
        requires
            config.wf(),
        ensures
            r.cfgv() == config@,
            r.instances() == Seq::<(Seq<char>, Server)>::empty(),
            r.wf(),
    {
        let r = Daemon { config, servers: Vec::new() };
        proof {
            assert(r.instances() =~= Seq::<(Seq<char>, Server)>::empty());
        }
        r
    }

    /// How many instances are registered.
    pub fn instance_count(&self) -> (r: usize)
        ensures
            r == self.instances().len(),
    {
        self.servers.len()
    }

    /// The process id of the instance at `i`.
    pub fn instance_pid_at(&self, i: usize) -> (r: i32)
        requires
            i < self.instances().len(),
        ensures
            r == self.instances()[i as int].1.spec_pid(),
    {
        self.servers[i].1.pid()
    }

    /// Records a liveness probe for the instance at `i`.
    pub fn set_alive_at(&mut self, i: usize, alive: bool)
        requires
            old(self).wf(),
            i < old(self).instances().len(),
        ensures
            final(self).wf(),
            final(self).cfgv() == old(self).cfgv(),
            final(self).instances().len() == old(self).instances().len(),
            forall|j: int|
                0 <= j < old(self).instances().len() && j != i ==> final(self).instances()[j] == old(
                    self,
                ).instances()[j],
            final(self).instances()[i as int].0 == old(self).instances()[i as int].0,
            ({
                let s = final(self).instances()[i as int].1;
                let p = old(self).instances()[i as int].1;
                s.spec_alive() == alive && s.spec_pid() == p.spec_pid() && s.cfg() == p.cfg()
                    && s.log_lines() == p.log_lines() && s.pending_lines() == p.pending_lines()
            }),
    {
        let (nm, mut srv) = self.servers.remove(i);
        srv.set_alive(alive);
        self.servers.insert(i, (nm, srv));
        proof {
            assert(forall|j: int|
                0 <= j < old(self).instances().len() && j != i ==> self.instances()[j] == old(
                    self,
                ).instances()[j]);
        }
    }

    /// Accepts one collected output line for the instance named `name`;
    /// a line for an unregistered name is dropped.
    pub fn deliver_line_to(&mut self, name: &str, line: String)
        requires
            old(self).wf(),
        ensures
            final(self).wf(),
            final(self).cfgv() == old(self).cfgv(),
            !old(self).has_instance(name@) ==> *final(self) == *old(self),
            old(self).has_instance(name@) ==> exists|i: int|
                {
                    &&& 0 <= i < old(self).instances().len()
                    &&& old(self).instances()[i].0 == name@
                    &&& others_same(old(self).instances(), final(self).instances(), i)
                    &&& final(self).instances()[i].0 == name@
                    &&& same_but_pending(
                        final(self).instances()[i].1,
                        old(self).instances()[i].1,
                        old(self).instances()[i].1.pending_lines().push(line@),
                    )
                },
    {
        match find_key(&self.servers, name) {
            Some(i) => {
                let (nm, mut srv) = self.servers.remove(i);
                srv.deliver_line(line);
                let ghost x = (nm, srv);
                self.servers.insert(i, (nm, srv));
                proof {
                    assert(self.servers@ =~= old(self).servers@.update(i as int, x));
                    let inst0 = old(self).instances();
                    let inst1 = self.instances();
                    assert(forall|j: int|
                        0 <= j < inst0.len() && j != i ==> inst1[j] == inst0[j]);
                    assert(others_same(inst0, inst1, i as int));
                    assert(inst1[i as int].0 == name@);
                    assert(same_but_pending(
                        inst1[i as int].1,
                        inst0[i as int].1,
                        inst0[i as int].1.pending_lines().push(line@),
                    ));
                    assert(0 <= i < inst0.len() && inst0[i as int].0 == name@);
                    assert(forall|p: int, q: int|
                        0 <= p < q < inst1.len() ==> inst1[p].0 == inst0[p].0 && inst1[q].0
                            == inst0[q].0);
                    assert(forall|k: int| 0 <= k < inst1.len() ==> (#[trigger] inst1[k].1).wf());
                }
            },
            None => {
                proof {
                    assert(!old(self).has_instance(name@));
                }
            },
        }
    }

    /// Handles `start <name>`: refuses a registered name, refuses an
    /// unconfigured name, and otherwise asks the shell to spawn from the
    /// configured settings.
    pub fn start_server(&mut self, args: Vec<String>) -> (r: (String, Pending))
        requires
            old(self).wf(),
        ensures
            final(self).wf(),
            *final(self) == *old(self),
            args.deep_view().len() == 0 ==> r.0@ == msg_usage_start() && r.1 is Done,
            args.deep_view().len() > 0 ==> ({
                let name = args.deep_view()[0];
                &&& old(self).has_instance(name) ==> r.0@ == msg_already_running(name) && r.1
                    is Done
                &&& !old(self).has_instance(name) && !table_has(old(self).table(), name) ==> r.0@
                    == msg_no_config(name) && r.1 is Done
                &&& !old(self).has_instance(name) && table_has(old(self).table(), name) ==> {
                    &&& r.0@ == msg_starting(name)
                    &&& r.1 matches Pending::Spawn { name: n, config: c } && n@ == name && c@
                        == table_get(old(self).table(), name)
                }
            }),
    {
        if args.len() == 0 {
            return (String::from_str("Usage: start <server>\n"), Pending::Done);
        }
        let mut args = args;
        let name = args.remove(0);
        if self.is_registered(name.as_str()) {
            return (msg1("Server \"", name.as_str(), "\" already running!\n"), Pending::Done);
        }
        match find_key(&self.config.servers, name.as_str()) {
            Some(ci) => {
                let c = self.config.servers[ci].1.clone();
                proof {
                    crate::config::lemma_table_get(self.table(), name@, ci as int);
                }
                let resp = msg1("Starting \"", name.as_str(), "\"...\n");
                (resp, Pending::Spawn { name, config: c })
            },
            None => (msg1("No configuration for \"", name.as_str(), "\"\n"), Pending::Done),
        }
    }

    /// Completes a `start` or `restart`: registers the freshly spawned
    /// instance, or reports why the spawn failed.
    pub fn spawn_finish(&mut self, name: String, spawned: Result<Server, String>) -> (r: String)
        requires
            old(self).wf(),
            !old(self).has_instance(name@),
            spawned matches Ok(s) ==> s.wf(),
        ensures
            final(self).wf(),
            final(self).cfgv() == old(self).cfgv(),
            spawned matches Ok(s) ==> final(self).instances() == old(self).instances().push(
                (name@, s),
            ) && final(self).has_instance(name@) && r@ == msg_started(name@),
            spawned matches Err(e) ==> *final(self) == *old(self) && r@ == msg_start_error(
                name@,
                e@,
            ),
    {
        match spawned {
            Ok(s) => {
                let r = msg1("Server \"", name.as_str(), "\" started!\n");
                let ghost x = (name, s);
                self.servers.push((name, s));
                proof {
                    assert(self.instances() =~= old(self).instances().push((x.0@, x.1)));
                    let inst1 = self.instances();
                    let n = inst1.len();
                    assert(inst1[n - 1].0 == x.0@);
                    assert(forall|j: int|
                        0 <= j < old(self).instances().len() ==> old(self).instances()[j].0
                            != x.0@);
                }
                r
            },
            Err(e) => msg2("Error starting \"", name.as_str(), "\": ", e.as_str(), "\n"),
        }
    }

    /// Handles `stop <name>`: deregisters the instance and asks the
    /// shell to run the stop ladder on it; an unregistered name changes
    /// nothing.
    pub fn stop_server(&mut self, args: Vec<String>) -> (r: (String, Pending))
        requires
            old(self).wf(),
        ensures
            final(self).wf(),
            final(self).cfgv() == old(self).cfgv(),
            args.deep_view().len() == 0 ==> r.0@ == msg_usage_stop() && r.1 is Done && *final(self)
                == *old(self),
            args.deep_view().len() > 0 ==> ({
                let name = args.deep_view()[0];
                &&& !old(self).has_instance(name) ==> r.0@ == msg_no_instance(name) && r.1 is Done
                    && *final(self) == *old(self)
                &&& old(self).has_instance(name) ==> {
                    &&& r.0@ == msg_stopping(name)
                    &&& !final(self).has_instance(name)
                    &&& exists|i: int|
                        {
                            &&& 0 <= i < old(self).instances().len()
                            &&& old(self).instances()[i].0 == name
                            &&& final(self).instances() == old(self).instances().remove(i)
                            &&& r.1 matches Pending::Stop { name: n, server: s } && n@ == name && s
                                == old(self).instances()[i].1
                        }
                }
            }),
    {
        if args.len() == 0 {
            return (String::from_str("Usage: stop <server>\n"), Pending::Done);
        }
        let mut args = args;
        let name = args.remove(0);
        match find_key(&self.servers, name.as_str()) {
            Some(i) => {
                let (nm, srv) = self.servers.remove(i);
                let resp = msg1("Sending stop command to \"", name.as_str(), "\"...\n");
                proof {
                    let inst0 = old(self).instances();
                    assert(inst0[i as int].0 == name@);
                    lemma_registry_remove(inst0, i as int);
                    assert(self.instances() =~= inst0.remove(i as int));
                    assert(srv == inst0[i as int].1);
                    assert(forall|j: int|
                        0 <= j < self.instances().len() ==> (#[trigger] self.instances()[j]).0
                            != name@);
                    assert(!self.has_instance(name@));
                    assert forall|j: int|
                        0 <= j < self.instances().len() implies (
                    #[trigger] self.instances()[j]).1.wf() by {
                        if j < i {
                            assert(self.instances()[j] == inst0[j]);
                            assert(inst0[j].1.wf());
                        } else {
                            assert(self.instances()[j] == inst0[j + 1]);
                            assert(inst0[j + 1].1.wf());
                        }
                    };
                }
                (resp, Pending::Stop { name, server: srv })
            },
            None => (msg1("No running instance of \"", name.as_str(), "\"\n"), Pending::Done),
        }
    }

    /// Handles `restart <name>`: stops the running instance first (the
    /// restart proceeds only if that stop succeeds), then asks the shell
    /// to spawn afresh from the current configuration.
    pub fn restart_server(&mut self, args: Vec<String>) -> (r: (String, Pending))
        requires
            old(self).wf(),
        ensures
            final(self).wf(),
            final(self).cfgv() == old(self).cfgv(),
            args.deep_view().len() == 0 ==> r.0@ == msg_usage_restart() && r.1 is Done
                && *final(self) == *old(self),
            args.deep_view().len() > 0 ==> ({
                let name = args.deep_view()[0];
                &&& !old(self).has_instance(name) && !table_has(old(self).table(), name) ==> r.0@
                    == msg_not_running_starting(name) + msg_no_config_changed(name) && r.1 is Done
                    && *final(self) == *old(self)
                &&& !old(self).has_instance(name) && table_has(old(self).table(), name) ==> {
                    &&& r.0@ == msg_not_running_starting(name)
                    &&& *final(self) == *old(self)
                    &&& r.1 matches Pending::Spawn { name: n, config: c } && n@ == name && c@
                        == table_get(old(self).table(), name)
                }
                &&& old(self).has_instance(name) ==> {
                    &&& r.0@ == msg_stopping(name)
                    &&& !final(self).has_instance(name)
                    &&& exists|i: int|
                        {
                            &&& 0 <= i < old(self).instances().len()
                            &&& old(self).instances()[i].0 == name
                            &&& final(self).instances() == old(self).instances().remove(i)
                            &&& r.1 matches Pending::RestartStop { name: n, server: s } && n@
                                == name && s == old(self).instances()[i].1
                        }
                }
            }),
    {
        if args.len() == 0 {
            return (String::from_str("Usage: restart <server>\n"), Pending::Done);
        }
        let mut args = args;
        let name = args.remove(0);
        match find_key(&self.servers, name.as_str()) {
            Some(i) => {
                let (nm, srv) = self.servers.remove(i);
                let resp = msg1("Sending stop command to \"", name.as_str(), "\"...\n");
                proof {
                    let inst0 = old(self).instances();
                    assert(inst0[i as int].0 == name@);
                    lemma_registry_remove(inst0, i as int);
                    assert(self.instances() =~= inst0.remove(i as int));
                    assert(srv == inst0[i as int].1);
                    assert(forall|j: int|
                        0 <= j < self.instances().len() ==> (#[trigger] self.instances()[j]).0
                            != name@);
                    assert(!self.has_instance(name@));
                    assert forall|j: int|
                        0 <= j < self.instances().len() implies (
                    #[trigger] self.instances()[j]).1.wf() by {
                        if j < i {
                            assert(self.instances()[j] == inst0[j]);
                            assert(inst0[j].1.wf());
                        } else {
                            assert(self.instances()[j] == inst0[j + 1]);
                            assert(inst0[j + 1].1.wf());
                        }
                    };
                }
                (resp, Pending::RestartStop { name, server: srv })
            },
            None => {
                let mut resp = msg1("\"", name.as_str(), "\" was not running! Starting anyways...\n");
                match find_key(&self.config.servers, name.as_str()) {
                    Some(ci) => {
                        let c = self.config.servers[ci].1.clone();
                        proof {
                            crate::config::lemma_table_get(self.table(), name@, ci as int);
                        }
                        (resp, Pending::Spawn { name, config: c })
                    },
                    None => {
                        let more = msg1(
                            "No configuration for \"",
                            name.as_str(),
                            "\"! Did the configuration change?\n",
                        );
                        resp.append(more.as_str());
                        (resp, Pending::Done)
                    },
                }
            },
        }
    }

    /// Continues a `restart` after the stop ladder has run: a failed
    /// stop ends the restart with the failure report and no registered
    /// instance; a successful one proceeds to the spawn, unless the
    /// configuration entry has meanwhile vanished.
    pub fn restart_continue(&mut self, name: String, outcome: Result<ExitStatus, String>) -> (r: (
        String,
        Pending,
    ))
        requires
            old(self).wf(),
        ensures
            final(self).wf(),
            *final(self) == *old(self),
            outcome matches Err(e) ==> r.0@ == msg_stop_failed(name@, e@) && r.1 is Done,
            outcome matches Ok(st) ==> ({
                &&& !table_has(old(self).table(), name@) ==> r.0@ == msg_stopped(name@, st)
                    + msg_no_config_changed(name@) && r.1 is Done
                &&& table_has(old(self).table(), name@) ==> r.0@ == msg_stopped(name@, st) && (r.1
                    matches Pending::Spawn { name: n, config: c } && n@ == name@ && c@ == table_get(
                    old(self).table(),
                    name@,
                ))
            }),
    {
        let (mut resp, ok) = stop_server(name.as_str(), &outcome);
        if !ok {
            return (resp, Pending::Done);
        }
        match find_key(&self.config.servers, name.as_str()) {
            Some(ci) => {
                let c = self.config.servers[ci].1.clone();
                proof {
                    crate::config::lemma_table_get(self.table(), name@, ci as int);
                }
                (resp, Pending::Spawn { name, config: c })
            },
            None => {
                let more = msg1(
                    "No configuration for \"",
                    name.as_str(),
                    "\"! Did the configuration change?\n",
                );
                resp.append(more.as_str());
                (resp, Pending::Done)
            },
        }
    }

    /// Folds the delivered lines of the instance at `i` into its log
    /// buffer and returns its last `lines` retained lines, oldest first.
    fn tail_at(&mut self, i: usize, lines: usize) -> (r: Vec<String>)
        requires
            old(self).wf(),
            i < old(self).instances().len(),
        ensures
            final(self).wf(),
            final(self).cfgv() == old(self).cfgv(),
            others_same(old(self).instances(), final(self).instances(), i as int),
            final(self).instances()[i as int].0 == old(self).instances()[i as int].0,
            folded_log(final(self).instances()[i as int].1, old(self).instances()[i as int].1),
            ({
                let tl = final(self).instances()[i as int].1.log_lines();
                let cnt = vstd::math::min(lines as int, tl.len() as int);
                r.deep_view() == tl.subrange(tl.len() - cnt, tl.len() as int)
            }),
    {
        let (nm, mut srv) = self.servers.remove(i);
        proof {
            assert(srv == old(self).instances()[i as int].1);
            assert(old(self).instances()[i as int].1.wf());
        }
        let r = srv.tail(lines);
        let ghost x = (nm, srv);
        self.servers.insert(i, (nm, srv));
        proof {
            assert(self.servers@ =~= old(self).servers@.update(i as int, x));
            let inst0 = old(self).instances();
            let inst1 = self.instances();
            assert(forall|j: int| 0 <= j < inst0.len() && j != i ==> inst1[j] == inst0[j]);
            assert(others_same(inst0, inst1, i as int));
            assert(forall|p: int, q: int|
                0 <= p < q < inst1.len() ==> inst1[p].0 == inst0[p].0 && inst1[q].0 == inst0[q].0);
            assert(forall|k: int| 0 <= k < inst1.len() ==> (#[trigger] inst1[k].1).wf());
        }
        r
    }

    /// Handles `status <name>`: asks the shell for the instance's
    /// accounting; an unregistered name changes nothing.
    pub fn server_status(&mut self, args: Vec<String>) -> (r: (String, Pending))
        requires
            old(self).wf(),
        ensures
            final(self).wf(),
            *final(self) == *old(self),
            args.deep_view().len() == 0 ==> r.0@ == msg_usage_status() && r.1 is Done,
            args.deep_view().len() > 0 ==> ({
                let name = args.deep_view()[0];
                &&& !old(self).has_instance(name) ==> r.0@ == msg_no_instance(name) && r.1 is Done
                &&& old(self).has_instance(name) ==> exists|i: int|
                    {
                        &&& 0 <= i < old(self).instances().len()
                        &&& old(self).instances()[i].0 == name
                        &&& r.0@ == msg_status_header(name)
                        &&& r.1 matches Pending::Status { name: n, pid, alive } && n@ == name && pid
                            == old(self).instances()[i].1.spec_pid() && alive == old(
                            self,
                        ).instances()[i].1.spec_alive()
                    }
            }),
    {
        if args.len() == 0 {
            return (String::from_str("Usage: status <server>\n"), Pending::Done);
        }
        let mut args = args;
        let name = args.remove(0);
        match find_key(&self.servers, name.as_str()) {
            Some(i) => {
                proof {
                    assert(old(self).instances()[i as int].0 == name@);
                }
                let pid = self.servers[i].1.pid();
                let alive = self.servers[i].1.is_alive();
                let resp = msg1("Server instance \"", name.as_str(), "\" \n");
                (resp, Pending::Status { name, pid, alive })
            },
            None => (msg1("No running instance of \"", name.as_str(), "\"\n"), Pending::Done),
        }
    }

    /// Completes a `status`: renders the report from the accounting the
    /// shell read (or could not read).
    pub fn server_status_report(&self, name: &str, info: &Option<ServerInfo>) -> (r: String)
        ensures
            !self.has_instance(name@) ==> r@ == msg_no_instance(name@),
            self.has_instance(name@) ==> exists|i: int|
                {
                    &&& 0 <= i < self.instances().len()
                    &&& self.instances()[i].0 == name@
                    &&& r@ == status_text(self.instances()[i].1.spec_alive(), *info)
                },
    {
        match find_key(&self.servers, name) {
            Some(i) => {
                proof {
                    assert(self.instances()[i as int].0 == name@);
                }
                self.servers[i].1.write_status(info)
            },
            None => msg1("No running instance of \"", name, "\"\n"),
        }
    }

    /// Handles `tail <name> [lines]`: reports the last lines of the
    /// instance's captured output; an unregistered name changes nothing.
    pub fn server_tail(&mut self, args: Vec<String>) -> (r: (String, Pending))
        requires
            old(self).wf(),
        ensures
            final(self).wf(),
            final(self).cfgv() == old(self).cfgv(),
            r.1 is Done,
            args.deep_view().len() == 0 ==> r.0@ == msg_usage_tail() && *final(self) == *old(self),
            args.deep_view().len() > 0 ==> ({
                let name = args.deep_view()[0];
                let cnt = spec_tail_count(args.deep_view());
                &&& !old(self).has_instance(name) ==> r.0@ == msg_no_instance(name) && *final(self)
                    == *old(self)
                &&& old(self).has_instance(name) ==> exists|i: int|
                    {
                        &&& 0 <= i < old(self).instances().len()
                        &&& old(self).instances()[i].0 == name
                        &&& others_same(old(self).instances(), final(self).instances(), i)
                        &&& final(self).instances()[i].0 == name
                        &&& folded_log(
                            final(self).instances()[i].1,
                            old(self).instances()[i].1,
                        )
                        &&& ({
                            let tl = final(self).instances()[i].1.log_lines();
                            let k = vstd::math::min(cnt, tl.len() as int);
                            r.0@ == msg_tail_header(cnt as nat, name) + lines_text(
                                tl.subrange(tl.len() - k, tl.len() as int),
                            )
                        })
                    }
            }),
    {
        if args.len() == 0 {
            return (String::from_str("Usage: tail <server> [lines]\n"), Pending::Done);
        }
        let mut args = args;
        let ghost args0 = args;
        let name = args.remove(0);
        proof {
            assert(args.deep_view() =~= args0.deep_view().drop_first());
        }
        let count: usize = if args.len() > 0 {
            match parse_u64(args[0].as_str()) {
                Some(v) => {
                    if v <= usize::MAX as u64 {
                        v as usize
                    } else {
                        DEFAULT_TAIL_LINES
                    }
                },
                None => DEFAULT_TAIL_LINES,
            }
        } else {
            DEFAULT_TAIL_LINES
        };
        match find_key(&self.servers, name.as_str()) {
            Some(i) => {
                proof {
                    assert(old(self).instances()[i as int].0 == name@);
                }
                let lines_vec = self.tail_at(i, count);
                let mut resp = String::from_str("Last ");
                crate::text::push_u64(&mut resp, count as u64);
                resp.append(" lines from \"");
                resp.append(name.as_str());
                resp.append("\":\n");
                proof {
                    assert(resp@ =~= msg_tail_header(count as nat, name@));
                }
                append_lines(&mut resp, &lines_vec);
                (resp, Pending::Done)
            },
            None => (msg1("No running instance of \"", name.as_str(), "\"\n"), Pending::Done),
        }
    }

    /// Handles `send <name> <words...>`: forwards the words, joined by
    /// spaces, as one line to the instance's standard input; an
    /// unregistered name changes nothing.
    pub fn server_send(&mut self, args: Vec<String>) -> (r: (String, Pending))
        requires
            old(self).wf(),
        ensures
            final(self).wf(),
            *final(self) == *old(self),
            args.deep_view().len() == 0 ==> r.0@ == msg_usage_send() && r.1 is Done,
            args.deep_view().len() > 0 ==> ({
                let name = args.deep_view()[0];
                let cmd = join_spaces(args.deep_view().drop_first());
                &&& !old(self).has_instance(name) ==> r.0@ == msg_no_instance(name) && r.1 is Done
                &&& old(self).has_instance(name) ==> exists|i: int|
                    {
                        &&& 0 <= i < old(self).instances().len()
                        &&& old(self).instances()[i].0 == name
                        &&& r.0@ == msg_sending(name, cmd)
                        &&& r.1 matches Pending::Send { name: n, pid, line } && n@ == name && pid
                            == old(self).instances()[i].1.spec_pid() && line@ == cmd + "\n"@
                    }
            }),
    {
        if args.len() == 0 {
            return (String::from_str("Usage: send <server> <command>\n"), Pending::Done);
        }
        let mut args = args;
        let ghost args0 = args;
        let name = args.remove(0);
        let command = join_with_spaces(&args);
        proof {
            assert(args.deep_view() =~= args0.deep_view().drop_first());
        }
        match find_key(&self.servers, name.as_str()) {
            Some(i) => {
                proof {
                    assert(old(self).instances()[i as int].0 == name@);
                }
                let pid = self.servers[i].1.pid();
                let line = self.servers[i].1.send_command(command.as_str());
                let resp = msg2(
                    "Sending command to \"",
                    name.as_str(),
                    "\": ",
                    command.as_str(),
                    "\n",
                );
                (resp, Pending::Send { name, pid, line })
            },
            None => (msg1("No running instance of \"", name.as_str(), "\"\n"), Pending::Done),
        }
    }

    /// Completes a `send`: reports the instance's most recent output
    /// line, if it has produced any.
    pub fn server_send_report(&mut self, name: &str) -> (r: String)
        requires
            old(self).wf(),
        ensures
            final(self).wf(),
            final(self).cfgv() == old(self).cfgv(),
            !old(self).has_instance(name@) ==> *final(self) == *old(self) && r@ == Seq::<
                char,
            >::empty(),
            old(self).has_instance(name@) ==> exists|i: int|
                {
                    &&& 0 <= i < old(self).instances().len()
                    &&& old(self).instances()[i].0 == name@
                    &&& others_same(old(self).instances(), final(self).instances(), i)
                    &&& final(self).instances()[i].0 == name@
                    &&& folded_log(final(self).instances()[i].1, old(self).instances()[i].1)
                    &&& ({
                        let tl = final(self).instances()[i].1.log_lines();
                        r@ == if tl.len() > 0 {
                            msg_send_line(name@, tl.last())
                        } else {
                            Seq::<char>::empty()
                        }
                    })
                },
    {
        match find_key(&self.servers, name) {
            Some(i) => {
                proof {
                    assert(old(self).instances()[i as int].0 == name@);
                }
                let lines_vec = self.tail_at(i, 1);
                proof {
                    let tl = self.instances()[i as int].1.log_lines();
                    let cnt = vstd::math::min(1 as int, tl.len() as int);
                    assert(lines_vec.deep_view() == tl.subrange(tl.len() - cnt, tl.len() as int));
                    assert(lines_vec@.len() == lines_vec.deep_view().len());
                    assert(lines_vec@.len() == cnt);
                }
                if lines_vec.len() > 0 {
                    proof {
                        let tl = self.instances()[i as int].1.log_lines();
                        assert(tl.len() > 0);
                        assert(lines_vec.deep_view()[0] == tl.last());
                    }
                    msg2("\"", name, "\": ", lines_vec[0].as_str(), "\n")
                } else {
                    let r = String::new();
                    proof {
                        let tl = self.instances()[i as int].1.log_lines();
                        assert(tl.len() == 0);
                        assert(r@ =~= Seq::<char>::empty());
                    }
                    r
                }
            },
            None => {
                let r = String::new();
                proof {
                    assert(r@ =~= Seq::<char>::empty());
                }
                r
            },
        }
    }

    /// Handles `servers`: lists every configured service with its
    /// settings.
    pub fn list_servers(&self) -> (r: String)
        ensures
            r@ == "Servers:\n"@ + servers_list_text(self.table()),
    {
        let mut s = String::from_str("Servers:\n");
        let n = self.config.servers.len();
        let mut i: usize = 0;
        while i < n
            invariant
                n == self.config.servers@.len(),
                i <= n,
                s@ == "Servers:\n"@ + servers_list_text(self.table().take(i as int)),
            decreases n - i,
        {
            s.append("\"");
            s.append(self.config.servers[i].0.as_str());
            s.append("\"");
            s.append(":\n");
            let body = self.config.servers[i].1.describe();
            s.append(body.as_str());
            s.append("\n");
            proof {
                let t = self.table();
                assert(t.take(i as int + 1).drop_last() =~= t.take(i as int));
                assert(t.take(i as int + 1).last() == t[i as int]);
                assert(s@ =~= "Servers:\n"@ + servers_list_text(t.take(i as int + 1)));
            }
            i = i + 1;
        }
        proof {
            assert(self.table().take(n as int) =~= self.table());
        }
        s
    }

    /// Handles `instances`, given the accounting the shell read for each
    /// registered instance in order: lists every instance with its
    /// status report.
    pub fn list_instances(&self, infos: &Vec<Option<ServerInfo>>) -> (r: String)
        requires
            infos@.len() == self.instances().len(),
        ensures
            r@ == "Running instances:\n"@ + instances_list_text(self.instances(), infos@),
    {
        let mut s = String::from_str("Running instances:\n");
        let n = self.servers.len();
        let mut i: usize = 0;
        while i < n
            invariant
                n == self.servers@.len(),
                n == infos@.len(),
                i <= n,
                s@ == "Running instances:\n"@ + instances_list_text(
                    self.instances().take(i as int),
                    infos@.take(i as int),
                ),
            decreases n - i,
        {
            s.append("\"");
            s.append(self.servers[i].0.as_str());
            s.append("\"");
            s.append(" ");
            let inf = infos[i];
            let st = self.servers[i].1.write_status(&inf);
            s.append(st.as_str());
            proof {
                let inst = self.instances();
                assert(inst.take(i as int + 1).drop_last() =~= inst.take(i as int));
                assert(infos@.take(i as int + 1).drop_last() =~= infos@.take(i as int));
                assert(inst.take(i as int + 1).last() == inst[i as int]);
                assert(infos@.take(i as int + 1).last() == infos@[i as int]);
                assert(s@ =~= "Running instances:\n"@ + instances_list_text(
                    inst.take(i as int + 1),
                    infos@.take(i as int + 1),
                ));
            }
            i = i + 1;
        }
        proof {
            assert(self.instances().take(n as int) =~= self.instances());
            assert(infos@.take(n as int) =~= infos@);
        }
        s
    }

    /// Completes a `reload-config`: a failed load leaves the active
    /// configuration as it was; a successful one replaces only the
    /// configuration — running instances are untouched either way.
    pub fn reload_config(&mut self, loaded: Result<Config, String>) -> (r: String)
        requires
            old(self).wf(),
            loaded matches Ok(c) ==> c.wf(),
        ensures
            final(self).wf(),
            final(self).instances() == old(self).instances(),
            loaded matches Err(e) ==> final(self).cfgv() == old(self).cfgv() && r@
                == msg_reload_failed(e@),
            loaded matches Ok(c) ==> final(self).cfgv() == c@ && r@ == msg_reloaded(),
    {
        match loaded {
            Ok(c) => {
                self.config = c;
                proof {
                    assert(self.instances() =~= old(self).instances());
                }
                String::from_str("Config reloaded.\n")
            },
            Err(e) => msg1("Failed to load config: ", e.as_str(), "\n"),
        }
    }

    /// Handles `kill-daemon`: drains the whole registry for the shell to
    /// stop, best-effort, before the control loop exits.
    pub fn kill_daemon(&mut self) -> (r: (String, Pending))
        requires
            old(self).wf(),
        ensures
            final(self).wf(),
            final(self).cfgv() == old(self).cfgv(),
            final(self).instances() == Seq::<(Seq<char>, Server)>::empty(),
            r.0@ == msg_killing(),
            r.1 matches Pending::Kill { stopping } && stopping@.map_values(
                |p: (String, Server)| (p.0@, p.1),
            ) == old(self).instances(),
    {
        let drained = self.servers.split_off(0);
        proof {
            assert(self.instances() =~= Seq::<(Seq<char>, Server)>::empty());
            assert(drained@.map_values(|p: (String, Server)| (p.0@, p.1))
                =~= old(self).instances());
        }
        (String::from_str("Killing servers...\n"), Pending::Kill { stopping: drained })
    }

    /// Dispatches one tokenized command line.  An unknown word reports
    /// itself and the operations table and changes nothing; the loop
    /// goes on.
    pub fn match_op(&mut self, args: Vec<String>) -> (r: (String, Pending))
        requires
            old(self).wf(),
        ensures
            final(self).wf(),
            final(self).cfgv() == old(self).cfgv(),
            args.deep_view().len() == 0 ==> r.0@ == ops_table() && r.1 is Done && *final(self)
                == *old(self),
            args.deep_view().len() > 0 ==> ({
                let op = args.deep_view()[0];
                let rest = args.deep_view().drop_first();
                &&& op == "ops"@ ==> r.0@ == ops_table() && r.1 is Done && *final(self)
                    == *old(self)
                &&& op == "start"@ && rest.len() == 0 ==> r.0@ == msg_usage_start() && r.1 is Done
                    && *final(self) == *old(self)
                &&& op == "stop"@ && rest.len() == 0 ==> r.0@ == msg_usage_stop() && r.1 is Done
                    && *final(self) == *old(self)
                &&& op == "restart"@ && rest.len() == 0 ==> r.0@ == msg_usage_restart() && r.1
                    is Done && *final(self) == *old(self)
                &&& op == "status"@ && rest.len() == 0 ==> r.0@ == msg_usage_status() && r.1
                    is Done && *final(self) == *old(self)
                &&& op == "tail"@ && rest.len() == 0 ==> r.0@ == msg_usage_tail() && r.1 is Done
                    && *final(self) == *old(self)
                &&& op == "send"@ && rest.len() == 0 ==> r.0@ == msg_usage_send() && r.1 is Done
                    && *final(self) == *old(self)
                &&& op == "start"@ && rest.len() > 0 && !old(self).has_instance(rest[0])
                    && !table_has(old(self).table(), rest[0]) ==> r.0@ == msg_no_config(rest[0])
                    && r.1 is Done && *final(self) == *old(self)
                &&& op == "start"@ && rest.len() > 0 && !old(self).has_instance(rest[0])
                    && table_has(old(self).table(), rest[0]) ==> r.0@ == msg_starting(rest[0]) && (
                r.1 matches Pending::Spawn { name, config } && name@ == rest[0] && config@
                    == table_get(old(self).table(), rest[0])) && *final(self) == *old(self)
                &&& !known_op(op) ==> r.0@ == msg_unrecognized(op) + ops_table() && r.1 is Done
                    && *final(self) == *old(self)
                &&& (op == "stop"@ || op == "status"@ || op == "tail"@ || op == "send"@)
                    && rest.len() > 0 && !old(self).has_instance(rest[0]) ==> r.0@
                    == msg_no_instance(rest[0]) && r.1 is Done && *final(self) == *old(self)
                &&& op == "start"@ && rest.len() > 0 && old(self).has_instance(rest[0]) ==> r.0@
                    == msg_already_running(rest[0]) && r.1 is Done && *final(self) == *old(self)
                &&& op == "stop"@ && rest.len() > 0 && old(self).has_instance(rest[0]) ==> ({
                    &&& r.0@ == msg_stopping(rest[0])
                    &&& !final(self).has_instance(rest[0])
                    &&& exists|i: int|
                        {
                            &&& 0 <= i < old(self).instances().len()
                            &&& old(self).instances()[i].0 == rest[0]
                            &&& final(self).instances() == old(self).instances().remove(i)
                            &&& r.1 matches Pending::Stop { name, server } && name@ == rest[0]
                                && server == old(self).instances()[i].1
                        }
                })
                &&& op == "restart"@ && rest.len() > 0 && old(self).has_instance(rest[0]) ==> ({
                    &&& r.0@ == msg_stopping(rest[0])
                    &&& !final(self).has_instance(rest[0])
                    &&& exists|i: int|
                        {
                            &&& 0 <= i < old(self).instances().len()
                            &&& old(self).instances()[i].0 == rest[0]
                            &&& final(self).instances() == old(self).instances().remove(i)
                            &&& r.1 matches Pending::RestartStop { name, server } && name@
                                == rest[0] && server == old(self).instances()[i].1
                        }
                })
                &&& op == "restart"@ && rest.len() > 0 && !old(self).has_instance(rest[0])
                    && !table_has(old(self).table(), rest[0]) ==> r.0@
                    == msg_not_running_starting(rest[0]) + msg_no_config_changed(rest[0]) && r.1
                    is Done && *final(self) == *old(self)
                &&& op == "restart"@ && rest.len() > 0 && !old(self).has_instance(rest[0])
                    && table_has(old(self).table(), rest[0]) ==> r.0@ == msg_not_running_starting(
                    rest[0],
                ) && (r.1 matches Pending::Spawn { name, config } && name@ == rest[0] && config@
                    == table_get(old(self).table(), rest[0])) && *final(self) == *old(self)
                &&& op == "status"@ && rest.len() > 0 && old(self).has_instance(rest[0])
                    ==> *final(self) == *old(self) && r.0@ == msg_status_header(rest[0]) && exists|
                i: int|
                    {
                        &&& 0 <= i < old(self).instances().len()
                        &&& old(self).instances()[i].0 == rest[0]
                        &&& r.1 matches Pending::Status { name, pid, alive } && name@ == rest[0]
                            && pid == old(self).instances()[i].1.spec_pid() && alive == old(
                            self,
                        ).instances()[i].1.spec_alive()
                    }
                &&& op == "send"@ && rest.len() > 0 && old(self).has_instance(rest[0])
                    ==> *final(self) == *old(self) && r.0@ == msg_sending(rest[0], join_spaces(rest.drop_first()))
                    && exists|i: int|
                    {
                        &&& 0 <= i < old(self).instances().len()
                        &&& old(self).instances()[i].0 == rest[0]
                        &&& r.1 matches Pending::Send { name, pid, line } && name@ == rest[0]
                            && pid == old(self).instances()[i].1.spec_pid() && line@ == join_spaces(
                            rest.drop_first(),
                        ) + "\n"@
                    }
                &&& op == "tail"@ && rest.len() > 0 && old(self).has_instance(rest[0]) ==> r.1
                    is Done && exists|i: int|
                    {
                        &&& 0 <= i < old(self).instances().len()
                        &&& old(self).instances()[i].0 == rest[0]
                        &&& others_same(old(self).instances(), final(self).instances(), i)
                        &&& final(self).instances()[i].0 == rest[0]
                        &&& folded_log(final(self).instances()[i].1, old(self).instances()[i].1)
                        &&& ({
                            let tl = final(self).instances()[i].1.log_lines();
                            let cnt = spec_tail_count(rest);
                            let m = vstd::math::min(cnt, tl.len() as int);
                            r.0@ == msg_tail_header(cnt as nat, rest[0]) + lines_text(
                                tl.subrange(tl.len() - m, tl.len() as int),
                            )
                        })
                    }
                &&& op == "kill-daemon"@ ==> r.0@ == msg_killing() && final(self).instances().len()
                    == 0 && (r.1 matches Pending::Kill { stopping } && stopping@.map_values(
                    |p: (String, Server)| (p.0@, p.1),
                ) == old(self).instances())
                &&& op == "reload-config"@ ==> r.0@ == msg_reloading() && r.1 is Reload
                    && *final(self) == *old(self)
                &&& op == "instances"@ ==> r.0@.len() == 0 && r.1 is Instances && *final(self)
                    == *old(self)
                &&& op == "servers"@ ==> r.0@ == "Servers:\n"@ + servers_list_text(
                    old(self).table(),
                ) && r.1 is Done && *final(self) == *old(self)
            }),
    {
        if args.len() == 0 {
            return (list_ops(), Pending::Done);
        }
        let mut args = args;
        let ghost args0 = args;
        let op = args.remove(0);
        proof {
            assert(args.deep_view() =~= args0.deep_view().drop_first());
            assert(op@ == args0.deep_view()[0]);
            reveal_strlit("start");
            reveal_strlit("stop");
            reveal_strlit("restart");
            reveal_strlit("status");
            reveal_strlit("tail");
            reveal_strlit("send");
            reveal_strlit("servers");
            reveal_strlit("instances");
            reveal_strlit("reload-config");
            reveal_strlit("kill-daemon");
            reveal_strlit("ops");
            // pin down lengths (and first characters where lengths tie)
            // so the vocabulary words are known pairwise distinct
            assert("start"@.len() == 5);
            assert("stop"@.len() == 4);
            assert("restart"@.len() == 7);
            assert("status"@.len() == 6);
            assert("tail"@.len() == 4);
            assert("send"@.len() == 4);
            assert("servers"@.len() == 7);
            assert("instances"@.len() == 9);
            assert("reload-config"@.len() == 13);
            assert("kill-daemon"@.len() == 11);
            assert("ops"@.len() == 3);
            assert("stop"@[1] == 't' && "tail"@[1] == 'a' && "send"@[1] == 'e');
            assert("restart"@[0] == 'r' && "servers"@[0] == 's');
        }
        if str_eq(op.as_str(), "start") {
            self.start_server(args)
        } else if str_eq(op.as_str(), "stop") {
            self.stop_server(args)
        } else if str_eq(op.as_str(), "restart") {
            self.restart_server(args)
        } else if str_eq(op.as_str(), "status") {
            self.server_status(args)
        } else if str_eq(op.as_str(), "tail") {
            self.server_tail(args)
        } else if str_eq(op.as_str(), "send") {
            self.server_send(args)
        } else if str_eq(op.as_str(), "servers") {
            (self.list_servers(), Pending::Done)
        } else if str_eq(op.as_str(), "instances") {
            let r = String::new();
            proof {
                assert(r@ =~= Seq::<char>::empty());
            }
            (r, Pending::Instances)
        } else if str_eq(op.as_str(), "reload-config") {
            (
                String::from_str("Reloading config. Will not affect existing server instances.\n"),
                Pending::Reload,
            )
        } else if str_eq(op.as_str(), "kill-daemon") {
            self.kill_daemon()
        } else if str_eq(op.as_str(), "ops") {
            (list_ops(), Pending::Done)
        } else {
            let mut resp = msg1("Unrecognized command: ", op.as_str(), "\n");
            let t = list_ops();
            resp.append(t.as_str());
            (resp, Pending::Done)
        }
    }

    /// One health decision, for the registry entry at `i`: an alive or
    /// unflagged instance is left untouched; a dead flagged one has its
    /// log folded and is either slated for respawn or, when its
    /// configuration has vanished, dropped.
    fn check_instance_at(&mut self, i: usize) -> (r: HealthDecision)
        requires
            old(self).wf(),
            i < old(self).instances().len(),
        ensures
            final(self).wf(),
            final(self).cfgv() == old(self).cfgv(),
            ({
                let p = old(self).instances()[i as int];
                &&& !dead_flagged(p) ==> r is Healthy && *final(self) == *old(self)
                &&& dead_flagged(p) && table_has(old(self).table(), p.0) ==> {
                    &&& others_same(old(self).instances(), final(self).instances(), i as int)
                    &&& final(self).instances()[i as int].0 == p.0
                    &&& folded_log(final(self).instances()[i as int].1, p.1)
                    &&& r matches HealthDecision::Respawn { lines, config } && config@
                        == table_get(old(self).table(), p.0) && ({
                        let tl = final(self).instances()[i as int].1.log_lines();
                        let k = vstd::math::min(HEALTH_TAIL_LINES as int, tl.len() as int);
                        lines.deep_view() == tl.subrange(tl.len() - k, tl.len() as int)
                    })
                }
                &&& dead_flagged(p) && !table_has(old(self).table(), p.0) ==> {
                    &&& final(self).instances().len() == old(self).instances().len() - 1
                    &&& forall|j: int|
                        0 <= j < i ==> final(self).instances()[j] == old(self).instances()[j]
                    &&& forall|j: int|
                        i <= j < final(self).instances().len() ==> final(self).instances()[j]
                            == old(self).instances()[j + 1]
                    &&& !final(self).has_instance(p.0)
                    &&& r matches HealthDecision::Dropped { lines } && ({
                        let tl = crate::server::cap_log(p.1.log_lines() + p.1.pending_lines());
                        let k = vstd::math::min(HEALTH_TAIL_LINES as int, tl.len() as int);
                        lines.deep_view() == tl.subrange(tl.len() - k, tl.len() as int)
                    })
                }
            }),
    {
        let alive = self.servers[i].1.is_alive();
        let flagged = self.servers[i].1.auto_restart();
        if alive || !flagged {
            return HealthDecision::Healthy;
        }
        let lines = self.tail_at(i, HEALTH_TAIL_LINES);
        match find_key(&self.config.servers, self.servers[i].0.as_str()) {
            Some(ci) => {
                let c = self.config.servers[ci].1.clone();
                proof {
                    crate::config::lemma_table_get(
                        self.table(),
                        old(self).instances()[i as int].0,
                        ci as int,
                    );
                }
                HealthDecision::Respawn { lines, config: c }
            },
            None => {
                let ghost mid = self.instances();
                let (nm, srv) = self.servers.remove(i);
                proof {
                    let p = old(self).instances()[i as int];
                    assert(mid[i as int].0 == p.0);
                    lemma_registry_remove(mid, i as int);
                    assert(self.instances() =~= mid.remove(i as int));
                    assert(forall|j: int| 0 <= j < i ==> self.instances()[j] == mid[j]
                        && mid[j] == old(self).instances()[j]);
                    assert(forall|j: int|
                        i <= j < self.instances().len() ==> self.instances()[j] == mid[j + 1]
                            && mid[j + 1] == old(self).instances()[j + 1]);
                    assert(forall|j: int|
                        0 <= j < self.instances().len() ==> (#[trigger] self.instances()[j]).0
                            != p.0);
                    assert(!self.has_instance(p.0));
                    assert forall|j: int|
                        0 <= j < self.instances().len() implies (
                    #[trigger] self.instances()[j]).1.wf() by {
                        if j < i {
                            assert(self.instances()[j] == mid[j]);
                            assert(mid[j].1.wf());
                        } else {
                            assert(self.instances()[j] == mid[j + 1]);
                            assert(mid[j + 1].1.wf());
                        }
                    };
                }
                HealthDecision::Dropped { lines }
            },
        }
    }

    /// The periodic health pass: reports every registered instance that
    /// is both not alive and flagged `auto_restart` at this check, with
    /// its last log lines; entries whose configuration has vanished are
    /// dropped, the others are reported with the configuration to
    /// respawn from (the respawn itself completes through
    /// `health_respawn_finish`).
    pub fn check_instances(&mut self) -> (r: Vec<HealthReport>)
        requires
            old(self).wf(),
        ensures
            final(self).wf(),
            final(self).cfgv() == old(self).cfgv(),
            final(self).inst_names() == surviving_names(old(self).instances(), old(self).table()),
            r@.map_values(|h: HealthReport| h.name@) == dead_names(old(self).instances()),
            forall|k: int|
                0 <= k < r@.len() ==> ((#[trigger] r@[k]).config is Some <==> table_has(
                    old(self).table(),
                    r@[k].name@,
                )),
            forall|k: int|
                0 <= k < r@.len() && r@[k].config is Some ==> (#[trigger] r@[k]).config->0@
                    == table_get(old(self).table(), r@[k].name@),
    {
        let ghost inst0 = old(self).instances();
        let ghost t = old(self).table();
        let mut reports: Vec<HealthReport> = Vec::new();
        let mut i: usize = 0;
        let ghost mut k: int = 0;
        proof {
            reveal(Seq::filter);
            assert(inst0.take(0) =~= Seq::<(Seq<char>, Server)>::empty());
            assert(surviving_names(inst0.take(0), t) =~= Seq::<Seq<char>>::empty());
            assert(names_of(self.instances().take(0)) =~= Seq::<Seq<char>>::empty());
            assert(dead_names(inst0.take(0)) =~= Seq::<Seq<char>>::empty());
            assert(report_names(reports@) =~= Seq::<Seq<char>>::empty());
            assert(self.instances().skip(0) =~= inst0.skip(0));
        }
        while i < self.servers.len()
            invariant
                self.wf(),
                self.cfgv() == old(self).cfgv(),
                inst0 == old(self).instances(),
                t == old(self).table(),
                0 <= k <= inst0.len(),
                i <= self.instances().len(),
                self.instances().len() - i == inst0.len() - k,
                self.instances().skip(i as int) == inst0.skip(k),
                names_of(self.instances().take(i as int)) == surviving_names(inst0.take(k), t),
                report_names(reports@) == dead_names(inst0.take(k)),
                forall|m: int|
                    0 <= m < reports@.len() ==> ((#[trigger] reports@[m]).config is Some
                        <==> table_has(t, reports@[m].name@)),
                forall|m: int|
                    0 <= m < reports@.len() && reports@[m].config is Some ==> (
                    #[trigger] reports@[m]).config->0@ == table_get(t, reports@[m].name@),
            decreases inst0.len() - k,
        {
            proof {
                assert(self.instances().skip(i as int)[0] == self.instances()[i as int]);
                assert(inst0.skip(k)[0] == inst0[k]);
                assert(self.instances()[i as int] == inst0[k]);
            }
            let ghost pre = self.instances();
            let name = self.servers[i].0.clone();
            proof {
                assert(name@ == pre[i as int].0);
            }
            let decision = self.check_instance_at(i);
            match decision {
                HealthDecision::Healthy => {
                    proof {
                        lemma_health_step(inst0, t, k);
                        lemma_names_step(self.instances(), i as int);
                        lemma_skip_step(self.instances(), inst0, i as int, k);
                        assert(names_of(self.instances().take(i as int + 1)) == surviving_names(
                            inst0.take(k + 1),
                            t,
                        ));
                        assert(report_names(reports@) == dead_names(inst0.take(k + 1)));
                    }
                    i = i + 1;
                    proof {
                        k = k + 1;
                    }
                },
                HealthDecision::Respawn { lines, config } => {
                    let ghost rep0 = reports@;
                    reports.push(HealthReport { name, lines, config: Some(config) });
                    proof {
                        assert(dead_flagged(inst0[k]) && table_has(t, inst0[k].0));
                        lemma_health_step(inst0, t, k);
                        assert(self.instances().take(i as int) =~= pre.take(i as int));
                        lemma_names_step(self.instances(), i as int);
                        assert(self.instances()[i as int].0 == inst0[k].0);
                        assert(names_of(self.instances().take(i as int + 1)) == surviving_names(
                            inst0.take(k + 1),
                            t,
                        ));
                        assert(report_names(reports@) =~= report_names(rep0).push(inst0[k].0));
                        assert(report_names(reports@) == dead_names(inst0.take(k + 1)));
                        lemma_skip_step(pre, inst0, i as int, k);
                        assert(self.instances().skip(i as int + 1) =~= pre.skip(i as int + 1));
                    }
                    i = i + 1;
                    proof {
                        k = k + 1;
                    }
                },
                HealthDecision::Dropped { lines } => {
                    let ghost rep0 = reports@;
                    reports.push(HealthReport { name, lines, config: None });
                    proof {
                        assert(dead_flagged(inst0[k]) && !table_has(t, inst0[k].0));
                        assert(!health_keeps(inst0[k], t));
                        lemma_health_step(inst0, t, k);
                        assert(self.instances().take(i as int) =~= pre.take(i as int));
                        assert(names_of(self.instances().take(i as int)) == surviving_names(
                            inst0.take(k + 1),
                            t,
                        ));
                        assert(report_names(reports@) =~= report_names(rep0).push(inst0[k].0));
                        assert(report_names(reports@) == dead_names(inst0.take(k + 1)));
                        assert forall|m: int|
                            0 <= m < self.instances().len() - i implies self.instances().skip(
                            i as int,
                        )[m] == inst0.skip(k + 1)[m] by {
                            assert(self.instances().skip(i as int)[m] == self.instances()[i + m]);
                            assert(self.instances()[i + m] == pre[i + m + 1]);
                            assert(pre.skip(i as int)[m + 1] == pre[i + m + 1]);
                            assert(inst0.skip(k)[m + 1] == inst0[k + 1 + m]);
                            assert(inst0.skip(k + 1)[m] == inst0[k + 1 + m]);
                        };
                        assert(self.instances().skip(i as int) =~= inst0.skip(k + 1));
                    }
                    proof {
                        k = k + 1;
                    }
                },
            }
        }
        proof {
            assert(k == inst0.len());
            assert(inst0.take(k) =~= inst0);
            assert(self.instances().take(i as int) =~= self.instances());
        }
        reports
    }

    /// Completes one health respawn: replaces the dead instance under
    /// `name` with the freshly spawned one; a failed spawn leaves the
    /// dead entry for the next pass, and an unregistered name changes
    /// nothing.
    pub fn health_respawn_finish(&mut self, name: &str, spawned: Result<Server, String>)
        requires
            old(self).wf(),
            spawned matches Ok(s) ==> s.wf(),
        ensures
            final(self).wf(),
            final(self).cfgv() == old(self).cfgv(),
            !old(self).has_instance(name@) || spawned is Err ==> *final(self) == *old(self),
            old(self).has_instance(name@) && (spawned matches Ok(s) && exists|i: int|
                {
                    &&& 0 <= i < old(self).instances().len()
                    &&& old(self).instances()[i].0 == name@
                    &&& others_same(old(self).instances(), final(self).instances(), i)
                    &&& final(self).instances()[i] == (name@, s)
                }) || !old(self).has_instance(name@) || spawned is Err,
    {
        match spawned {
            Ok(s) => {
                match find_key(&self.servers, name) {
                    Some(i) => {
                        let (nm, _dead) = self.servers.remove(i);
                        let ghost x = (nm, s);
                        self.servers.insert(i, (nm, s));
                        proof {
                            assert(self.servers@ =~= old(self).servers@.update(i as int, x));
                            let inst0 = old(self).instances();
                            let inst1 = self.instances();
                            assert(inst0[i as int].0 == name@);
                            assert(forall|j: int|
                                0 <= j < inst0.len() && j != i ==> inst1[j] == inst0[j]);
                            assert(others_same(inst0, inst1, i as int));
                            assert(inst1[i as int] == (name@, x.1));
                            assert(forall|p: int, q: int|
                                0 <= p < q < inst1.len() ==> inst1[p].0 == inst0[p].0 && inst1[q].0
                                    == inst0[q].0);
                            assert(forall|m: int|
                                0 <= m < inst1.len() ==> (#[trigger] inst1[m].1).wf());
                        }
                    },
                    None => {
                        proof {
                            assert(!old(self).has_instance(name@));
                        }
                    },
                }
            },
            Err(_e) => {},
        }
    }

    /// Whether an instance is registered under `name`.
    pub fn is_registered(&self, name: &str) -> (r: bool)
        ensures
            r == self.has_instance(name@),
    {
        match find_key(&self.servers, name) {
            Some(i) => {
                proof {
                    assert(self.instances()[i as int].0 == name@);
                }
                true
            },
            None => false,
        }
    }
}

} // verus!
