use shepherd::config::{Config, ServerConfig};
use shepherd::daemon::{
    kill_daemon_epilogue, list_ops, stop_server, Daemon, HealthReport, Pending,
};
use shepherd::server::{stop_escalate, ExitStatus, Server, ServerInfo, StopDirective, StopOutcome};

const OPS_TABLE: &str = "\nshepherd ops:\n    start <server>\n    stop <server>\n    restart <server>\n    tail <server> [lines]\n    send <server> <command>\n    status <server>\n    servers\n    instances\n    reload-config\n    ops\n    kill-daemon\n\n";

fn web_config() -> ServerConfig {
    ServerConfig {
        dir: "/srv".to_string(),
        command: "sleep".to_string(),
        args: vec!["100".to_string()],
        auto_restart: Some(true),
        on_stop: Vec::new(),
        stop_timeout: Some(500),
    }
}

fn one_service_daemon() -> Daemon {
    Daemon::new(Config {
        socket_path: "/tmp/shepherd.sock".to_string(),
        start_servers: Vec::new(),
        servers: vec![("web".to_string(), web_config())],
    })
}

fn words(line: &str) -> Vec<String> {
    shepherd::text::tokenize(line)
}

fn start_web(d: &mut Daemon, pid: i32) {
    let (resp, pending) = d.match_op(words("start web"));
    assert_eq!(resp, "Starting \"web\"...\n");
    match pending {
        Pending::Spawn { name, config } => {
            assert_eq!(name, "web");
            let r = d.spawn_finish(name, Ok(Server::new(pid, config)));
            assert_eq!(r, "Server \"web\" started!\n");
        },
        _ => panic!("expected a spawn directive"),
    }
}

#[test]
fn unregistered_names_are_refused_without_side_effects() {
    let mut d = one_service_daemon();
    for cmd in ["stop web", "status web", "tail web", "send web hello"] {
        let (resp, pending) = d.match_op(words(cmd));
        assert_eq!(resp, "No running instance of \"web\"\n");
        assert!(matches!(pending, Pending::Done));
        assert_eq!(d.instance_count(), 0);
    }
}

#[test]
fn send_to_unregistered_name_exact_response() {
    let mut d = one_service_daemon();
    let (resp, pending) = d.match_op(words("send web hello"));
    assert_eq!(resp, "No running instance of \"web\"\n");
    assert!(matches!(pending, Pending::Done));
    assert_eq!(d.instance_count(), 0);
}

#[test]
fn start_twice_never_spawns_a_second_process() {
    let mut d = one_service_daemon();
    start_web(&mut d, 4242);
    assert_eq!(d.instance_count(), 1);
    let (resp, pending) = d.match_op(words("start web"));
    assert_eq!(resp, "Server \"web\" already running!\n");
    assert!(matches!(pending, Pending::Done));
    assert_eq!(d.instance_count(), 1);
    assert_eq!(d.instance_pid_at(0), 4242);
}

#[test]
fn start_without_configuration() {
    let mut d = one_service_daemon();
    let (resp, pending) = d.match_op(words("start db"));
    assert_eq!(resp, "No configuration for \"db\"\n");
    assert!(matches!(pending, Pending::Done));
}

#[test]
fn failed_spawn_is_reported_and_registers_nothing() {
    let mut d = one_service_daemon();
    let (_, pending) = d.match_op(words("start web"));
    match pending {
        Pending::Spawn { name, .. } => {
            let r = d.spawn_finish(name, Err("permission denied".to_string()));
            assert_eq!(r, "Error starting \"web\": permission denied\n");
        },
        _ => panic!("expected a spawn directive"),
    }
    assert!(!d.is_registered("web"));
}

#[test]
fn start_status_stop_scenario() {
    let mut d = one_service_daemon();
    start_web(&mut d, 4242);

    let (resp, pending) = d.match_op(words("status web"));
    assert_eq!(resp, "Server instance \"web\" \n");
    match pending {
        Pending::Status { name, pid, alive } => {
            assert_eq!(name, "web");
            assert_eq!(pid, 4242);
            assert!(alive);
            let info = ServerInfo { pid, cpu_centi: 5, memory_usage: 1000, uptime: 30 };
            let report = d.server_status_report(&name, &Some(info));
            assert_eq!(
                report,
                "Status: Running [PID: 4242 Avg CPU: 0.05% Memory: 1.00 KB Uptime: 0:00:30]\n"
            );
        },
        _ => panic!("expected a status directive"),
    }

    let (resp, pending) = d.match_op(words("stop web"));
    assert_eq!(resp, "Sending stop command to \"web\"...\n");
    match pending {
        Pending::Stop { name, server } => {
            assert_eq!(name, "web");
            assert_eq!(server.stop_timeout_ms(), 500);
            // no configured stop commands: straight to the termination
            // signal, which reaps a sleeping child
            assert!(matches!(server.stop(), StopDirective::Term));
            let outcome = stop_escalate(shepherd::server::StopStage::Term, true);
            let status = match outcome {
                StopOutcome::Done(status) => status,
                _ => panic!("expected the ladder to finish"),
            };
            assert!(matches!(status, ExitStatus::Terminated));
            let (report, ok) = stop_server(&name, &Ok(status));
            assert_eq!(
                report,
                "\"web\" stopped. Status: Terminated normally (no stop command or timed out)\n"
            );
            assert!(ok);
        },
        _ => panic!("expected a stop directive"),
    }

    let (resp, _) = d.match_op(words("status web"));
    assert_eq!(resp, "No running instance of \"web\"\n");
}

#[test]
fn stopped_names_leave_the_instances_listing() {
    let mut d = one_service_daemon();
    start_web(&mut d, 4242);
    let listing = d.list_instances(&vec![None]);
    assert_eq!(listing, "Running instances:\n\"web\" Status: Stopped\n");
    let info = ServerInfo { pid: 4242, cpu_centi: 5, memory_usage: 1000, uptime: 30 };
    let listing = d.list_instances(&vec![Some(info)]);
    assert_eq!(
        listing,
        "Running instances:\n\"web\" Status: Running [PID: 4242 Avg CPU: 0.05% Memory: 1.00 KB Uptime: 0:00:30]\n"
    );
    let (_, _) = d.match_op(words("stop web"));
    assert_eq!(d.instance_count(), 0);
    assert_eq!(d.list_instances(&Vec::new()), "Running instances:\n");
}

#[test]
fn unknown_commands_print_the_table_and_the_loop_goes_on() {
    let mut d = one_service_daemon();
    let (resp, pending) = d.match_op(words("foo"));
    assert_eq!(resp, format!("Unrecognized command: foo\n{}", OPS_TABLE));
    assert!(matches!(pending, Pending::Done));
    // the dispatcher still serves commands afterwards
    let (resp, _) = d.match_op(words("status web"));
    assert_eq!(resp, "No running instance of \"web\"\n");
}

#[test]
fn empty_and_ops_commands_print_the_table() {
    let mut d = one_service_daemon();
    let (resp, _) = d.match_op(Vec::new());
    assert_eq!(resp, OPS_TABLE);
    let (resp, _) = d.match_op(words("ops"));
    assert_eq!(resp, OPS_TABLE);
    assert_eq!(list_ops(), OPS_TABLE);
}

#[test]
fn usage_lines_for_missing_arguments() {
    let mut d = one_service_daemon();
    let cases = [
        ("start", "Usage: start <server>\n"),
        ("stop", "Usage: stop <server>\n"),
        ("restart", "Usage: restart <server>\n"),
        ("status", "Usage: status <server>\n"),
        ("tail", "Usage: tail <server> [lines]\n"),
        ("send", "Usage: send <server> <command>\n"),
    ];
    for (cmd, expected) in cases {
        let (resp, _) = d.match_op(words(cmd));
        assert_eq!(resp, expected);
    }
}

#[test]
fn tail_reports_the_last_lines() {
    let mut d = one_service_daemon();
    start_web(&mut d, 4242);
    for i in 0..6 {
        d.deliver_line_to("web", format!("line{}", i));
    }
    let (resp, _) = d.match_op(words("tail web 2"));
    assert_eq!(resp, "Last 2 lines from \"web\":\nline4\nline5\n");
    let (resp, _) = d.match_op(words("tail web"));
    assert_eq!(
        resp,
        "Last 20 lines from \"web\":\nline0\nline1\nline2\nline3\nline4\nline5\n"
    );
    // an unparsable count falls back to the default
    let (resp, _) = d.match_op(words("tail web many"));
    assert!(resp.starts_with("Last 20 lines from \"web\":\n"));
}

#[test]
fn send_forwards_one_line_and_reports_the_reply() {
    let mut d = one_service_daemon();
    start_web(&mut d, 4242);
    let (resp, pending) = d.match_op(words("send web hello brave world"));
    assert_eq!(resp, "Sending command to \"web\": hello brave world\n");
    match pending {
        Pending::Send { name, pid, line } => {
            assert_eq!(name, "web");
            assert_eq!(pid, 4242);
            assert_eq!(line, "hello brave world\n");
            d.deliver_line_to("web", "ok".to_string());
            let report = d.server_send_report(&name);
            assert_eq!(report, "\"web\": ok\n");
        },
        _ => panic!("expected a send directive"),
    }
    // with no fresh output, the most recent retained line is reported
    let (_, pending) = d.match_op(words("send web again"));
    match pending {
        Pending::Send { name, .. } => {
            assert_eq!(d.server_send_report(&name), "\"web\": ok\n");
        },
        _ => panic!("expected a send directive"),
    }
    // a child that has never produced output yields no report line
    let mut quiet = one_service_daemon();
    start_web(&mut quiet, 1);
    let (_, pending) = quiet.match_op(words("send web ping"));
    match pending {
        Pending::Send { name, .. } => {
            assert_eq!(quiet.server_send_report(&name), "");
        },
        _ => panic!("expected a send directive"),
    }
}

#[test]
fn servers_listing_text() {
    let mut d = one_service_daemon();
    let (got, pending) = d.match_op(words("servers"));
    assert_eq!(
        got,
        "Servers:\n\"web\":\ndirectory: /srv\ncommand: sleep\nargs: [\"100\"]\n"
    );
    assert!(matches!(pending, Pending::Done));
}

#[test]
fn restart_stops_then_spawns_afresh() {
    let mut d = one_service_daemon();
    start_web(&mut d, 4242);
    let (resp, pending) = d.match_op(words("restart web"));
    assert_eq!(resp, "Sending stop command to \"web\"...\n");
    match pending {
        Pending::RestartStop { name, .. } => {
            let (resp, pending) = d.restart_continue(name, Ok(ExitStatus::Terminated));
            assert_eq!(
                resp,
                "\"web\" stopped. Status: Terminated normally (no stop command or timed out)\n"
            );
            match pending {
                Pending::Spawn { name, config } => {
                    let r = d.spawn_finish(name, Ok(Server::new(5555, config)));
                    assert_eq!(r, "Server \"web\" started!\n");
                },
                _ => panic!("expected a spawn directive"),
            }
        },
        _ => panic!("expected a restart-stop directive"),
    }
    assert_eq!(d.instance_pid_at(0), 5555);
}

#[test]
fn restart_of_a_stopped_service_starts_it() {
    let mut d = one_service_daemon();
    let (resp, pending) = d.match_op(words("restart web"));
    assert_eq!(resp, "\"web\" was not running! Starting anyways...\n");
    assert!(matches!(pending, Pending::Spawn { .. }));
    let (resp, pending) = d.match_op(words("restart db"));
    assert_eq!(
        resp,
        "\"db\" was not running! Starting anyways...\nNo configuration for \"db\"! Did the configuration change?\n"
    );
    assert!(matches!(pending, Pending::Done));
}

#[test]
fn restart_gives_up_when_the_stop_fails() {
    let mut d = one_service_daemon();
    start_web(&mut d, 4242);
    let (_, pending) = d.match_op(words("restart web"));
    match pending {
        Pending::RestartStop { name, .. } => {
            let (resp, pending) = d.restart_continue(name, Err("it will not die".to_string()));
            assert_eq!(resp, "Failed to stop \"web\"! Message: it will not die\n");
            assert!(matches!(pending, Pending::Done));
        },
        _ => panic!("expected a restart-stop directive"),
    }
    assert!(!d.is_registered("web"));
}

#[test]
fn reload_failure_changes_nothing() {
    let mut d = one_service_daemon();
    start_web(&mut d, 4242);
    let (resp, pending) = d.match_op(words("reload-config"));
    assert_eq!(resp, "Reloading config. Will not affect existing server instances.\n");
    assert!(matches!(pending, Pending::Reload));
    let r = d.reload_config(Err("expected a table".to_string()));
    assert_eq!(r, "Failed to load config: expected a table\n");
    // the instance and the old configuration are both still in place
    assert!(d.is_registered("web"));
    let (resp, _) = d.match_op(words("start web"));
    assert_eq!(resp, "Server \"web\" already running!\n");
}

#[test]
fn reload_success_replaces_only_the_configuration() {
    let mut d = one_service_daemon();
    start_web(&mut d, 4242);
    let empty = Config {
        socket_path: "/tmp/shepherd.sock".to_string(),
        start_servers: Vec::new(),
        servers: Vec::new(),
    };
    let r = d.reload_config(Ok(empty));
    assert_eq!(r, "Config reloaded.\n");
    // the running instance is untouched ...
    assert!(d.is_registered("web"));
    assert_eq!(d.instance_pid_at(0), 4242);
    // ... but the service table is gone for future starts
    let (resp, _) = d.match_op(words("start db"));
    assert_eq!(resp, "No configuration for \"db\"\n");
}

#[test]
fn health_check_restarts_exactly_the_dead_flagged_instances() {
    let mut live_cfg = web_config();
    live_cfg.auto_restart = Some(true);
    let mut meek_cfg = web_config();
    meek_cfg.auto_restart = None;
    let mut d = Daemon::new(Config {
        socket_path: String::new(),
        start_servers: Vec::new(),
        servers: vec![
            ("alive".to_string(), live_cfg.clone()),
            ("phoenix".to_string(), live_cfg.clone()),
            ("meek".to_string(), meek_cfg),
        ],
    });
    for (name, pid) in [("alive", 1), ("phoenix", 2), ("meek", 3)] {
        let (_, pending) = d.match_op(vec!["start".to_string(), name.to_string()]);
        match pending {
            Pending::Spawn { name, config } => {
                d.spawn_finish(name, Ok(Server::new(pid, config)));
            },
            _ => panic!("expected a spawn directive"),
        }
    }
    // an instance whose configuration has vanished, dead and flagged
    let orphan_cfg = live_cfg.clone();
    d.spawn_finish("orphan".to_string(), Ok(Server::new(4, orphan_cfg)));
    d.deliver_line_to("orphan", "so long".to_string());

    // probe results: everything but "alive" is dead
    d.set_alive_at(1, false);
    d.set_alive_at(2, false);
    d.set_alive_at(3, false);

    let reports: Vec<HealthReport> = d.check_instances();
    let names: Vec<&str> = reports.iter().map(|h| h.name.as_str()).collect();
    assert_eq!(names, vec!["phoenix", "orphan"]);
    assert!(reports[0].config.is_some());
    assert!(reports[1].config.is_none());
    assert_eq!(reports[1].lines, vec!["so long".to_string()]);

    // the orphan was dropped, the dead unflagged instance stays
    assert!(!d.is_registered("orphan"));
    assert!(d.is_registered("meek"));

    let respawn_cfg = reports[0].config.clone().unwrap();
    d.health_respawn_finish("phoenix", Ok(Server::new(22, respawn_cfg)));
    assert_eq!(d.instance_count(), 3);
    assert_eq!(d.instance_pid_at(1), 22);
}

#[test]
fn kill_daemon_drains_every_instance() {
    let mut big = one_service_daemon();
    start_web(&mut big, 4242);
    big.spawn_finish("extra".to_string(), Ok(Server::new(7, web_config())));
    let (resp, pending) = big.match_op(words("kill-daemon"));
    assert_eq!(resp, "Killing servers...\n");
    match pending {
        Pending::Kill { stopping } => {
            assert_eq!(stopping.len(), 2);
            assert_eq!(stopping[0].0, "web");
            assert_eq!(stopping[1].0, "extra");
            for (name, server) in &stopping {
                let directive = server.stop();
                assert!(matches!(directive, StopDirective::Term));
                let (report, ok) = stop_server(name, &Ok(ExitStatus::Terminated));
                assert!(ok);
                assert!(report.contains(name.as_str()));
            }
        },
        _ => panic!("expected a kill directive"),
    }
    assert_eq!(big.instance_count(), 0);
    let epilogue = kill_daemon_epilogue();
    assert!(epilogue.starts_with("Daemon exiting. Any servers that failed to stop will die now.\n"));
    assert_eq!(epilogue.len(), "Daemon exiting. Any servers that failed to stop will die now.\n".len() + 64);
    assert!(epilogue.ends_with("\0\0\0\0"));
    assert_eq!(epilogue.bytes().filter(|b| *b == 0).count(), 64);
}

#[test]
fn failed_stop_report() {
    let (report, ok) = stop_server("web", &Err("broken pipe".to_string()));
    assert_eq!(report, "Failed to stop \"web\"! Message: broken pipe\n");
    assert!(!ok);
}
