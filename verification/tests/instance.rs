use shepherd::config::ServerConfig;
use shepherd::server::{
    stop_escalate, ExitStatus, Server, ServerInfo, StopDirective, StopOutcome, StopStage,
};

fn plain_config(on_stop: Vec<String>) -> ServerConfig {
    ServerConfig {
        dir: "/srv".to_string(),
        command: "sleep".to_string(),
        args: vec!["100".to_string()],
        auto_restart: None,
        on_stop,
        stop_timeout: None,
    }
}

#[test]
fn fresh_instance_state() {
    let mut s = Server::new(4242, plain_config(Vec::new()));
    assert!(s.is_alive());
    assert_eq!(s.pid(), 4242);
    assert!(!s.auto_restart());
    assert_eq!(s.stop_timeout_ms(), 10000);
    s.set_alive(false);
    assert!(!s.is_alive());
}

#[test]
fn configured_flags_are_reflected() {
    let mut c = plain_config(Vec::new());
    c.auto_restart = Some(true);
    c.stop_timeout = Some(500);
    let s = Server::new(1, c);
    assert!(s.auto_restart());
    assert_eq!(s.stop_timeout_ms(), 500);
}

#[test]
fn delivered_lines_come_back_in_order() {
    let mut s = Server::new(1, plain_config(Vec::new()));
    assert!(s.read_line().is_none());
    s.deliver_line("first".to_string());
    s.deliver_line("second".to_string());
    assert_eq!(s.read_line(), Some("first".to_string()));
    assert_eq!(s.read_line(), Some("second".to_string()));
    assert!(s.read_line().is_none());
}

#[test]
fn tail_returns_last_lines_oldest_first() {
    let mut s = Server::new(1, plain_config(Vec::new()));
    for i in 0..10 {
        s.deliver_line(format!("line{}", i));
    }
    let t = s.tail(3);
    assert_eq!(t, vec!["line7".to_string(), "line8".to_string(), "line9".to_string()]);
    let all = s.tail(100);
    assert_eq!(all.len(), 10);
    assert_eq!(all[0], "line0");
}

#[test]
fn log_buffer_never_exceeds_eighty_lines() {
    let mut s = Server::new(1, plain_config(Vec::new()));
    for i in 0..300 {
        s.deliver_line(format!("line{}", i));
    }
    let t = s.tail(1000);
    assert_eq!(t.len(), 80);
    assert_eq!(t[0], "line220");
    assert_eq!(t[79], "line299");
    let five = s.tail(5);
    assert_eq!(five.len(), 5);
    assert_eq!(five[0], "line295");
    assert_eq!(five[4], "line299");
}

#[test]
fn send_command_frames_one_line() {
    let s = Server::new(1, plain_config(Vec::new()));
    assert_eq!(s.send_command("status"), "status\n");
}

#[test]
fn status_report_text() {
    let mut s = Server::new(4242, plain_config(Vec::new()));
    let info = ServerInfo { pid: 4242, cpu_centi: 5, memory_usage: 1000, uptime: 30 };
    assert_eq!(
        s.write_status(&Some(info)),
        "Status: Running [PID: 4242 Avg CPU: 0.05% Memory: 1.00 KB Uptime: 0:00:30]\n"
    );
    assert_eq!(s.write_status(&None), "Status: Stopped\n");
    s.set_alive(false);
    assert_eq!(s.write_status(&Some(info)), "Status: Stopped\n");
}

#[test]
fn exit_status_report_lines() {
    assert_eq!(
        ExitStatus::Stopped.describe(),
        "Stopped gently (used configured stop command)"
    );
    assert_eq!(
        ExitStatus::Terminated.describe(),
        "Terminated normally (no stop command or timed out)"
    );
    assert_eq!(
        ExitStatus::Killed.describe(),
        "Killed forcibly (server stopped responding)"
    );
    assert_eq!(ExitStatus::AlreadyStopped.describe(), "Server was already stopped!");
}

#[test]
fn stop_ladder_directives() {
    let mut dead = Server::new(1, plain_config(Vec::new()));
    dead.set_alive(false);
    assert!(matches!(dead.stop(), StopDirective::AlreadyDone));

    let plain = Server::new(1, plain_config(Vec::new()));
    assert!(matches!(plain.stop(), StopDirective::Term));

    let polite = Server::new(
        1,
        plain_config(vec!["quit".to_string(), "bye".to_string()]),
    );
    match polite.stop() {
        StopDirective::Cooperative(cmds) => {
            assert_eq!(cmds, vec!["quit".to_string(), "bye".to_string()]);
        },
        _ => panic!("expected the cooperative stage"),
    }
}

#[test]
fn stop_ladder_escalation() {
    assert!(matches!(
        stop_escalate(StopStage::Cooperative, true),
        StopOutcome::Done(ExitStatus::Stopped)
    ));
    assert!(matches!(
        stop_escalate(StopStage::Cooperative, false),
        StopOutcome::Escalate(StopStage::Term)
    ));
    assert!(matches!(
        stop_escalate(StopStage::Term, true),
        StopOutcome::Done(ExitStatus::Terminated)
    ));
    assert!(matches!(
        stop_escalate(StopStage::Term, false),
        StopOutcome::Escalate(StopStage::Kill)
    ));
    assert!(matches!(
        stop_escalate(StopStage::Kill, true),
        StopOutcome::Done(ExitStatus::Killed)
    ));
    assert!(matches!(
        stop_escalate(StopStage::Kill, false),
        StopOutcome::Done(ExitStatus::Killed)
    ));
}

#[test]
fn accounting_read_from_proc_text() {
    // fields 13 and 14 are user and kernel time in ticks, 21 the start
    // time, 23 the resident memory
    let stat = "4242 (sleep) S 1 2 3 4 5 6 7 8 9 10 2000 3000 11 12 13 14 15 16 4000 17 2048";
    let info = ServerInfo::for_process(4242, "100.25 350.00", stat, 100).unwrap();
    assert_eq!(info.pid, 4242);
    // 5000 ticks at 100 ticks per second over 60 s of runtime
    assert_eq!(info.cpu_centi, 83);
    assert_eq!(info.memory_usage, 2048);
    assert_eq!(info.uptime, 60);
    assert_eq!(
        info.render(),
        "PID: 4242 Avg CPU: 0.83% Memory: 2.05 KB Uptime: 0:01:00"
    );
}

#[test]
fn unreadable_accounting_yields_nothing() {
    let stat = "4242 (sleep) S 1 2 3 4 5 6 7 8 9 10 2000 3000 11 12 13 14 15 16 4000 17 2048";
    assert!(ServerInfo::for_process(1, "100.25", "too short", 100).is_none());
    assert!(ServerInfo::for_process(1, "", stat, 100).is_none());
    assert!(ServerInfo::for_process(1, "100.25", stat, 0).is_none());
    // the process claims to have started after the host booted up
    assert!(ServerInfo::for_process(1, "10.00", stat, 100).is_none());
}
