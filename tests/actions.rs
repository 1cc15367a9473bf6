use portkill::live::{kill_process_by_pid, EventOutcome, KillOutcome};
use portkill::manager::Manager;
use portkill::model::{create_choices_vec, Choices, PortInfo, ProtocolInfo, SocketKind, SocketRecord};
use portkill::session::{next_step, Answer, Stage, Step};
use std::collections::HashMap;
use sysinfo::System;

fn shared_port_manager() -> Manager {
    let sockets = vec![
        SocketRecord { local_port: 9000, associated_pids: vec![300], kind: SocketKind::Tcp("LISTEN".to_string()) },
        SocketRecord { local_port: 9000, associated_pids: vec![300], kind: SocketKind::Udp },
        SocketRecord { local_port: 9000, associated_pids: vec![301], kind: SocketKind::Udp },
    ];
    let mut names = HashMap::new();
    names.insert(300u32, "srv".to_string());
    names.insert(301u32, "helper".to_string());
    Manager::build(&sockets, &names)
}

#[test]
fn shared_pid_targeted_once() {
    let m = shared_port_manager();
    assert_eq!(m.port_infos.len(), 3);
    assert_eq!(m.kill_targets(9000), vec![300, 301]);
}

#[test]
fn unknown_port_has_no_targets() {
    let m = shared_port_manager();
    assert!(m.kill_targets(1234).is_empty());
    let sys = System::new();
    assert!(m.kill_process_by_port(1234, &sys).is_empty());
}

#[test]
fn kill_by_port_reports_each_target_once() {
    let m = shared_port_manager();
    // an unrefreshed table holds no process, so nothing is signalled
    let sys = System::new();
    let reports = m.kill_process_by_port(9000, &sys);
    let pids: Vec<u32> = reports.iter().map(|r| r.pid).collect();
    assert_eq!(pids, vec![300, 301]);
    assert!(reports.iter().all(|r| r.outcome == KillOutcome::Gone));
}

#[test]
fn kill_missing_pid_is_a_no_op() {
    let sys = System::new();
    assert_eq!(kill_process_by_pid(&sys, 4_000_000), KillOutcome::Gone);
}

#[test]
fn event_on_missing_process_does_nothing() {
    let m = shared_port_manager();
    let sys = System::new();
    let picked = m.port_infos[0].clone();
    assert!(matches!(m.handle_event(Choices::Kill, &picked, &sys), EventOutcome::ProcessGone));
    assert!(matches!(m.handle_event(Choices::ViewDetails, &picked, &sys), EventOutcome::ProcessGone));
}

#[test]
fn cancelled_entry_prompt_ends_session() {
    assert_eq!(next_step(Stage::ChooseEntry, Answer::Cancelled), Step::End);
    assert_eq!(next_step(Stage::ChooseAction { entry: 0 }, Answer::Cancelled), Step::End);
}

#[test]
fn picks_lead_to_dispatch() {
    assert_eq!(next_step(Stage::ChooseEntry, Answer::Entry(2)), Step::AskAction { entry: 2 });
    assert_eq!(
        next_step(Stage::ChooseAction { entry: 2 }, Answer::Action(Choices::Kill)),
        Step::Dispatch { entry: 2, action: Choices::Kill }
    );
    assert_eq!(next_step(Stage::ChooseEntry, Answer::Action(Choices::Kill)), Step::End);
}

#[test]
fn choices_menu() {
    let v = create_choices_vec();
    assert_eq!(v, vec![Choices::Kill, Choices::ViewDetails]);
    assert_eq!(v[0].label(), "Kill");
    assert_eq!(v[1].label(), "View Details");
}

#[test]
fn detail_lines_render() {
    let e = PortInfo {
        port_number: 8080,
        pid: 100,
        process_name: "webapp".to_string(),
        protocol: ProtocolInfo::TCP,
        port_status: "LISTEN".to_string(),
    };
    let lines = e.detail_lines(2048, 3725, "2024-01-01 00:00:00 +00:00", "[\"webapp\"]");
    assert_eq!(
        lines,
        vec![
            "Port number: 8080".to_string(),
            "Port status: LISTEN".to_string(),
            "Memory Usage: 2048 bytes".to_string(),
            "Run time: 1h 2m 5s".to_string(),
            "Start time: 2024-01-01 00:00:00 +00:00".to_string(),
            "Command: [\"webapp\"]".to_string(),
        ]
    );
}

#[test]
fn view_details_on_live_process() {
    let me = sysinfo::get_current_pid().unwrap().as_u32();
    let sys = System::new_all();
    let picked = PortInfo {
        port_number: 8080,
        pid: me,
        process_name: "self".to_string(),
        protocol: ProtocolInfo::TCP,
        port_status: "LISTEN".to_string(),
    };
    let m = Manager::new();
    match m.handle_event(Choices::ViewDetails, &picked, &sys) {
        EventOutcome::Details { name, lines } => {
            assert_eq!(name, "self");
            assert_eq!(lines.len(), 6);
            assert_eq!(lines[0], "Port number: 8080");
            assert_eq!(lines[1], "Port status: LISTEN");
            assert!(lines[2].starts_with("Memory Usage: "));
            assert!(lines[3].starts_with("Run time: "));
        }
        _ => panic!("the running test process should be found"),
    }
}
