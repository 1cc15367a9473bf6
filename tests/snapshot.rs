use portkill::manager::Manager;
use portkill::model::{ProtocolInfo, SocketKind, SocketRecord};
use std::collections::HashMap;

fn tcp(port: u16, pids: Vec<u32>, state: &str) -> SocketRecord {
    SocketRecord { local_port: port, associated_pids: pids, kind: SocketKind::Tcp(state.to_string()) }
}

fn udp(port: u16, pids: Vec<u32>) -> SocketRecord {
    SocketRecord { local_port: port, associated_pids: pids, kind: SocketKind::Udp }
}

fn table(rows: &[(u32, &str)]) -> HashMap<u32, String> {
    let mut m = HashMap::new();
    for (pid, name) in rows {
        m.insert(*pid, name.to_string());
    }
    m
}

#[test]
fn single_tcp_listener() {
    let sockets = vec![tcp(8080, vec![100], "LISTEN")];
    let m = Manager::build(&sockets, &table(&[(100, "webapp")]));
    assert_eq!(m.port_infos.len(), 1);
    let e = &m.port_infos[0];
    assert_eq!(e.port_number, 8080);
    assert_eq!(e.pid, 100);
    assert_eq!(e.process_name, "webapp");
    assert_eq!(e.protocol, ProtocolInfo::TCP);
    assert_eq!(e.port_status, "LISTEN");
    assert_eq!(m.by_port.len(), 1);
    assert_eq!(m.by_port.get(&8080), Some(&vec![0usize]));
    assert_eq!(m.by_process.len(), 1);
    assert_eq!(m.by_process.get(&100), Some(&vec![0usize]));
}

#[test]
fn udp_with_missing_pid() {
    let sockets = vec![udp(53, vec![200, 201])];
    let m = Manager::build(&sockets, &table(&[(200, "dnsd")]));
    assert_eq!(m.port_infos.len(), 1);
    let e = &m.port_infos[0];
    assert_eq!(e.pid, 200);
    assert_eq!(e.port_number, 53);
    assert_eq!(e.process_name, "dnsd");
    assert_eq!(e.protocol, ProtocolInfo::UDP);
    assert_eq!(e.port_status, "N/A");
    assert!(m.by_process.get(&201).is_none());
    assert_eq!(m.by_port.get(&53), Some(&vec![0usize]));
}

#[test]
fn empty_tables_give_empty_snapshot() {
    let m = Manager::build(&vec![], &HashMap::new());
    assert!(m.port_infos.is_empty());
    assert!(m.by_port.is_empty());
    assert!(m.by_process.is_empty());
    let n = Manager::new();
    assert!(n.port_infos.is_empty());
}

#[test]
fn count_is_resolved_pairs() {
    let sockets = vec![
        tcp(80, vec![1, 2, 3], "LISTEN"),
        udp(53, vec![4]),
        tcp(443, vec![], "ESTABLISHED"),
        udp(123, vec![2, 5]),
    ];
    let m = Manager::build(&sockets, &table(&[(1, "a"), (2, "b"), (5, "c")]));
    // resolved pairs: (80,1) (80,2) (123,2) (123,5)
    assert_eq!(m.port_infos.len(), 4);
    let got: Vec<(u16, u32)> = m.port_infos.iter().map(|e| (e.port_number, e.pid)).collect();
    assert_eq!(got, vec![(80, 1), (80, 2), (123, 2), (123, 5)]);
}

#[test]
fn indexes_point_at_matching_entries() {
    let sockets = vec![
        tcp(80, vec![1, 2], "LISTEN"),
        tcp(80, vec![1], "LISTEN"),
        udp(53, vec![2]),
        tcp(22, vec![3], "ESTABLISHED"),
    ];
    let m = Manager::build(&sockets, &table(&[(1, "a"), (2, "b"), (3, "c")]));
    assert_eq!(m.by_port.get(&80), Some(&vec![0usize, 1, 2]));
    assert_eq!(m.by_port.get(&53), Some(&vec![3usize]));
    assert_eq!(m.by_port.get(&22), Some(&vec![4usize]));
    assert_eq!(m.by_process.get(&1), Some(&vec![0usize, 2]));
    assert_eq!(m.by_process.get(&2), Some(&vec![1usize, 3]));
    for (port, bucket) in m.by_port.iter() {
        for &i in bucket {
            assert_eq!(m.port_infos[i].port_number, *port);
        }
    }
    for (pid, bucket) in m.by_process.iter() {
        for &i in bucket {
            assert_eq!(m.port_infos[i].pid, *pid);
        }
    }
}

#[test]
fn states_follow_protocol() {
    let sockets = vec![tcp(5432, vec![7], "TIME_WAIT"), udp(5353, vec![7])];
    let m = Manager::build(&sockets, &table(&[(7, "db")]));
    assert_eq!(m.port_infos[0].port_status, "TIME_WAIT");
    assert_eq!(m.port_infos[0].protocol, ProtocolInfo::TCP);
    assert_eq!(m.port_infos[1].port_status, "N/A");
    assert_eq!(m.port_infos[1].protocol, ProtocolInfo::UDP);
}
