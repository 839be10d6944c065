//! The change tracker on concrete snapshots: baseline capture, diffing,
//! idempotence, and the start/stop round trip.

use portwatch::tracker::{ExportFormat, PortEvent, Tracker};
use portwatch::{PortInfo, ProcessPortState};

fn rec(port: u16, pid: u32, name: &str, hosting: bool) -> PortInfo {
    PortInfo {
        id: format!("{}-{}", pid, port),
        port,
        pid,
        process_name: name.to_string(),
        process_path: format!("/bin/{}", name),
        port_state: if hosting { ProcessPortState::Hosting } else { ProcessPortState::Using },
    }
}

#[test]
fn start_captures_baseline_and_one_initial_event() {
    let mut t = Tracker::new();
    assert!(!t.is_active);
    t.start(vec![rec(80, 100, "web", true)], 11);
    assert!(t.is_active);
    assert_eq!(t.started_at, Some(11));
    assert_eq!(t.baseline.len(), 1);
    assert_eq!(t.events.len(), 1);
    match &t.events[0] {
        PortEvent::InitialState { timestamp, ports } => {
            assert_eq!(*timestamp, 11);
            assert_eq!(ports.len(), 1);
            assert_eq!(ports[0].port, 80);
        }
        other => panic!("unexpected event {:?}", other),
    }
}

#[test]
fn track_once_appends_one_opened_for_new_record() {
    // Baseline [{port:80,pid:100,Hosting}]; new snapshot adds {443,200,Hosting}:
    // exactly one PortOpened for 443/200 and no PortClosed.
    let mut t = Tracker::new();
    t.start(vec![rec(80, 100, "web", true)], 1);
    t.track_once(vec![rec(80, 100, "web", true), rec(443, 200, "tls", true)], 2);
    assert_eq!(t.events.len(), 2);
    match &t.events[1] {
        PortEvent::PortOpened { timestamp, port } => {
            assert_eq!(*timestamp, 2);
            assert_eq!(port.port, 443);
            assert_eq!(port.pid, 200);
        }
        other => panic!("unexpected event {:?}", other),
    }
    assert_eq!(t.baseline.len(), 2);
    assert_eq!(t.baseline[1].port, 443);
}

#[test]
fn track_once_appends_closed_for_vanished_record() {
    let mut t = Tracker::new();
    t.start(vec![rec(80, 100, "web", true), rec(22, 7, "ssh", true)], 1);
    t.track_once(vec![rec(80, 100, "web", true)], 2);
    assert_eq!(t.events.len(), 2);
    match &t.events[1] {
        PortEvent::PortClosed { port, .. } => {
            assert_eq!(port.port, 22);
            assert_eq!(port.pid, 7);
        }
        other => panic!("unexpected event {:?}", other),
    }
    assert_eq!(t.baseline.len(), 1);
}

#[test]
fn track_once_same_snapshot_twice_adds_nothing() {
    let snap = || vec![rec(80, 100, "web", true), rec(53, 5, "dns", false)];
    let mut t = Tracker::new();
    t.start(vec![], 1);
    t.track_once(snap(), 2);
    let after_first = t.events.len();
    t.track_once(snap(), 3);
    assert_eq!(t.events.len(), after_first);
    assert_eq!(t.baseline.len(), 2);
}

#[test]
fn track_once_while_inactive_is_a_no_op() {
    let mut t = Tracker::new();
    t.track_once(vec![rec(80, 100, "web", true)], 5);
    assert_eq!(t.events.len(), 0);
    assert_eq!(t.baseline.len(), 0);
}

#[test]
fn start_then_stop_exports_exactly_one_initial_state() {
    let mut t = Tracker::new();
    t.start(vec![rec(80, 100, "web", true), rec(22, 7, "ssh", true)], 42);
    t.stop();
    assert!(!t.is_active);
    assert_eq!(t.events.len(), 1);
    match &t.events[0] {
        PortEvent::InitialState { ports, .. } => {
            assert_eq!(ports.len(), 2);
            assert_eq!(ports[0].port, 80);
            assert_eq!(ports[1].port, 22);
        }
        other => panic!("unexpected event {:?}", other),
    }
    let (name, body) = t.export(0);
    assert_eq!(name, "changes-19700101-000000.json");
    assert!(body.starts_with("[\n"));
    assert!(body.contains("\"event\": \"initial_state\""));
    assert!(body.contains("\"timestamp\": \"1970-01-01T00:00:42+00:00\""));
    assert!(body.contains("\"port\": 80"));
    assert!(body.contains("\"port\": 22"));
    assert!(!body.contains("port_opened"));
    assert!(!body.contains("port_closed"));
}

#[test]
fn diff_ports_reports_both_directions() {
    let old = vec![rec(1, 1, "a", true), rec(2, 2, "b", true)];
    let new = vec![rec(2, 2, "b", true), rec(3, 3, "c", false)];
    let (added, removed) = portwatch::tracker::diff_ports(&old, &new);
    assert_eq!(added.len(), 1);
    assert_eq!(added[0].port, 3);
    assert_eq!(removed.len(), 1);
    assert_eq!(removed[0].port, 1);
}

#[test]
fn diff_counts_records_as_sets() {
    // Duplicate full records in a snapshot collapse: one open event only.
    let old: Vec<PortInfo> = vec![];
    let new = vec![rec(9, 9, "x", true), rec(9, 9, "x", true)];
    let (added, removed) = portwatch::tracker::diff_ports(&old, &new);
    assert_eq!(added.len(), 1);
    assert_eq!(removed.len(), 0);
}

#[test]
fn export_format_cycles_both_ways() {
    assert_eq!(ExportFormat::Json.next(), ExportFormat::Csv);
    assert_eq!(ExportFormat::Csv.next(), ExportFormat::Yaml);
    assert_eq!(ExportFormat::Yaml.next(), ExportFormat::Json);
    assert_eq!(ExportFormat::Json.prev(), ExportFormat::Yaml);
    assert_eq!(ExportFormat::Csv.prev(), ExportFormat::Json);
    assert_eq!(ExportFormat::Yaml.prev(), ExportFormat::Csv);
    assert_eq!(ExportFormat::default(), ExportFormat::Json);
}
