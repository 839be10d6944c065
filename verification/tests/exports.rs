//! Rendering snapshots and event logs for export: file names, CSV text
//! held against an independent CSV reader, and the event-log formats.

use portwatch::export::{
    events_csv_string, events_json_string, events_yaml_string, export_events, export_snapshot,
    snapshot_csv_string,
};
use portwatch::tracker::{ExportFormat, PortEvent};
use portwatch::{PortInfo, ProcessPortState};

fn rec(port: u16, pid: u32, name: &str, path: &str, hosting: bool) -> PortInfo {
    PortInfo {
        id: format!("id-{}", pid),
        port,
        pid,
        process_name: name.to_string(),
        process_path: path.to_string(),
        port_state: if hosting { ProcessPortState::Hosting } else { ProcessPortState::Using },
    }
}

#[test]
fn export_file_names_carry_prefix_stamp_and_extension() {
    // The Unix epoch formats as 19700101-000000 in UTC.
    let (name, _) = export_snapshot(&vec![], ExportFormat::Json, 0);
    assert_eq!(name, "ports-19700101-000000.json");
    let (name_csv, _) = export_snapshot(&vec![], ExportFormat::Csv, 0);
    assert_eq!(name_csv, "ports-19700101-000000.csv");
    // 2001-09-09 01:46:40 UTC.
    let (name_yaml, _) = export_events(&vec![], ExportFormat::Yaml, 1_000_000_000);
    assert_eq!(name_yaml, "changes-20010909-014640.yaml");
}

#[test]
fn snapshot_csv_has_header_and_quotes_when_needed() {
    let snap = vec![
        rec(80, 100, "plain", "/bin/plain", true),
        rec(443, 200, "has, comma", "say \"hi\"", false),
    ];
    let text = snapshot_csv_string(&snap);
    let expected = "Port,PID,Process Name,Process Path,State\n\
80,100,plain,/bin/plain,Hosting\n\
443,200,\"has, comma\",\"say \"\"hi\"\"\",Using\n";
    assert_eq!(text, expected);
}

#[test]
fn snapshot_csv_reads_back_with_a_csv_reader() {
    let snap = vec![rec(80, 100, "has, comma", "/bin/x", true), rec(22, 7, "sshd", "/sbin/sshd", false)];
    let text = snapshot_csv_string(&snap);
    let mut reader = csv::Reader::from_reader(text.as_bytes());
    let headers = reader.headers().expect("headers").clone();
    assert_eq!(&headers[2], "Process Name");
    let rows: Vec<csv::StringRecord> = reader.records().map(|r| r.expect("row")).collect();
    assert_eq!(rows.len(), 2);
    assert_eq!(&rows[0][0], "80");
    assert_eq!(&rows[0][2], "has, comma");
    assert_eq!(&rows[1][4], "Using");
}

#[test]
fn events_csv_expands_initial_state_per_record() {
    let events = vec![
        PortEvent::InitialState {
            timestamp: 10,
            ports: vec![rec(80, 100, "web", "/bin/web", true), rec(22, 7, "sshd", "/sbin/sshd", true)],
        },
        PortEvent::PortOpened { timestamp: 11, port: rec(443, 200, "tls", "/bin/tls", true) },
        PortEvent::PortClosed { timestamp: 12, port: rec(22, 7, "sshd", "/sbin/sshd", true) },
    ];
    let text = events_csv_string(&events);
    let expected = "timestamp,event,port,pid,process_name,process_path\n\
1970-01-01T00:00:10+00:00,initial_state,80,100,web,/bin/web\n\
1970-01-01T00:00:10+00:00,initial_state,22,7,sshd,/sbin/sshd\n\
1970-01-01T00:00:11+00:00,port_opened,443,200,tls,/bin/tls\n\
1970-01-01T00:00:12+00:00,port_closed,22,7,sshd,/sbin/sshd\n";
    assert_eq!(text, expected);
}

#[test]
fn events_json_is_valid_json_with_tags() {
    let events = vec![
        PortEvent::InitialState { timestamp: 10, ports: vec![rec(80, 100, "web", "/bin/web", true)] },
        PortEvent::PortOpened { timestamp: 11, port: rec(443, 200, "tls", "/bin/tls", true) },
    ];
    let text = events_json_string(&events);
    let v: serde_json::Value = serde_json::from_str(&text).expect("valid json");
    let arr = v.as_array().expect("array");
    assert_eq!(arr.len(), 2);
    assert_eq!(arr[0]["event"].as_str(), Some("initial_state"));
    assert_eq!(arr[0]["timestamp"].as_str(), Some("1970-01-01T00:00:10+00:00"));
    assert_eq!(arr[0]["ports"].as_array().expect("ports").len(), 1);
    assert_eq!(arr[1]["event"].as_str(), Some("port_opened"));
    assert_eq!(arr[1]["port"]["port"].as_u64(), Some(443));
}

#[test]
fn events_json_empty_log_is_brackets() {
    assert_eq!(events_json_string(&vec![]), "[]");
    assert_eq!(events_yaml_string(&vec![]), "[]\n");
}

#[test]
fn events_yaml_is_valid_yaml_with_nested_records() {
    let events = vec![
        PortEvent::InitialState { timestamp: 10, ports: vec![rec(80, 100, "web", "/bin/web", true)] },
        PortEvent::PortClosed { timestamp: 12, port: rec(22, 7, "sshd", "/sbin/sshd", false) },
    ];
    let text = events_yaml_string(&events);
    let v: serde_yaml::Value = serde_yaml::from_str(&text).expect("valid yaml");
    let arr = v.as_sequence().expect("sequence");
    assert_eq!(arr.len(), 2);
    assert_eq!(arr[0]["event"].as_str(), Some("initial_state"));
    assert_eq!(arr[0]["timestamp"].as_str(), Some("1970-01-01T00:00:10+00:00"));
    assert_eq!(arr[0]["ports"].as_sequence().expect("nested").len(), 1);
    assert_eq!(arr[0]["ports"][0]["port"].as_u64(), Some(80));
    assert_eq!(arr[1]["event"].as_str(), Some("port_closed"));
    assert_eq!(arr[1]["port"]["pid"].as_u64(), Some(7));
}

#[test]
fn snapshot_export_dispatches_on_format() {
    let snap = vec![rec(80, 100, "web", "/bin/web", true)];
    let (_, json_body) = export_snapshot(&snap, ExportFormat::Json, 0);
    assert!(json_body.starts_with("[\n"));
    let (_, csv_body) = export_snapshot(&snap, ExportFormat::Csv, 0);
    assert!(csv_body.starts_with("Port,PID"));
    let (_, yaml_body) = export_snapshot(&snap, ExportFormat::Yaml, 0);
    assert!(yaml_body.starts_with("- id: "));
}
