//! Snapshot rendering and parsing on concrete values: the JSON and YAML
//! round trips, including escaping, and cross-checks of the rendered text
//! against independent parsers.

use portwatch::json::{json_snapshot_string, parse_json_snapshot};
use portwatch::yaml::{parse_yaml_snapshot, yaml_snapshot_string};
use portwatch::{PortInfo, ProcessPortState};

fn rec(port: u16, pid: u32, name: &str, path: &str, hosting: bool) -> PortInfo {
    PortInfo {
        id: format!("id-{}", pid),
        port,
        pid,
        process_name: name.to_string(),
        process_path: path.to_string(),
        port_state: if hosting { ProcessPortState::Hosting } else { ProcessPortState::Using },
    }
}

#[test]
fn json_round_trip_plain_records() {
    let snap = vec![rec(80, 100, "nginx", "/usr/bin/nginx", true), rec(53, 5, "dns", "/bin/dns", false)];
    let text = json_snapshot_string(&snap);
    let back = parse_json_snapshot(&text).expect("parses");
    assert_eq!(back, snap);
}

#[test]
fn json_round_trip_escaped_characters() {
    let snap = vec![rec(1, 2, "we\"ird\\name", "/tmp/line\nbreak\ttab", false)];
    let text = json_snapshot_string(&snap);
    let back = parse_json_snapshot(&text).expect("parses");
    assert_eq!(back, snap);
}

#[test]
fn json_empty_snapshot_is_brackets() {
    let text = json_snapshot_string(&vec![]);
    assert_eq!(text, "[]");
    assert_eq!(parse_json_snapshot("[]"), Some(vec![]));
}

#[test]
fn json_rejects_garbage() {
    assert_eq!(parse_json_snapshot("not json"), None);
    assert_eq!(parse_json_snapshot("[\n  {\n"), None);
}

#[test]
fn json_output_is_valid_json() {
    let snap = vec![rec(8080, 4242, "svc one", "/opt/svc \"quoted\"", true)];
    let text = json_snapshot_string(&snap);
    let v: serde_json::Value = serde_json::from_str(&text).expect("independent parser accepts");
    let arr = v.as_array().expect("array");
    assert_eq!(arr.len(), 1);
    assert_eq!(arr[0]["port"], serde_json::Value::from(8080u16));
    assert_eq!(arr[0]["pid"], serde_json::Value::from(4242u32));
    assert_eq!(arr[0]["process_name"].as_str(), Some("svc one"));
    assert_eq!(arr[0]["process_path"].as_str(), Some("/opt/svc \"quoted\""));
    assert_eq!(arr[0]["port_state"].as_str(), Some("Hosting"));
}

#[test]
fn yaml_round_trip_plain_records() {
    let snap = vec![rec(443, 7, "tls", "/sbin/tls", true), rec(68, 9, "dhcp", "/sbin/dhcp", false)];
    let text = yaml_snapshot_string(&snap);
    let back = parse_yaml_snapshot(&text).expect("parses");
    assert_eq!(back, snap);
}

#[test]
fn yaml_round_trip_escaped_characters() {
    let snap = vec![rec(9, 9, "a\\b\"c", "x\r\ny", true)];
    let text = yaml_snapshot_string(&snap);
    let back = parse_yaml_snapshot(&text).expect("parses");
    assert_eq!(back, snap);
}

#[test]
fn yaml_empty_snapshot_is_flow_brackets() {
    assert_eq!(yaml_snapshot_string(&vec![]), "[]\n");
    assert_eq!(parse_yaml_snapshot("[]\n"), Some(vec![]));
}

#[test]
fn yaml_output_is_valid_yaml() {
    let snap = vec![rec(22, 1, "sshd", "/usr/sbin/sshd", true)];
    let text = yaml_snapshot_string(&snap);
    let v: serde_yaml::Value = serde_yaml::from_str(&text).expect("independent parser accepts");
    let arr = v.as_sequence().expect("sequence");
    assert_eq!(arr.len(), 1);
    assert_eq!(arr[0]["port"].as_u64(), Some(22));
    assert_eq!(arr[0]["process_name"].as_str(), Some("sshd"));
    assert_eq!(arr[0]["port_state"].as_str(), Some("Hosting"));
}

#[test]
fn json_and_yaml_parses_agree() {
    // Exporting the same snapshot both ways and parsing both back yields
    // the same record set, field for field.
    let snap = vec![
        rec(80, 100, "web", "/bin/web", true),
        rec(53, 5, "dns \\ \"q\"", "/bin/d ns", false),
    ];
    let from_json = parse_json_snapshot(&json_snapshot_string(&snap)).expect("json parses");
    let from_yaml = parse_yaml_snapshot(&yaml_snapshot_string(&snap)).expect("yaml parses");
    assert_eq!(from_json, from_yaml);
    assert_eq!(from_json, snap);
}

#[test]
fn number_text_round_trip() {
    let s = portwatch::text::u64_string(1844674407370955161);
    assert_eq!(s, "1844674407370955161");
    assert_eq!(portwatch::text::u64_string(0), "0");
}
