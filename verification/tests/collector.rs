//! The collectors on concrete inputs: parsing a listing's text, state
//! classification, deduplication, sentinel paths, the owner lookup, kill
//! outcome messages, the monitoring settings, and the binary socket
//! tables.

use portwatch::commands::{
    build_port_infos, fetch_ports, get_processes_using_port, kill_process, owner_response,
    path_or_sentinel, KillOutcome, MonitorState, PathLookup, PortOwner,
};
use portwatch::lsof::parse_lsof_output;
use portwatch::model::{ProcessInfo, ProcessPortState};
use portwatch::nettable::{parse_tcp_ipv4, parse_udp_ipv4};

const LISTING: &str = "COMMAND   PID USER   FD   TYPE DEVICE SIZE/OFF NODE NAME\n\
nginx     100 root    6u  IPv4  12345      0t0  TCP *:80 (LISTEN)\n\
nginx     100 root    7u  IPv4  12346      0t0  TCP *:80 (LISTEN)\n\
curl      200 alice   3u  IPv4  22222      0t0  TCP 10.0.0.5:51000->93.0.0.1:443 (ESTABLISHED)\n\
short line\n\
strange  notanumber x  IPv4 1 0 TCP *:9 (LISTEN)\n";

#[test]
fn parse_listing_skips_header_and_malformed_lines() {
    let rows = parse_lsof_output(LISTING);
    assert_eq!(rows.len(), 2);
    assert_eq!(rows[0].process_name, "nginx");
    assert_eq!(rows[0].pid, 100);
    assert_eq!(rows[0].port, 80);
    assert_eq!(rows[1].process_name, "curl");
    assert_eq!(rows[1].pid, 200);
    assert_eq!(rows[1].port, 443);
}

#[test]
fn duplicate_pid_port_rows_collapse_to_one() {
    // Two raw rows with the identical (pid, port) key yield exactly one row.
    let rows = parse_lsof_output(LISTING);
    let nginx: Vec<_> = rows.iter().filter(|r| r.pid == 100 && r.port == 80).collect();
    assert_eq!(nginx.len(), 1);
}

#[test]
fn listen_rows_host_and_other_rows_use() {
    let rows = parse_lsof_output(LISTING);
    assert_eq!(rows[0].state, ProcessPortState::Hosting);
    assert_eq!(rows[1].state, ProcessPortState::Using);
}

#[test]
fn fetch_ports_propagates_command_failure() {
    let r = fetch_ports("", false, "boom");
    match r {
        Err(e) => assert_eq!(e, "lsof command failed: boom"),
        Ok(_) => panic!("expected an error"),
    }
    assert!(fetch_ports(LISTING, true, "").is_ok());
}

#[test]
fn permission_denied_becomes_sentinel_and_keeps_the_record() {
    let rows = parse_lsof_output(LISTING);
    let n = rows.len();
    let paths: Vec<String> = vec![
        path_or_sentinel(PathLookup::PermissionDenied),
        path_or_sentinel(PathLookup::Found("/usr/bin/curl".to_string())),
    ];
    let infos = build_port_infos(rows, paths);
    assert_eq!(infos.len(), n);
    assert_eq!(infos[0].process_path, "Permission Denied");
    assert_eq!(infos[0].pid, 100);
    assert_eq!(infos[1].process_path, "/usr/bin/curl");
}

#[test]
fn sentinel_strings_are_exact() {
    assert_eq!(path_or_sentinel(PathLookup::NotFound), "Process not found");
    assert_eq!(path_or_sentinel(PathLookup::Unknown), "Unknown");
}

#[test]
fn record_ids_depend_on_their_fields() {
    let a = portwatch::ident::make_record_id(100, 80, &"nginx".chars().collect::<Vec<char>>());
    let b = portwatch::ident::make_record_id(100, 80, &"nginx".chars().collect::<Vec<char>>());
    let c = portwatch::ident::make_record_id(100, 80, &"apache".chars().collect::<Vec<char>>());
    assert_eq!(a, b);
    assert_ne!(a, c);
}

#[test]
fn owner_lookup_distinguishes_self_from_others() {
    let out = "COMMAND PID USER FD TYPE DEVICE SIZE NODE NAME STATE\n\
nginx 100 root 6u IPv4 1 0 TCP *:80 (LISTEN)\n";
    assert_eq!(get_processes_using_port(out, 80, 100), Ok(PortOwner::SelfListener));
    assert_eq!(get_processes_using_port(out, 80, 999), Ok(PortOwner::OtherProcess { pid: 100 }));
    match get_processes_using_port(out, 81, 100) {
        Err(e) => assert_eq!(e, "No processes found listening on port 81"),
        Ok(_) => panic!("expected an error"),
    }
}

#[test]
fn owner_response_shapes_the_reply() {
    let r = owner_response(PortOwner::SelfListener, None).expect("hosting reply");
    assert_eq!(r.port_state, ProcessPortState::Hosting);
    assert!(r.data.is_none());
    let info = ProcessInfo {
        pid: 100,
        port: 80,
        process_name: "nginx".to_string(),
        process_path: "/usr/bin/nginx".to_string(),
    };
    let r2 = owner_response(PortOwner::OtherProcess { pid: 100 }, Some(info.clone()))
        .expect("using reply");
    assert_eq!(r2.port_state, ProcessPortState::Using);
    assert_eq!(r2.data, Some(info));
    assert!(owner_response(PortOwner::OtherProcess { pid: 100 }, None).is_none());
}

#[test]
fn kill_messages_are_exact() {
    let ok = kill_process(
        42,
        KillOutcome::Completed { success: true, exit_code: 0, stderr_trimmed: String::new() },
    );
    assert!(ok.success);
    assert_eq!(ok.message, "Successfully killed process with PID 42");
    let denied = kill_process(
        42,
        KillOutcome::Completed {
            success: false,
            exit_code: 1,
            stderr_trimmed: "not permitted".to_string(),
        },
    );
    assert!(!denied.success);
    assert_eq!(denied.message, "Failed to kill process 42 (Exit code: 1): not permitted");
    let broken = kill_process(7, KillOutcome::LaunchFailed { error: "no such file".to_string() });
    assert!(!broken.success);
    assert_eq!(broken.message, "Failed to execute kill command: no such file");
}

#[test]
fn monitor_state_guards_its_transitions() {
    let mut m = MonitorState::default();
    assert!(!m.is_monitoring);
    assert_eq!(m.start_monitoring(), Ok(()));
    assert!(m.is_monitoring);
    assert_eq!(m.start_monitoring(), Err("Monitoring is already running".to_string()));
    assert_eq!(m.stop_monitoring(), Ok(()));
    assert_eq!(m.stop_monitoring(), Err("Monitoring is not running".to_string()));
    assert_eq!(m.update_interval(60), Ok(()));
    assert_eq!(m.interval_secs, 60);
    assert_eq!(
        m.update_interval(0),
        Err("Interval must be between 1 and 60 seconds".to_string())
    );
    assert_eq!(
        m.update_interval(61),
        Err("Interval must be between 1 and 60 seconds".to_string())
    );
    assert_eq!(m.interval_secs, 60);
}

fn push_le32(buf: &mut Vec<u8>, v: u32) {
    buf.extend_from_slice(&v.to_le_bytes());
}

#[test]
fn tcp_table_decodes_rows_and_swaps_ports() {
    // Two rows: one LISTEN (state 2) on port 8080, one ESTABLISHED (state 5).
    let mut buf: Vec<u8> = Vec::new();
    push_le32(&mut buf, 2); // dwNumEntries
    // row 1: state, local addr, local port (network order in low word), remote addr, remote port, pid
    push_le32(&mut buf, 2);
    push_le32(&mut buf, 0);
    push_le32(&mut buf, 8080u16.to_be() as u32);
    push_le32(&mut buf, 0);
    push_le32(&mut buf, 0);
    push_le32(&mut buf, 100);
    // row 2
    push_le32(&mut buf, 5);
    push_le32(&mut buf, 0);
    push_le32(&mut buf, 443u16.to_be() as u32);
    push_le32(&mut buf, 0);
    push_le32(&mut buf, 0);
    push_le32(&mut buf, 200);
    let rows = parse_tcp_ipv4(&buf).expect("decodes");
    assert_eq!(rows.len(), 2);
    assert_eq!(rows[0].port, 8080);
    assert_eq!(rows[0].pid, 100);
    assert_eq!(rows[0].state, ProcessPortState::Hosting);
    assert_eq!(rows[1].port, 443);
    assert_eq!(rows[1].pid, 200);
    assert_eq!(rows[1].state, ProcessPortState::Using);
}

#[test]
fn udp_rows_always_use_and_dedup_applies() {
    let mut buf: Vec<u8> = Vec::new();
    push_le32(&mut buf, 2);
    // two rows with the same (pid, port): addr, port, pid
    push_le32(&mut buf, 0);
    push_le32(&mut buf, 53u16.to_be() as u32);
    push_le32(&mut buf, 5);
    push_le32(&mut buf, 1);
    push_le32(&mut buf, 53u16.to_be() as u32);
    push_le32(&mut buf, 5);
    let rows = parse_udp_ipv4(&buf).expect("decodes");
    assert_eq!(rows.len(), 1);
    assert_eq!(rows[0].state, ProcessPortState::Using);
    assert_eq!(rows[0].port, 53);
}

#[test]
fn truncated_table_is_refused() {
    let mut buf: Vec<u8> = Vec::new();
    push_le32(&mut buf, 3); // claims three rows
    push_le32(&mut buf, 2); // but holds only a fragment of one
    assert!(parse_tcp_ipv4(&buf).is_none());
    assert!(parse_udp_ipv4(&vec![1, 0]).is_none());
}

#[test]
fn out_of_range_or_missing_ports_read_as_zero() {
    let text = "HEADER\n\
big 10 u 1u IPv4 1 0 TCP *:99999 (LISTEN)\n\
bare 11 u 1u IPv4 1 0 TCP 8080 (LISTEN)\n\
none 12 u 1u IPv4 1 0 TCP *:- (LISTEN)\n";
    let rows = parse_lsof_output(text);
    assert_eq!(rows.len(), 3);
    assert_eq!(rows[0].port, 0); // 99999 does not fit a port number
    assert_eq!(rows[1].port, 8080); // no colon: the whole column is the port
    assert_eq!(rows[2].port, 0); // not a numeral
}

#[test]
fn pid_bounds_are_respected() {
    let text = "HEADER\n\
ok 4294967295 u 1u IPv4 1 0 TCP *:1 (LISTEN)\n\
big 4294967296 u 1u IPv4 1 0 TCP *:2 (LISTEN)\n";
    let rows = parse_lsof_output(text);
    assert_eq!(rows.len(), 1);
    assert_eq!(rows[0].pid, u32::MAX);
}

#[test]
fn listener_claims_lists_every_claimant_in_order() {
    let out = "COMMAND PID USER FD TYPE DEVICE SIZE NODE NAME STATE\n\
nginx 100 root 6u IPv4 1 0 TCP *:80 (LISTEN)\n\
other 300 root 6u IPv4 1 0 TCP *:81 (LISTEN)\n\
also 200 root 7u IPv4 2 0 TCP *:80 (LISTEN)\n\
idle 400 root 8u IPv4 3 0 TCP *:80 (ESTABLISHED)\n";
    assert_eq!(portwatch::commands::listener_claims(out, 80), vec![100, 200]);
    assert_eq!(portwatch::commands::listener_claims(out, 81), vec![300]);
    assert_eq!(portwatch::commands::listener_claims(out, 82), Vec::<u32>::new());
}

#[test]
fn combine_tables_concatenates_in_protocol_order() {
    let mut tcp4: Vec<u8> = Vec::new();
    push_le32(&mut tcp4, 1);
    push_le32(&mut tcp4, 2); // state LISTEN
    push_le32(&mut tcp4, 0);
    push_le32(&mut tcp4, 80u16.to_be() as u32);
    push_le32(&mut tcp4, 0);
    push_le32(&mut tcp4, 0);
    push_le32(&mut tcp4, 1);
    let mut empty_tcp6: Vec<u8> = Vec::new();
    push_le32(&mut empty_tcp6, 0);
    let mut udp4: Vec<u8> = Vec::new();
    push_le32(&mut udp4, 1);
    push_le32(&mut udp4, 0);
    push_le32(&mut udp4, 53u16.to_be() as u32);
    push_le32(&mut udp4, 5);
    let mut empty_udp6: Vec<u8> = Vec::new();
    push_le32(&mut empty_udp6, 0);
    let all = portwatch::nettable::combine_port_tables(&tcp4, &empty_tcp6, &udp4, &empty_udp6)
        .expect("combines");
    assert_eq!(all.len(), 2);
    assert_eq!(all[0].port, 80);
    assert_eq!(all[0].state, ProcessPortState::Hosting);
    assert_eq!(all[1].port, 53);
    assert_eq!(all[1].state, ProcessPortState::Using);
}

#[test]
fn combine_tables_fails_on_the_first_bad_table() {
    let mut good: Vec<u8> = Vec::new();
    push_le32(&mut good, 0);
    let bad: Vec<u8> = vec![9]; // cannot even hold the count
    match portwatch::nettable::combine_port_tables(&good, &bad, &good, &good) {
        Err(e) => assert_eq!(e, "Failed to fetch table for protocol: TcpIpv6"),
        Ok(_) => panic!("expected an error"),
    }
    match portwatch::nettable::combine_port_tables(&good, &good, &good, &bad) {
        Err(e) => assert_eq!(e, "Failed to fetch table for protocol: UdpIpv6"),
        Ok(_) => panic!("expected an error"),
    }
}

#[test]
fn unresolved_table_owners_become_unknown_and_keep_the_entry() {
    let entries = vec![
        portwatch::nettable::NetEntry { pid: 1, port: 80, state: ProcessPortState::Hosting },
        portwatch::nettable::NetEntry { pid: 2, port: 53, state: ProcessPortState::Using },
    ];
    let names = vec![
        portwatch::commands::name_or_unknown(
            Some(("svc.exe".to_string(), "C:/svc.exe".to_string())),
        ),
        portwatch::commands::name_or_unknown(None),
    ];
    let infos = portwatch::commands::build_net_infos(entries, names);
    assert_eq!(infos.len(), 2);
    assert_eq!(infos[0].process_name, "svc.exe");
    assert_eq!(infos[1].process_name, "Unknown");
    assert_eq!(infos[1].process_path, "Unknown");
    assert_eq!(infos[1].pid, 2);
}
