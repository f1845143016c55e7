use port_kill::scan::{
    extract_pids_from_lsof_output, extract_pids_from_netstat_output, netstat_candidate_pids,
    parse_lsof_output_filtered, parse_netstat_output, parse_tasklist_name, plan_scan, PidName,
    ScanPlan, LARGE_RANGE_THRESHOLD, MAX_PORTS_PER_QUERY,
};
use port_kill::text::{parse_i32, parse_u16, split_fields, split_lines};
use port_kill::types::Snapshot;

#[test]
fn test_plan_scan_empty() {
    assert!(matches!(plan_scan(&vec![]), ScanPlan::NoScan));
}

#[test]
fn test_plan_scan_large() {
    let ports: Vec<u16> = (1000..1000 + 1 + LARGE_RANGE_THRESHOLD as u16).collect();
    assert!(matches!(plan_scan(&ports), ScanPlan::QueryAll));
}

#[test]
fn test_plan_scan_chunked() {
    let ports: Vec<u16> = (1000..1150).collect();
    match plan_scan(&ports) {
        ScanPlan::Chunked(chunks) => {
            assert_eq!(chunks.len(), 2);
            assert_eq!(chunks[0].len(), MAX_PORTS_PER_QUERY);
            assert_eq!(chunks[1].len(), 50);
            assert_eq!(chunks[0][0], 1000);
            assert_eq!(chunks[1][49], 1149);
        }
        other => panic!("expected a chunked plan, got {:?}", other),
    }
}

const LSOF_SAMPLE: &str = "COMMAND PID USER FD TYPE DEVICE SIZE/OFF NODE NAME\n\
node 111 me 23u IPv4 0x1 0t0 TCP *:3000 (LISTEN)\n\
x 222 me 24u IPv4 0x2 0t0 TCP 127.0.0.1:9999 (LISTEN)\n";

#[test]
fn test_requested_ports_only() {
    // requested {3000, 8080}; the enumeration reports pid 111 on port 3000
    // named node and pid 222 on port 9999 named x; the snapshot holds 3000
    // only, because 9999 was not requested
    let mut snap = Snapshot::new();
    parse_lsof_output_filtered(
        LSOF_SAMPLE,
        &vec![3000, 8080],
        &vec![],
        &vec![],
        &mut snap,
    );
    assert_eq!(snap.len(), 1);
    let rec = snap.get(3000).unwrap();
    assert_eq!(rec.pid, 111);
    assert_eq!(rec.name, "node");
    assert!(snap.get(9999).is_none());
}

#[test]
fn test_empty_request_admits_all() {
    let mut snap = Snapshot::new();
    parse_lsof_output_filtered(LSOF_SAMPLE, &vec![], &vec![], &vec![], &mut snap);
    assert_eq!(snap.len(), 2);
    assert!(snap.contains_port(3000));
    assert!(snap.contains_port(9999));
}

#[test]
fn test_malformed_lines_skipped() {
    let out = "HEADER\n\
too few fields\n\
node notanumber me 23u IPv4 0x1 0t0 TCP *:3000 (LISTEN)\n\
node 111 me 23u IPv4 0x1 0t0 TCP *:notaport (LISTEN)\n\
node 112 me 23u IPv4 0x1 0t0 TCP *:3000 (LISTEN)\n";
    let mut snap = Snapshot::new();
    parse_lsof_output_filtered(out, &vec![], &vec![], &vec![], &mut snap);
    assert_eq!(snap.len(), 1);
    assert_eq!(snap.get(3000).unwrap().pid, 112);
}

#[test]
fn test_first_record_per_port_wins() {
    let out = "HEADER\n\
node 111 me 23u IPv4 0x1 0t0 TCP *:3000 (LISTEN)\n\
other 222 me 24u IPv4 0x2 0t0 TCP *:3000 (LISTEN)\n";
    let mut snap = Snapshot::new();
    parse_lsof_output_filtered(out, &vec![], &vec![], &vec![], &mut snap);
    assert_eq!(snap.len(), 1);
    assert_eq!(snap.get(3000).unwrap().pid, 111);
}

#[test]
fn test_ignore_lists_respected() {
    let mut snap = Snapshot::new();
    parse_lsof_output_filtered(
        LSOF_SAMPLE,
        &vec![],
        &vec![9999],
        &vec!["node".to_string()],
        &mut snap,
    );
    assert_eq!(snap.len(), 0);
}

#[test]
fn test_scanned_group_derived() {
    let mut snap = Snapshot::new();
    parse_lsof_output_filtered(LSOF_SAMPLE, &vec![3000], &vec![], &vec![], &mut snap);
    let rec = snap.get(3000).unwrap();
    assert_eq!(rec.process_group, Some("Node.js".to_string()));
    assert_eq!(rec.command, "node");
    assert!(rec.project_name.is_none());
}

const NETSTAT_SAMPLE: &str = "Active Connections\n\
  Proto  Local Address          Foreign Address        State           PID\n\
  TCP    0.0.0.0:3000           0.0.0.0:0              LISTENING       111\n\
  TCP    0.0.0.0:9999           0.0.0.0:0              LISTENING       222\n\
  TCP    0.0.0.0:4000           0.0.0.0:0              TIME_WAIT       333\n";

#[test]
fn test_netstat_parse() {
    let names = vec![
        PidName { pid: 111, name: "node.exe".to_string() },
        PidName { pid: 222, name: "x.exe".to_string() },
    ];
    let mut snap = Snapshot::new();
    parse_netstat_output(NETSTAT_SAMPLE, &vec![3000, 8080], &vec![], &vec![], &names, &mut snap);
    assert_eq!(snap.len(), 1);
    let rec = snap.get(3000).unwrap();
    assert_eq!(rec.pid, 111);
    assert_eq!(rec.name, "node.exe");
}

#[test]
fn test_netstat_unknown_name() {
    let mut snap = Snapshot::new();
    parse_netstat_output(NETSTAT_SAMPLE, &vec![9999], &vec![], &vec![], &vec![], &mut snap);
    assert_eq!(snap.get(9999).unwrap().name, "Unknown");
}

#[test]
fn test_netstat_candidates() {
    assert_eq!(netstat_candidate_pids(NETSTAT_SAMPLE), vec![111, 222]);
}

#[test]
fn test_extract_pids() {
    let out = "HEADER\n\
node 111 me 23u IPv4 0x1 0t0 TCP *:3000 (LISTEN)\n\
node 111 me 24u IPv4 0x1 0t0 TCP *:3001 (LISTEN)\n\
x 222 me 25u IPv4 0x2 0t0 TCP *:9999 (LISTEN)\n";
    let mut pids = Vec::new();
    extract_pids_from_lsof_output(out, &vec![], &vec![], &vec![], &mut pids);
    // pid 111 listens twice but is listed once
    assert_eq!(pids, vec![111, 222]);

    let mut pids = Vec::new();
    extract_pids_from_netstat_output(NETSTAT_SAMPLE, &vec![], &vec![], &vec![], &vec![], &mut pids);
    assert_eq!(pids, vec![111, 222]);
}

#[test]
fn test_tasklist_name() {
    assert_eq!(
        parse_tasklist_name("\"node.exe\",\"111\",\"Console\"\n"),
        Some("node.exe".to_string())
    );
    assert_eq!(parse_tasklist_name(""), None);
}

#[test]
fn test_integer_parsing() {
    assert_eq!(parse_u16("3000"), Some(3000));
    assert_eq!(parse_u16("+3000"), Some(3000));
    assert_eq!(parse_u16("65535"), Some(65535));
    assert_eq!(parse_u16("65536"), None);
    assert_eq!(parse_u16(""), None);
    assert_eq!(parse_u16("12a"), None);
    assert_eq!(parse_u16("-1"), None);
    assert_eq!(parse_i32("111"), Some(111));
    assert_eq!(parse_i32("-42"), Some(-42));
    assert_eq!(parse_i32("2147483647"), Some(2147483647));
    assert_eq!(parse_i32("2147483648"), None);
    assert_eq!(parse_i32("-2147483648"), Some(-2147483648));
}

#[test]
fn test_text_splitting() {
    assert_eq!(split_fields("  a\tbb  ccc "), vec!["a", "bb", "ccc"]);
    assert_eq!(split_fields(""), Vec::<String>::new());
    assert_eq!(split_lines("a\r\nb\nc"), vec!["a", "b", "c"]);
    assert_eq!(split_lines("a\n"), vec!["a"]);
}
