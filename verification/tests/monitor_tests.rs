use port_kill::monitor::{
    menu_label, record_interaction, record_publish, scan_due, should_republish, snapshots_match,
    sorted_by_port, tray_icon_name, tray_title, validate_snapshot, MenuBinding, MonitorState,
    PublishedView, ViewRebuild, INTERACTION_COOLDOWN_MS, PUBLISH_MIN_INTERVAL_MS, SCAN_INTERVAL_MS,
};
use port_kill::types::{ProcessInfo, Snapshot};

fn record(pid: i32, port: u16, name: &str) -> ProcessInfo {
    ProcessInfo {
        pid,
        port,
        command: name.to_string(),
        name: name.to_string(),
        container_id: None,
        container_name: None,
        command_line: None,
        working_directory: None,
        process_group: None,
        project_name: None,
        cpu_usage: None,
        memory_usage: None,
        memory_percentage: None,
    }
}

#[test]
fn test_scan_due() {
    assert!(scan_due(SCAN_INTERVAL_MS, 0));
    assert!(!scan_due(SCAN_INTERVAL_MS - 1, 0));
    assert!(scan_due(20000, 10000));
}

#[test]
fn test_debounce_all_conditions() {
    let state = MonitorState {
        last_process_count: 2,
        last_publish_ms: 0,
        last_interaction_ms: 0,
    };
    let now = PUBLISH_MIN_INTERVAL_MS;
    // all four hold: count changed, interval elapsed, no kill in flight,
    // no recent interaction
    assert!(should_republish(&state, now, 3, false));
    // count unchanged
    assert!(!should_republish(&state, now, 2, false));
    // interval not elapsed
    assert!(!should_republish(&state, now - 1, 3, false));
    // kill in flight
    assert!(!should_republish(&state, now, 3, true));
    // recent interaction
    let mut touched = state;
    record_interaction(&mut touched, now - INTERACTION_COOLDOWN_MS + 1);
    assert!(!should_republish(&touched, now, 3, false));
}

#[test]
fn test_publish_recorded() {
    let mut state = MonitorState {
        last_process_count: 0,
        last_publish_ms: 0,
        last_interaction_ms: 0,
    };
    record_publish(&mut state, 12_000, 4);
    assert_eq!(state.last_process_count, 4);
    assert_eq!(state.last_publish_ms, 12_000);
    assert!(!should_republish(&state, 12_500, 4, false));
}

#[test]
fn test_validation_drops_dead_pids() {
    // validated/published count never exceeds the raw scanned count
    let snap = Snapshot::from_records(vec![
        record(1, 3000, "node"),
        record(2, 8000, "python"),
        record(3, 9000, "rust"),
    ]);
    let validated = validate_snapshot(&snap, &vec![1, 3]);
    assert_eq!(snap.len(), 3);
    assert_eq!(validated.len(), 2);
    assert!(validated.len() <= snap.len());
    assert!(validated.contains_port(3000));
    assert!(!validated.contains_port(8000));
    assert!(validated.contains_port(9000));
}

#[test]
fn test_validation_keeps_all_alive() {
    let snap = Snapshot::from_records(vec![record(1, 3000, "node")]);
    let validated = validate_snapshot(&snap, &vec![1]);
    assert_eq!(validated.len(), 1);
}

#[test]
fn test_snapshots_match_by_count_and_pid() {
    let a = Snapshot::from_records(vec![record(1, 3000, "node"), record(2, 8000, "python")]);
    let b = Snapshot::from_records(vec![record(1, 3000, "renamed"), record(2, 8000, "python")]);
    // names differ, but count and pid identity agree
    assert!(snapshots_match(&a, &b));
    let c = Snapshot::from_records(vec![record(9, 3000, "node"), record(2, 8000, "python")]);
    assert!(!snapshots_match(&a, &c));
    let d = Snapshot::from_records(vec![record(1, 3000, "node")]);
    assert!(!snapshots_match(&a, &d));
}

#[test]
fn test_view_rebuild_ordering() {
    // detach fully, settle, and only then attach - never swap in place
    let mut rebuild = ViewRebuild::new();
    rebuild.detach_old();
    rebuild.settle();
    rebuild.attach_new();
    // the cycle can run again
    rebuild.detach_old();
    rebuild.settle();
    rebuild.attach_new();
}

#[test]
fn test_tray_icon_names() {
    assert_eq!(tray_icon_name(0), "port-kill-green");
    assert_eq!(tray_icon_name(1), "port-kill-orange");
    assert_eq!(tray_icon_name(9), "port-kill-orange");
    assert_eq!(tray_icon_name(10), "port-kill-red");
    assert_eq!(tray_title(0), "Port Kill - No processes detected");
    assert_eq!(tray_title(1), "Port Kill - 1 process running");
    assert_eq!(tray_title(12), "Port Kill - 12 processes running");
}

#[test]
fn test_published_view_swaps_as_a_unit() {
    let mut view = PublishedView::new();
    assert_eq!(view.snapshot().len(), 0);
    assert_eq!(view.port_for_menu_id("7"), None);
    let snap = Snapshot::from_records(vec![record(1, 3000, "node")]);
    let bindings = vec![
        MenuBinding { menu_id: "7".to_string(), port: 3000 },
        MenuBinding { menu_id: "8".to_string(), port: 8000 },
    ];
    view.replace(snap, bindings);
    assert_eq!(view.snapshot().len(), 1);
    assert_eq!(view.port_for_menu_id("7"), Some(3000));
    assert_eq!(view.port_for_menu_id("8"), Some(8000));
    assert_eq!(view.port_for_menu_id("9"), None);
}

#[test]
fn test_sorted_by_port_for_menu() {
    let snap = Snapshot::from_records(vec![
        record(3, 9000, "c"),
        record(1, 3000, "a"),
        record(2, 8000, "b"),
    ]);
    let sorted = sorted_by_port(&snap);
    let ports: Vec<u16> = sorted.iter().map(|r| r.port).collect();
    assert_eq!(ports, vec![3000, 8000, 9000]);
}

#[test]
fn test_menu_labels() {
    let mut rec = record(42, 3000, "node");
    assert_eq!(menu_label(&rec, false, false), "Port 3000: node");
    assert_eq!(menu_label(&rec, true, false), "Port 3000: node (PID 42)");
    rec.command_line = Some("node server.js".to_string());
    rec.working_directory = Some("/srv/shop".to_string());
    assert_eq!(
        menu_label(&rec, true, true),
        "Port 3000: node (node server.js) (PID 42) - /srv/shop"
    );
}
