use port_kill::smart_filter::{glob_matches, SmartFilter};
use port_kill::types::{ProcessInfo, Snapshot};

fn record(pid: i32, port: u16, name: &str) -> ProcessInfo {
    ProcessInfo {
        pid,
        port,
        command: name.to_string(),
        name: name.to_string(),
        container_id: None,
        container_name: None,
        command_line: None,
        working_directory: None,
        process_group: None,
        project_name: None,
        cpu_usage: None,
        memory_usage: None,
        memory_percentage: None,
    }
}

#[test]
fn test_pattern_matching() {
    let filter = SmartFilter::new(
        Vec::new(),
        Vec::new(),
        Some(vec!["node*".to_string(), "python*".to_string()]),
        Vec::new(),
        None,
    )
    .unwrap();

    let mut processes = Snapshot::from_records(vec![
        record(1234, 3000, "node"),
        record(5678, 8000, "python"),
        record(9012, 9000, "rust"),
    ]);

    filter.filter_processes(&mut processes);

    // Only rust should remain (node and python should be filtered out)
    assert_eq!(processes.len(), 1);
    assert!(processes.contains_port(9000));
}

#[test]
fn test_only_groups_filter() {
    let filter = SmartFilter::new(
        Vec::new(),
        Vec::new(),
        None,
        Vec::new(),
        Some(vec!["Node.js".to_string()]),
    )
    .unwrap();

    let mut node = record(1234, 3000, "node");
    node.process_group = Some("Node.js".to_string());
    let mut python = record(5678, 8000, "python");
    python.process_group = Some("Python".to_string());

    let mut processes = Snapshot::from_records(vec![node, python]);

    filter.filter_processes(&mut processes);

    // Only Node.js should remain
    assert_eq!(processes.len(), 1);
    assert!(processes.contains_port(3000));
}

#[test]
fn test_glob_semantics() {
    // anchored whole-name match: * is any run, ? any single character
    assert!(glob_matches("node*", "nodemon"));
    assert!(glob_matches("node*", "node"));
    assert!(!glob_matches("node*", "go"));
    assert!(!glob_matches("node*", "my-node"));
    assert!(glob_matches("*node*", "my-node-server"));
    assert!(glob_matches("n?de", "node"));
    assert!(!glob_matches("n?de", "nde"));
    assert!(glob_matches("*", ""));
    assert!(!glob_matches("", "x"));
}

#[test]
fn test_ignore_pattern_on_name() {
    // ignore pattern "node*": "nodemon" is ignored, "go" is not
    let filter = SmartFilter::new(
        Vec::new(),
        Vec::new(),
        Some(vec!["node*".to_string()]),
        Vec::new(),
        None,
    )
    .unwrap();
    assert!(filter.should_ignore_process(&record(1, 3000, "nodemon")));
    assert!(!filter.should_ignore_process(&record(2, 3001, "go")));
}

#[test]
fn test_ignore_rule_order_and_kinds() {
    let filter = SmartFilter::new(
        vec![5353],
        vec!["Chrome".to_string()],
        None,
        vec!["Database".to_string()],
        None,
    )
    .unwrap();

    // ignored port
    assert!(filter.should_ignore_process(&record(1, 5353, "anything")));
    // ignored name
    assert!(filter.should_ignore_process(&record(2, 3000, "Chrome")));
    // ignored group
    let mut db = record(3, 5432, "postgres");
    db.process_group = Some("Database".to_string());
    assert!(filter.should_ignore_process(&db));
    // nothing matches: visible
    assert!(!filter.should_ignore_process(&record(4, 3000, "node")));
}

#[test]
fn test_pattern_matches_command_too() {
    let filter = SmartFilter::new(
        Vec::new(),
        Vec::new(),
        Some(vec!["*worker*".to_string()]),
        Vec::new(),
        None,
    )
    .unwrap();
    let mut rec = record(1, 4000, "ruby");
    rec.command = "sidekiq worker".to_string();
    assert!(filter.should_ignore_process(&rec));
}

#[test]
fn test_only_groups_drops_ungrouped() {
    let filter = SmartFilter::new(
        Vec::new(),
        Vec::new(),
        None,
        Vec::new(),
        Some(vec!["Node.js".to_string()]),
    )
    .unwrap();
    // a record with no group is hidden whenever an allow-list is present
    assert!(filter.should_ignore_process(&record(1, 3000, "mystery")));
}

#[test]
fn test_filter_stats() {
    let filter = SmartFilter::new(
        vec![1, 2],
        vec!["a".to_string()],
        Some(vec!["p*".to_string()]),
        Vec::new(),
        Some(vec!["G1".to_string(), "G2".to_string()]),
    )
    .unwrap();
    let stats = filter.get_filter_stats();
    assert_eq!(stats.ignore_ports_count, 2);
    assert_eq!(stats.ignore_processes_count, 1);
    assert_eq!(stats.ignore_patterns_count, 1);
    assert_eq!(stats.ignore_groups_count, 0);
    assert_eq!(stats.only_groups_count, 2);
    assert!(stats.is_active());
    assert_eq!(
        stats.get_description(),
        "filtering: 2 ports, 1 processes, 1 patterns, 2 only-groups"
    );

    let empty = SmartFilter::new(Vec::new(), Vec::new(), None, Vec::new(), None).unwrap();
    let empty_stats = empty.get_filter_stats();
    assert!(!empty_stats.is_active());
    assert_eq!(empty_stats.get_description(), "no filters");
}
