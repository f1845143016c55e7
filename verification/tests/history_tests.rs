use port_kill::history::{ProcessHistory, ProcessHistoryEntry, Weekday};
use port_kill::types::ProcessInfo;

fn record(pid: i32, port: u16, name: &str) -> ProcessInfo {
    ProcessInfo {
        pid,
        port,
        command: name.to_string(),
        name: name.to_string(),
        container_id: None,
        container_name: None,
        command_line: None,
        working_directory: None,
        process_group: None,
        project_name: None,
        cpu_usage: None,
        memory_usage: None,
        memory_percentage: None,
    }
}

fn entry(pid: i32, port: u16, name: &str, at: u64) -> ProcessHistoryEntry {
    ProcessHistoryEntry::new(&record(pid, port, name), "user".to_string(), at)
}

#[test]
fn test_entry_from_record() {
    let mut rec = record(7, 3000, "node");
    rec.process_group = Some("Node.js".to_string());
    let e = ProcessHistoryEntry::new(&rec, "bulk".to_string(), 1000);
    assert_eq!(e.pid, 7);
    assert_eq!(e.port, 3000);
    assert_eq!(e.process_name, "node");
    assert_eq!(e.process_group, Some("Node.js".to_string()));
    assert_eq!(e.killed_at, 1000);
    assert_eq!(e.killed_by, "bulk");
}

#[test]
fn test_entry_display_name() {
    let mut e = entry(1, 3000, "node", 0);
    assert_eq!(e.get_display_name(), "node");
    e.project_name = Some("shop".to_string());
    assert_eq!(e.get_display_name(), "node (shop)");
    e.process_group = Some("Node.js".to_string());
    assert_eq!(e.get_display_name(), "Node.js (shop)");
    e.project_name = None;
    assert_eq!(e.get_display_name(), "Node.js");
}

#[test]
fn test_bounded_history() {
    let mut history = ProcessHistory::new(2);
    assert!(history.is_empty());
    history.add_entry(entry(1, 3000, "a", 10));
    history.add_entry(entry(2, 3001, "b", 20));
    history.add_entry(entry(3, 3002, "c", 30));
    // only the most recent entries are kept
    assert_eq!(history.len(), 2);
    assert_eq!(history.entries()[0].pid, 2);
    assert_eq!(history.entries()[1].pid, 3);
    history.clear();
    assert!(history.is_empty());
}

#[test]
fn test_recent_entries() {
    let mut history = ProcessHistory::new(10);
    for i in 0..5 {
        history.add_entry(entry(i, 3000 + i as u16, "p", i as u64));
    }
    let recent = history.get_recent_entries(2);
    assert_eq!(recent.len(), 2);
    assert_eq!(recent[0].pid, 3);
    assert_eq!(recent[1].pid, 4);
    assert_eq!(history.get_recent_entries(99).len(), 5);
}

#[test]
fn test_entries_by_group_and_project() {
    let mut history = ProcessHistory::new(10);
    let mut a = entry(1, 3000, "node", 1);
    a.process_group = Some("Node.js".to_string());
    a.project_name = Some("shop".to_string());
    let mut b = entry(2, 8000, "python", 2);
    b.process_group = Some("Python".to_string());
    let c = entry(3, 9000, "rust", 3);
    history.add_entry(a);
    history.add_entry(b);
    history.add_entry(c);
    let node = history.get_entries_by_group("Node.js");
    assert_eq!(node.len(), 1);
    assert_eq!(node[0].pid, 1);
    assert_eq!(history.get_entries_by_group("Go").len(), 0);
    let shop = history.get_entries_by_project("shop");
    assert_eq!(shop.len(), 1);
    assert_eq!(shop[0].pid, 1);
}

#[test]
fn test_round_trip_through_entries() {
    let mut history = ProcessHistory::new(10);
    history.add_entry(entry(1, 3000, "a", 10));
    history.add_entry(entry(2, 3001, "b", 20));
    let persisted: Vec<ProcessHistoryEntry> = history
        .entries()
        .iter()
        .map(|e| ProcessHistoryEntry {
            pid: e.pid,
            port: e.port,
            process_name: e.process_name.clone(),
            process_group: e.process_group.clone(),
            project_name: e.project_name.clone(),
            killed_at: e.killed_at,
            killed_by: e.killed_by.clone(),
            command_line: e.command_line.clone(),
            working_directory: e.working_directory.clone(),
        })
        .collect();
    let restored = ProcessHistory::from_entries(persisted, 10);
    assert_eq!(restored.len(), 2);
    assert_eq!(restored.entries()[1].killed_at, 20);
}

#[test]
fn test_frequent_offenders() {
    let mut history = ProcessHistory::new(100);
    let mut node = entry(1, 3000, "node", 30);
    node.process_group = Some("Node.js".to_string());
    history.add_entry(node);
    history.add_entry(entry(2, 8000, "python", 15));
    history.add_entry(entry(3, 9000, "rust", 5));
    history.add_entry(entry(4, 3000, "node", 10));
    history.add_entry(entry(5, 9000, "rust", 25));
    history.add_entry(entry(6, 3000, "node", 20));

    let offenders = history.get_frequent_offenders(2);
    assert_eq!(offenders.len(), 2);
    // most frequent first
    assert_eq!(offenders[0].process_name, "node");
    assert_eq!(offenders[0].port, 3000);
    assert_eq!(offenders[0].kill_count, 3);
    assert_eq!(offenders[0].first_killed, 10);
    assert_eq!(offenders[0].last_killed, 30);
    // the first entry observed for the key supplies the group
    assert_eq!(offenders[0].process_group, Some("Node.js".to_string()));
    assert_eq!(offenders[1].process_name, "rust");
    assert_eq!(offenders[1].kill_count, 2);

    assert_eq!(history.get_frequent_offenders(4).len(), 0);
}

#[test]
fn test_ignore_suggestions() {
    let mut history = ProcessHistory::new(100);
    for at in [1, 2] {
        let mut e = entry(at as i32, 9000, "zsh", at);
        e.process_group = Some("Shell".to_string());
        history.add_entry(e);
    }
    for at in [3, 4, 5] {
        history.add_entry(entry(at as i32, 3000, "node", at));
    }
    let suggestions = history.get_ignore_suggestions(2);
    // sorted, without duplicates
    assert_eq!(suggestions.suggested_ports, vec![3000, 9000]);
    assert_eq!(suggestions.suggested_processes, vec!["node", "zsh"]);
    assert_eq!(suggestions.suggested_groups, vec!["Shell"]);
    assert_eq!(suggestions.frequent_offenders.len(), 2);
}

#[test]
fn test_time_patterns() {
    let mut history = ProcessHistory::new(100);
    // the epoch began on a Thursday
    history.add_entry(entry(1, 3000, "a", 0)); // Thursday, hour 0
    history.add_entry(entry(2, 3001, "b", 3600)); // Thursday, hour 1
    history.add_entry(entry(3, 3002, "c", 3600 + 30)); // Thursday, hour 1
    history.add_entry(entry(4, 3003, "d", 86400 + 7200)); // Friday, hour 2
    let patterns = history.get_time_patterns();
    assert_eq!(patterns.total_kills, 4);
    assert_eq!(patterns.peak_hour, Some(1));
    assert_eq!(patterns.peak_day, Some(Weekday::Thursday));
    assert_eq!(patterns.hour_distribution[0], 1);
    assert_eq!(patterns.hour_distribution[1], 2);
    assert_eq!(patterns.hour_distribution[2], 1);
    assert_eq!(patterns.hour_distribution[3], 0);
    assert_eq!(patterns.day_distribution[3], 3); // Thursday
    assert_eq!(patterns.day_distribution[4], 1); // Friday

    let empty = ProcessHistory::new(10).get_time_patterns();
    assert_eq!(empty.total_kills, 0);
    assert_eq!(empty.peak_hour, None);
    assert_eq!(empty.peak_day, None);
}
