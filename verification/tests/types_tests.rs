use port_kill::decimal_string;
use port_kill::types::{ProcessInfo, ProcessUpdate, Snapshot, StatusBarInfo};

fn record(pid: i32, port: u16, name: &str) -> ProcessInfo {
    ProcessInfo {
        pid,
        port,
        command: name.to_string(),
        name: name.to_string(),
        container_id: None,
        container_name: None,
        command_line: None,
        working_directory: None,
        process_group: None,
        project_name: None,
        cpu_usage: None,
        memory_usage: None,
        memory_percentage: None,
    }
}

#[test]
fn test_decimal_rendering() {
    assert_eq!(decimal_string(0), "0");
    assert_eq!(decimal_string(7), "7");
    assert_eq!(decimal_string(65535), "65535");
    assert_eq!(decimal_string(1000000), "1000000");
}

#[test]
fn test_process_group_derivation() {
    let mut rec = record(1, 3000, "node");
    assert_eq!(rec.determine_process_group(), Some("Node.js".to_string()));
    rec.name = "NODE".to_string();
    rec.command = "NODE".to_string();
    // the check folds case first
    assert_eq!(rec.determine_process_group(), Some("Node.js".to_string()));
    rec.name = "python3".to_string();
    rec.command = "python3".to_string();
    assert_eq!(rec.determine_process_group(), Some("Python".to_string()));
    rec.name = "go".to_string();
    rec.command = "go run main.go".to_string();
    assert_eq!(rec.determine_process_group(), Some("Go".to_string()));
    rec.name = "postgres".to_string();
    rec.command = "postgres".to_string();
    assert_eq!(rec.determine_process_group(), Some("Database".to_string()));
    rec.name = "mystery".to_string();
    rec.command = "mystery".to_string();
    assert_eq!(rec.determine_process_group(), None);
}

#[test]
fn test_project_name_extraction() {
    let mut rec = record(1, 3000, "node");
    rec.working_directory = Some("/home/me/my-webapp".to_string());
    assert_eq!(rec.extract_project_name(), Some("my-webapp".to_string()));
    rec.working_directory = Some("/home/me/my-backend/~".to_string());
    assert_eq!(rec.extract_project_name(), Some("my-backend".to_string()));
    rec.working_directory = None;
    assert_eq!(rec.extract_project_name(), None);
    rec.working_directory = Some("~".to_string());
    assert_eq!(rec.extract_project_name(), None);
}

#[test]
fn test_display_names() {
    let mut rec = record(42, 3000, "node");
    assert_eq!(rec.get_display_name(), "node :3000");
    rec.project_name = Some("shop".to_string());
    rec.process_group = Some("Node.js".to_string());
    assert_eq!(rec.get_display_name(), "node [shop] (Node.js) :3000");
    assert_eq!(rec.get_project_description(), "shop");
    rec.working_directory = Some("/srv/shop".to_string());
    assert_eq!(rec.get_project_description(), "shop (/srv/shop)");
    assert_eq!(rec.get_project_context(), Some("/srv/shop".to_string()));
}

#[test]
fn test_short_name() {
    let mut rec = record(1, 80, "/usr/bin/nginx");
    assert_eq!(rec.get_short_name(), "nginx");
    rec.name = "C:\\tools\\node.exe".to_string();
    assert_eq!(rec.get_short_name(), "node");
    rec.name = "plain".to_string();
    assert_eq!(rec.get_short_name(), "plain");
}

#[test]
fn test_detailed_description() {
    let mut rec = record(7, 8000, "python");
    rec.command_line = Some("python app.py".to_string());
    rec.working_directory = Some("/srv/api".to_string());
    assert_eq!(
        rec.get_detailed_description(),
        "python on port 8000 (python app.py) in /srv/api"
    );
    rec.container_id = Some("abc".to_string());
    rec.container_name = Some("api-1".to_string());
    assert_eq!(
        rec.get_detailed_description(),
        "python on port 8000 (python app.py) in /srv/api [Docker: api-1]"
    );
}

#[test]
fn test_snapshot_first_wins() {
    let snap = Snapshot::from_records(vec![
        record(1, 3000, "node"),
        record(2, 3000, "other"),
        record(3, 8000, "python"),
    ]);
    assert_eq!(snap.len(), 2);
    assert_eq!(snap.get(3000).unwrap().pid, 1);
    assert_eq!(snap.ports(), vec![3000, 8000]);
}

#[test]
fn test_process_update() {
    let snap = Snapshot::from_records(vec![record(1, 3000, "node")]);
    let update = ProcessUpdate::new(snap);
    assert_eq!(update.count, 1);
    let empty = ProcessUpdate::empty();
    assert_eq!(empty.count, 0);
    assert!(empty.processes.is_empty());
}

#[test]
fn test_status_from_count() {
    let zero = StatusBarInfo::from_process_count(0);
    assert_eq!(zero.text, "0");
    assert_eq!(zero.tooltip, "No development processes running");
    let five = StatusBarInfo::from_process_count(5);
    assert_eq!(five.text, "5");
    assert_eq!(five.tooltip, "5 development process(es) running");
}

#[test]
fn test_status_with_indicators() {
    let mut hot = record(1, 3000, "node");
    hot.cpu_usage = Some(80);
    hot.process_group = Some("Node.js".to_string());
    let mut fat = record(2, 8000, "python");
    fat.memory_percentage = Some(25);
    fat.process_group = Some("Python".to_string());
    let mut docked = record(3, 9000, "redis");
    docked.container_id = Some("abc".to_string());
    let snap = Snapshot::from_records(vec![hot, fat, docked]);
    let status = StatusBarInfo::from_processes_with_status(&snap);
    assert_eq!(status.text, "3 \u{1F525}1 \u{1F4BE}1 \u{1F433}1");
    assert_eq!(
        status.tooltip,
        "3 development process(es) running | Groups: Node.js, Python | \
1 high CPU processes | 1 high memory processes | 1 Docker containers"
    );

    let empty = StatusBarInfo::from_processes_with_status(&Snapshot::new());
    assert_eq!(empty.text, "0");
    assert_eq!(empty.tooltip, "No development processes running");
}
