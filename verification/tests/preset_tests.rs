use port_kill::preset_manager::{PortPreset, PresetManager};

#[test]
fn test_preset_creation() {
    let preset = PortPreset::new(
        "test".to_string(),
        "Test preset".to_string(),
        vec![3000, 8080],
    );

    assert_eq!(preset.name, "test");
    assert_eq!(preset.description, "Test preset");
    assert_eq!(preset.ports, vec![3000, 8080]);
}

#[test]
fn test_preset_with_ignores() {
    let preset = PortPreset::with_ignores(
        "test".to_string(),
        "Test preset".to_string(),
        vec![3000, 8080],
        Some(vec![5353]),
        Some(vec!["Chrome".to_string()]),
        None,
        None,
    );

    assert_eq!(preset.ignore_ports, Some(vec![5353]));
    assert_eq!(preset.ignore_processes, Some(vec!["Chrome".to_string()]));
}

#[test]
fn test_preset_manager() {
    let mut manager = PresetManager::new();
    manager.load_default_presets();

    assert!(manager.get_preset("dev").is_some());
    assert!(manager.get_preset("system").is_some());
    assert!(manager.get_preset("nonexistent").is_none());

    let names = manager.get_preset_names();
    assert!(names.contains(&"dev".to_string()));
    assert!(names.contains(&"system".to_string()));
}

#[test]
fn test_preset_with_smart_filter() {
    let preset = PortPreset::with_smart_filter(
        "sys".to_string(),
        "System".to_string(),
        vec![22, 80],
        true,
    );
    assert!(preset.smart_filter);
    assert_eq!(preset.ports, vec![22, 80]);
    assert!(preset.ignore_ports.is_none());
}

#[test]
fn test_default_preset_contents() {
    let mut manager = PresetManager::new();
    manager.load_default_presets();

    let dev = manager.get_preset("dev").unwrap();
    assert_eq!(dev.ports, vec![3000, 3001, 3002, 4321, 5000, 8000, 8080, 9000]);
    assert_eq!(dev.ignore_ports, Some(vec![5353, 7000]));

    let full = manager.get_preset("full").unwrap();
    assert_eq!(full.ports.len(), 6001);
    assert_eq!(full.ports[0], 2000);
    assert_eq!(full.ports[6000], 8000);
    assert!(full.smart_filter);

    let names = manager.get_preset_names();
    assert_eq!(names.len(), 9);
}

#[test]
fn test_add_replaces_and_remove() {
    let mut manager = PresetManager::new();
    manager.add_preset(PortPreset::new(
        "mine".to_string(),
        "first".to_string(),
        vec![1000],
    ));
    manager.add_preset(PortPreset::new(
        "mine".to_string(),
        "second".to_string(),
        vec![2000],
    ));
    assert_eq!(manager.get_preset("mine").unwrap().description, "second");
    assert_eq!(manager.get_preset_names().len(), 1);

    let removed = manager.remove_preset("mine").unwrap();
    assert_eq!(removed.ports, vec![2000]);
    assert!(manager.get_preset("mine").is_none());
    assert!(manager.remove_preset("mine").is_none());
}

#[test]
fn test_preset_names_sorted() {
    let mut manager = PresetManager::new();
    manager.add_preset(PortPreset::new("zeta".to_string(), "z".to_string(), vec![1]));
    manager.add_preset(PortPreset::new("alpha".to_string(), "a".to_string(), vec![2]));
    manager.add_preset(PortPreset::new("mid".to_string(), "m".to_string(), vec![3]));
    assert_eq!(manager.get_preset_names(), vec!["alpha", "mid", "zeta"]);
}

#[test]
fn test_merge_user_presets_overrides() {
    let mut manager = PresetManager::new();
    manager.load_default_presets();
    let user = vec![
        PortPreset::new("dev".to_string(), "my dev".to_string(), vec![4000]),
        PortPreset::new("extra".to_string(), "mine".to_string(), vec![5000]),
    ];
    manager.merge_user_presets(user);
    assert_eq!(manager.get_preset("dev").unwrap().ports, vec![4000]);
    assert_eq!(manager.get_preset("extra").unwrap().ports, vec![5000]);

    let user_only = manager.user_presets();
    let names: Vec<&str> = user_only.iter().map(|p| p.name.as_str()).collect();
    assert!(names.contains(&"extra"));
    assert!(!names.contains(&"system"));
}

#[test]
fn test_list_presets_text() {
    let mut manager = PresetManager::new();
    manager.add_preset(PortPreset::new(
        "tiny".to_string(),
        "Tiny".to_string(),
        vec![1, 2],
    ));
    let listing = manager.list_presets();
    assert!(listing.contains("Available Port Presets:"));
    assert!(listing.contains("\u{2022} tiny: Tiny\n"));
    assert!(listing.contains("  Ports: 1, 2\n"));
}

#[test]
fn test_config_path() {
    let manager = PresetManager::with_config_path("/home/me/.port-kill/presets.json".to_string());
    assert_eq!(manager.get_config_path(), "/home/me/.port-kill/presets.json");
}
