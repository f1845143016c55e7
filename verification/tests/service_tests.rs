use port_kill::service_detector::{
    parse_procfile_line, extract_docker_service_name, infer_port_from_script_name, path_join,
    parent_dir, procfile_command, start_command, DiscoveredService, NamedFile, SearchPathListing,
    ServiceDetector, ServiceError, ServiceType,
};

#[test]
fn test_parse_procfile_line() {
    let line = "web: npm start";
    let result = parse_procfile_line(line);
    assert_eq!(result, Some(("web".to_string(), "npm start".to_string())));
}

#[test]
fn test_extract_docker_service_name() {
    let line = "  web:";
    let result = extract_docker_service_name(line);
    assert_eq!(result, Some("web".to_string()));
}

#[test]
fn test_infer_port() {
    assert_eq!(infer_port_from_script_name("dev"), Some(3000));
    assert_eq!(infer_port_from_script_name("dev:api"), Some(8000));
}

#[test]
fn test_parse_procfile_line_rejects() {
    assert_eq!(parse_procfile_line(""), None);
    assert_eq!(parse_procfile_line("   "), None);
    assert_eq!(parse_procfile_line("# a comment"), None);
    assert_eq!(parse_procfile_line("no colon here"), None);
    assert_eq!(parse_procfile_line("name:"), None);
    assert_eq!(
        parse_procfile_line("  worker :  bundle exec sidekiq  "),
        Some(("worker".to_string(), "bundle exec sidekiq".to_string()))
    );
}

#[test]
fn test_extract_docker_service_name_rejects() {
    assert_eq!(extract_docker_service_name("web:"), None);
    assert_eq!(extract_docker_service_name("   ports:"), None);
    assert_eq!(extract_docker_service_name("  services:"), None);
    assert_eq!(extract_docker_service_name("  # comment:"), None);
    assert_eq!(extract_docker_service_name("  has space:"), None);
    assert_eq!(extract_docker_service_name("  db-1:"), Some("db-1".to_string()));
}

#[test]
fn test_discover_services_mixed() {
    let detector = ServiceDetector::new();
    let listings = vec![SearchPathListing {
        root: ".".to_string(),
        package_json: Some(
            "{\"scripts\": {\"dev\": \"next dev\", \"build\": \"next build\", \"start:api\": \"node api.js\"}}"
                .to_string(),
        ),
        compose_files: vec![NamedFile {
            name: "docker-compose.yml".to_string(),
            content: "services:\n  web:\n    ports:\n      - 80\n  db:\n".to_string(),
        }],
        procfile: Some("web: npm start\n# skip\nworker: run worker\n".to_string()),
        python_files: vec!["manage.py".to_string()],
    }];
    let services = detector.discover_services(&listings).unwrap();
    let names: Vec<&str> = services.iter().map(|s| s.name.as_str()).collect();
    assert_eq!(
        names,
        vec![
            "npm:dev",
            "npm:start:api",
            "docker:web",
            "docker:db",
            "procfile:web",
            "procfile:worker",
            "python:manage.py"
        ]
    );
    assert_eq!(services[0].inferred_port, Some(3000));
    assert_eq!(services[1].inferred_port, Some(8000));
    assert_eq!(services[6].inferred_port, Some(8000));
    assert_eq!(services[6].description, "Python app: manage.py");
}

#[test]
fn test_discover_services_bad_manifest() {
    let detector = ServiceDetector::new();
    let listings = vec![SearchPathListing {
        root: ".".to_string(),
        package_json: Some("{not json".to_string()),
        compose_files: vec![],
        procfile: None,
        python_files: vec![],
    }];
    assert_eq!(
        detector.discover_services(&listings).unwrap_err(),
        ServiceError::InvalidManifest
    );
}

#[test]
fn test_discover_services_no_scripts_key() {
    let detector = ServiceDetector::new();
    let listings = vec![SearchPathListing {
        root: ".".to_string(),
        package_json: Some("{\"name\": \"x\"}".to_string()),
        compose_files: vec![],
        procfile: None,
        python_files: vec![],
    }];
    assert_eq!(detector.discover_services(&listings).unwrap().len(), 0);
}

#[test]
fn test_path_helpers() {
    assert_eq!(path_join("a", "b.txt"), "a/b.txt");
    assert_eq!(path_join("a/", "b.txt"), "a/b.txt");
    assert_eq!(parent_dir("a/b/c.json"), "a/b");
    assert_eq!(parent_dir("c.json"), ".");
}

#[test]
fn test_procfile_command_lookup() {
    let content = "web: npm start\nworker: run worker\n";
    assert_eq!(procfile_command(content, "worker"), Some("run worker".to_string()));
    assert_eq!(procfile_command(content, "missing"), None);
}

#[test]
fn test_start_command_plans() {
    let npm = DiscoveredService {
        name: "npm:dev".to_string(),
        service_type: ServiceType::NpmScript {
            script_name: "dev".to_string(),
            package_json_path: "proj/package.json".to_string(),
        },
        working_directory: "proj".to_string(),
        inferred_port: Some(3000),
        description: "npm run dev (Node.js)".to_string(),
    };
    let cmd = start_command(&npm, None).unwrap();
    assert_eq!(cmd.program, "npm");
    assert_eq!(cmd.args, vec!["run", "dev"]);
    assert_eq!(cmd.working_dir, "proj");

    let proc_svc = DiscoveredService {
        name: "procfile:web".to_string(),
        service_type: ServiceType::Procfile {
            process_name: "web".to_string(),
            procfile_path: "proj/Procfile".to_string(),
        },
        working_directory: "proj".to_string(),
        inferred_port: None,
        description: "Procfile process: web".to_string(),
    };
    assert_eq!(
        start_command(&proc_svc, None).unwrap_err(),
        ServiceError::MissingProcfile
    );
    let cmd = start_command(&proc_svc, Some("web: npm start\n")).unwrap();
    assert_eq!(cmd.program, "sh");
    assert_eq!(cmd.args, vec!["-c", "npm start"]);
    assert_eq!(
        start_command(&proc_svc, Some("other: x\n")).unwrap_err(),
        ServiceError::ProcessNotFound
    );

    let python = DiscoveredService {
        name: "python:manage.py".to_string(),
        service_type: ServiceType::PythonApp {
            script_path: "proj/manage.py".to_string(),
        },
        working_directory: "proj".to_string(),
        inferred_port: Some(8000),
        description: "Python app: manage.py".to_string(),
    };
    let cmd = start_command(&python, None).unwrap();
    assert_eq!(cmd.program, "python");
    assert_eq!(cmd.args, vec!["manage.py", "runserver"]);

    let custom = DiscoveredService {
        name: "custom".to_string(),
        service_type: ServiceType::Custom {
            command: vec![],
            working_dir: ".".to_string(),
        },
        working_directory: ".".to_string(),
        inferred_port: None,
        description: "custom".to_string(),
    };
    assert_eq!(
        start_command(&custom, None).unwrap_err(),
        ServiceError::EmptyCommand
    );
}
