use ppm::settings::{Config, Project};

fn s(x: &str) -> String {
    x.to_string()
}

#[test]
fn test_project_new() {
    let project = Project::new(
        "test_project".to_string(),
        "0.1.0".to_string(),
        "A test project".to_string(),
        "main.py".to_string(),
        Some("venv".to_string()),
    );

    assert_eq!(project.name, "test_project");
    assert_eq!(project.version, "0.1.0");
    assert_eq!(project.venv, Some("venv".to_string()));
}

#[test]
fn venv_root_defaults_to_venv() {
    let p = Project::new(s("a"), s("1"), s("d"), s("main.py"), None);
    assert_eq!(p.venv_root(), "venv");
    let q = Project::new(s("a"), s("1"), s("d"), s("main.py"), Some(s(".env")));
    assert_eq!(q.venv_root(), ".env");
}

#[test]
fn config_new_keeps_tables() {
    let p = Project::new(s("test"), s("1.0.0"), s("desc"), s("main.py"), None);
    let c = Config::new(p, vec![(s("requests"), s("2.0.0"))], vec![(s("run"), s("python main.py"))]);
    assert_eq!(c.project.name, "test");
    assert_eq!(c.packages, vec![(s("requests"), s("2.0.0"))]);
    assert_eq!(c.scripts.len(), 1);
}
