use pgd::config::PGDConfig;
use pgd::config::Project;
use pgd::version::PostgresVersion;

fn demo_project() -> Project {
    Project {
        name: String::from("my-project"),
        path: String::from("/home/user/my-project"),
        config: PGDConfig {
            version: PostgresVersion { major: 17, minor: 2 },
            password: String::from("SECRET-REDACTED"),
            port: 5433,
        },
    }
}

#[test]
fn test_extract_project_name() {
    let path = String::from("/home/user/my-project");
    let name = Project::extract_project_name(&path).unwrap();
    assert_eq!(name, "my-project");
}

#[test]
fn test_extract_project_name_edges() {
    assert_eq!(Project::extract_project_name("plain"), Some(String::from("plain")));
    assert_eq!(Project::extract_project_name("/"), None);
    assert_eq!(Project::extract_project_name("/home/user/"), None);
    assert_eq!(Project::extract_project_name(""), None);
}

#[test]
fn test_container_name() {
    assert_eq!(demo_project().container_name(), "pgd-my-project-17_2");
}

#[test]
fn test_config_path() {
    assert_eq!(demo_project().config_path(), "/home/user/my-project/pgd.toml");
    let mut with_slash = demo_project();
    with_slash.path = String::from("/srv/x/");
    assert_eq!(with_slash.config_path(), "/srv/x/pgd.toml");
}
