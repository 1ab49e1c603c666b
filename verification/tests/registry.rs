use conman::app_config::AppConfig;
use conman::app_config::AppConfigManager;
use conman::app_config::Project;
use conman::error::ErrorKind;
use conman::paths::FsPath;

fn path(s: &str) -> FsPath {
    FsPath::from_string(s).unwrap()
}

fn project(name: &str, id: &str, p: &str) -> Project {
    Project { name: name.to_string(), id: id.to_string(), path: path(p) }
}

#[test]
fn empty_registry_renders_canonically() {
    let config = AppConfig::default();
    let text = config.to_string().unwrap();
    assert_eq!("{\"projects\":[]}", text);
}

#[test]
fn registry_with_projects_renders_canonically() {
    let config = AppConfig {
        projects: vec![project("proj1", "1", "/home/u/proj1"), project("proj2", "2", "/srv/p2")],
    };
    assert!(config.check_wf());
    let text = config.to_string().unwrap();
    assert_eq!(
        "{\"projects\":[{\"name\":\"proj1\",\"id\":\"1\",\"path\":\"/home/u/proj1\"},{\"name\":\"proj2\",\"id\":\"2\",\"path\":\"/srv/p2\"}]}",
        text
    );
}

#[test]
fn get_config_there_are_zero_projects_proper_config_gets_returned() {
    let config = AppConfig::parse("{\"projects\":[]}").unwrap();
    assert_eq!(0, config.projects.len());
}

#[test]
fn registry_document_round_trips() {
    let config = AppConfig {
        projects: vec![project("proj1", "1", "/home/u/proj1"), project("proj2", "2", "/srv/p2")],
    };
    let text = config.to_string().unwrap();
    let back = AppConfig::parse(&text).unwrap();
    assert_eq!(2, back.projects.len());
    assert_eq!("proj1", back.projects[0].name);
    assert_eq!("1", back.projects[0].id);
    assert!(back.projects[0].path.path_eq(&path("/home/u/proj1")));
    assert_eq!("proj2", back.projects[1].name);
    assert!(back.projects[1].path.path_eq(&path("/srv/p2")));
}

#[test]
fn registry_document_escapes_awkward_characters() {
    let config = AppConfig {
        projects: vec![Project {
            name: "pr_oj".to_string(),
            id: "a\"b\\c\nd".to_string(),
            path: path("/home/u/proj"),
        }],
    };
    assert!(config.check_wf());
    let text = config.to_string().unwrap();
    assert_eq!(
        "{\"projects\":[{\"name\":\"pr_oj\",\"id\":\"a\\\"b\\\\c\\u000ad\",\"path\":\"/home/u/proj\"}]}",
        text
    );
    let back = AppConfig::parse(&text).unwrap();
    assert_eq!("a\"b\\c\nd", back.projects[0].id);
}

#[test]
fn registry_document_is_valid_json_for_other_readers() {
    let config = AppConfig {
        projects: vec![Project {
            name: "proj".to_string(),
            id: "x\"y\\z\tq".to_string(),
            path: path("/home/u/proj"),
        }],
    };
    let text = config.to_string().unwrap();
    let value: serde_json::Value = serde_json::from_str(&text).unwrap();
    assert_eq!("proj", value["projects"][0]["name"]);
    assert_eq!("x\"y\\z\tq", value["projects"][0]["id"]);
    assert_eq!("/home/u/proj", value["projects"][0]["path"]);
}

#[test]
fn malformed_registry_documents_are_corrupt() {
    for text in [
        "",
        "{}",
        "{\"projects\":}",
        "{\"projects\":[",
        "{\"projects\":[]} ",
        "{ \"projects\": [] }",
        "{\"projects\":[{\"name\":\"a\",\"id\":\"1\",\"path\":\"relative\"}]}",
        "{\"projects\":[{\"id\":\"1\",\"name\":\"a\",\"path\":\"/p\"}]}",
        "{\"projects\":[{\"name\":\"a\",\"id\":\"1\",\"path\":\"/p\"},]}",
        "{\"projects\":[{\"name\":\"a\",\"id\":\"1\",\"path\":\"/p\"}],}",
        "{\"projects\":[{\"name\":\"a//b\",\"id\":\"1\",\"path\":\"/p\"}]}",
    ] {
        let err = AppConfig::parse(text).unwrap_err();
        assert_eq!(ErrorKind::RegistryCorrupt, err.kind, "accepted: {text}");
    }
}

#[test]
fn duplicated_names_in_the_document_are_corrupt() {
    let text = "{\"projects\":[{\"name\":\"a\",\"id\":\"1\",\"path\":\"/p\"},{\"name\":\"a\",\"id\":\"2\",\"path\":\"/q\"}]}";
    let err = AppConfig::parse(text).unwrap_err();
    assert_eq!(ErrorKind::RegistryCorrupt, err.kind);
}

#[test]
fn manager_rejects_registries_with_duplicated_names() {
    let config = AppConfig {
        projects: vec![project("a", "1", "/p"), project("a", "2", "/q")],
    };
    let err = AppConfigManager::new(config).unwrap_err();
    assert_eq!(ErrorKind::RegistryCorrupt, err.kind);
}

#[test]
fn add_project_project_gets_added_to_file() {
    let config = AppConfig { projects: vec![project("name1", "1", "/path1")] };
    let mut manager = AppConfigManager::new(config).unwrap();

    manager.add_project("new_proj", &path("/home/u/new_proj")).unwrap();

    let file = manager.get_config();
    assert_eq!(2, file.projects.len());
    assert!(file.projects.iter().any(|p| p.name == "new_proj"
        && p.path.path_eq(&path("/home/u/new_proj"))));
}

#[test]
fn duplicate_project_name_is_rejected_and_registry_unchanged() {
    let mut manager = AppConfigManager::new(AppConfig::default()).unwrap();
    manager.add_project("x", &path("/p1")).unwrap();

    let err = manager.add_project("x", &path("/p2")).unwrap_err();
    assert_eq!(ErrorKind::DuplicateName, err.kind);

    let config = manager.get_config();
    assert_eq!(1, config.projects.len());
    assert_eq!("x", config.projects[0].name);
    assert!(config.projects[0].path.path_eq(&path("/p1")));
}

#[test]
fn fresh_project_ids_have_the_hyphenated_uuid_length() {
    let p = Project::new("proj", &path("/home/u/proj"));
    assert_eq!(36, p.id.chars().count());
}

#[test]
fn remove_project_removes_and_tolerates_absence() {
    let config = AppConfig { projects: vec![project("a", "1", "/p"), project("b", "2", "/q")] };
    let mut manager = AppConfigManager::new(config).unwrap();

    manager.remove_project("a").unwrap();
    assert_eq!(1, manager.get_config().projects.len());
    assert_eq!("b", manager.get_config().projects[0].name);

    manager.remove_project("absent").unwrap();
    assert_eq!(1, manager.get_config().projects.len());
}
