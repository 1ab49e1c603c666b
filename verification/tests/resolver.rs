use conman::app_config::AppConfig;
use conman::app_config::Project;
use conman::commands::list_command::ListCommand;
use conman::commands::list_command::ListFilter;
use conman::commands::status_command::StatusCommand;
use conman::commands::status_command::StatusReport;
use conman::error::ErrorKind;
use conman::locations::LocationsProvider;
use conman::paths::FsPath;
use conman::projects::ProjectsRetriever;

fn path(s: &str) -> FsPath {
    FsPath::from_string(s).unwrap()
}

fn project(name: &str, id: &str, p: &str) -> Project {
    Project { name: name.to_string(), id: id.to_string(), path: path(p) }
}

fn locations() -> LocationsProvider {
    LocationsProvider::new(path("/home/u/.config/conman"))
}

#[test]
fn paths_render_and_parse_back() {
    for s in ["/", "/a", "/a/b/c", "a/b", ""] {
        let p = FsPath::from_string(s).unwrap();
        assert_eq!(s, p.to_string());
    }
    assert!(FsPath::from_string("//a").is_none());
    assert!(FsPath::from_string("/a//b").is_none());
    assert!(FsPath::from_string("/a/").is_none());
    assert!(FsPath::from_string("a/").is_none());
}

#[test]
fn path_family_relations() {
    let root = path("/a/b");
    let file = path("/a/b/c/d");
    assert!(file.starts_with(&root));
    assert!(!root.starts_with(&file));
    let rel = file.strip_prefix(&root).unwrap();
    assert!(!rel.absolute);
    assert_eq!("c/d", rel.to_string());
    assert_eq!("d", file.file_name().unwrap());
    assert_eq!("/a/b/c", file.parent().unwrap().to_string());
    assert!(root.join(&rel).path_eq(&file));
}

#[test]
fn locations_are_under_the_base_path() {
    let l = locations();
    assert_eq!("/home/u/.config/conman/configs", l.get_configs_config_path().to_string());
    assert_eq!("/home/u/.config/conman/config.json", l.get_config_file_path().to_string());
    assert_eq!("/home/u/.config/conman/configs/proj", l.get_managed_dir("proj").to_string());
}

#[test]
fn get_project_name_by_user_dir_matches_exactly() {
    let config = AppConfig { projects: vec![project("a", "1", "/home/u/a")] };
    let l = locations();
    assert_eq!("a", l.get_project_name_by_user_dir(&config, &path("/home/u/a")).unwrap());
    let err = l.get_project_name_by_user_dir(&config, &path("/home/u/a/sub")).unwrap_err();
    assert_eq!(ErrorKind::NotAssociated, err.kind);
}

#[test]
fn longest_prefix_resolution_prefers_the_nested_project() {
    let config = AppConfig {
        projects: vec![project("outer", "1", "/a"), project("inner", "2", "/a/b")],
    };
    let l = locations();
    let (name, root) = l.find_project_for_path(&config, &path("/a/b/c")).unwrap();
    assert_eq!("inner", name);
    assert!(root.path_eq(&path("/a/b")));

    let (name, root) = l.find_project_for_path(&config, &path("/a/x")).unwrap();
    assert_eq!("outer", name);
    assert!(root.path_eq(&path("/a")));

    let err = l.find_project_for_path(&config, &path("/elsewhere")).unwrap_err();
    assert_eq!(ErrorKind::NotAssociated, err.kind);
}

#[test]
fn is_associated_when_associated_project_is_provided_true_is_returned() {
    let checked_dir = path("/home/u/checked");
    let app_config = AppConfig { projects: vec![project("proj", "1", "/home/u/checked")] };
    let locations_provider = locations();

    let sut = ProjectsRetriever::new(app_config, &locations_provider);

    let result = sut.is_associated(&checked_dir).unwrap();

    assert!(result);
}

#[test]
fn is_associated_when_not_associated_project_is_provided_false_is_returned() {
    let app_config = AppConfig { projects: vec![] };
    let locations_provider = locations();

    let sut = ProjectsRetriever::new(app_config, &locations_provider);

    let some_dir = path("/home/u/some-dir");
    let result = sut.is_associated(&some_dir).unwrap();

    assert!(!result);
}

#[test]
fn get_unassociated_projects_when_all_projects_are_associated_empty_vector_is_returned() {
    let app_config = AppConfig {
        projects: vec![
            project("proj1", "1", "/d/proj1"),
            project("proj2", "2", "/d/proj2"),
            project("proj3", "3", "/d/proj3"),
        ],
    };
    let sut = ProjectsRetriever::new(app_config, &locations());

    let disk = vec!["proj1".to_string(), "proj2".to_string(), "proj3".to_string()];
    let result = sut.get_unassociated_projects(&disk).unwrap();

    assert!(result.len() == 0);
}

#[test]
fn get_unassociated_projects_when_some_projects_are_associated_proper_vector_is_returned() {
    let app_config = AppConfig {
        projects: vec![project("proj1", "1", "/d/proj1"), project("proj2", "2", "/d/proj2")],
    };
    let sut = ProjectsRetriever::new(app_config, &locations());

    let disk = vec!["proj1".to_string(), "proj2".to_string(), "proj3".to_string()];
    let result = sut.get_unassociated_projects(&disk).unwrap();

    assert_eq!(1, result.len());
    assert!(result.first().unwrap() == "proj3");
}

#[test]
fn registry_ahead_of_disk_is_inconsistent() {
    let app_config = AppConfig {
        projects: vec![project("proj1", "1", "/d/proj1"), project("proj2", "2", "/d/proj2")],
    };
    let sut = ProjectsRetriever::new(app_config, &locations());

    let disk = vec!["proj1".to_string()];
    let err = sut.get_unassociated_projects(&disk).unwrap_err();
    assert_eq!(ErrorKind::RegistryInconsistent, err.kind);
}

#[test]
fn list_honours_the_filter() {
    let app_config = AppConfig { projects: vec![project("reg", "1", "/d/reg")] };
    let retriever = ProjectsRetriever::new(app_config, &locations());
    let command = ListCommand::new(&retriever);
    let disk = vec!["reg".to_string(), "loose".to_string()];

    let all = command.list(ListFilter::All, &disk).unwrap();
    assert_eq!(vec!["reg".to_string()], all.associated.unwrap());
    assert_eq!(vec!["loose".to_string()], all.unassociated.unwrap());

    let assoc = command.list(ListFilter::OnlyAssociated, &disk).unwrap();
    assert!(assoc.unassociated.is_none());
    assert_eq!(vec!["reg".to_string()], assoc.associated.unwrap());

    let unassoc = command.list(ListFilter::OnlyUnassociated, &disk).unwrap();
    assert!(unassoc.associated.is_none());
    assert_eq!(vec!["loose".to_string()], unassoc.unassociated.unwrap());
}

#[test]
fn status_reports_the_owning_project_and_its_files() {
    let app_config = AppConfig { projects: vec![project("proj", "1", "/home/u/proj")] };
    let l = locations();
    let retriever = ProjectsRetriever::new(app_config, &l);
    let command = StatusCommand::new(&l, &retriever);

    let files = vec![FsPath::from_string("conf.json").unwrap()];
    match command.status(&path("/home/u/proj/src"), true, files).unwrap() {
        StatusReport::Managed { project_name, files } => {
            assert_eq!("proj", project_name);
            assert_eq!(1, files.len());
            assert_eq!("conf.json", files[0].to_string());
        },
        StatusReport::NotManaged => panic!("expected a managed directory"),
    }

    match command.status(&path("/elsewhere"), true, vec![]).unwrap() {
        StatusReport::NotManaged => {},
        StatusReport::Managed { .. } => panic!("expected an unmanaged directory"),
    }
}
