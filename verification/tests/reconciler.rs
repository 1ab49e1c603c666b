use conman::app_config::AppConfig;
use conman::app_config::Project;
use conman::commands::add_command::AddAction;
use conman::commands::add_command::AddCommand;
use conman::commands::file_forget_command::ForgetCommand;
use conman::commands::file_rm_command::RmCommand;
use conman::error::ErrorKind;
use conman::fs_model::FileObservation;
use conman::locations::LocationsProvider;
use conman::paths::FsPath;
use conman::projects::ProjectsRetriever;

fn path(s: &str) -> FsPath {
    FsPath::from_string(s).unwrap()
}

fn project(name: &str, id: &str, p: &str) -> Project {
    Project { name: name.to_string(), id: id.to_string(), path: path(p) }
}

fn locations() -> LocationsProvider {
    LocationsProvider::new(path("/home/u/.config/conman"))
}

fn obs(user_exists: bool, managed_exists: bool) -> FileObservation {
    FileObservation {
        user_exists,
        user_is_dir: false,
        user_link_target: None,
        managed_exists,
        managed_dir_exists: true,
    }
}

#[test]
fn add_file_when_project_does_not_exist() {
    let locations_provider = locations();
    let config = AppConfig { projects: vec![] };

    let sut = AddCommand::new(&locations_provider);

    let user_file = path("file");
    let current_dir = path("/home/u/proj");
    let result = sut.add_file(&config, &user_file, &current_dir, false, &obs(true, false));

    assert!(result.is_err());
    assert_eq!(ErrorKind::NotAssociated, result.err().unwrap().kind);
}

#[test]
fn add_file_fresh_scenario() {
    let locations_provider = locations();
    let config = AppConfig { projects: vec![project("proj1", "1", "/home/u/proj")] };

    let sut = AddCommand::new(&locations_provider);

    let user_file = path("file");
    let current_dir = path("/home/u/proj");
    let plan = sut.add_file(&config, &user_file, &current_dir, false, &obs(false, false)).unwrap();

    assert_eq!(AddAction::CreateFreshAndLink, plan.action);
    assert_eq!("proj1", plan.project_name);
    assert_eq!("file", plan.relative_path.to_string());
    assert_eq!("/home/u/proj/file", plan.user_file.to_string());
    assert_eq!("/home/u/.config/conman/configs/proj1/file", plan.managed_file.to_string());
    assert!(plan.gitignore_entry.is_none());
}

#[test]
fn add_file_moves_an_existing_file_in() {
    let config = AppConfig { projects: vec![project("proj1", "1", "/home/u/proj")] };
    let sut = AddCommand::new(&locations());

    let plan = sut
        .add_file(&config, &path("/home/u/proj/sub/conf"), &path("/home/u"), true, &obs(true, false))
        .unwrap();

    assert_eq!(AddAction::MoveInAndLink, plan.action);
    assert_eq!("sub/conf", plan.relative_path.to_string());
    assert_eq!("/home/u/.config/conman/configs/proj1/sub/conf", plan.managed_file.to_string());
    assert_eq!("conf", plan.gitignore_entry.unwrap());
}

#[test]
fn add_file_relinks_a_lost_link() {
    let config = AppConfig { projects: vec![project("proj1", "1", "/home/u/proj")] };
    let sut = AddCommand::new(&locations());

    let plan = sut
        .add_file(&config, &path("/home/u/proj/conf"), &path("/home/u"), false, &obs(false, true))
        .unwrap();

    assert_eq!(AddAction::LinkToExisting, plan.action);
}

#[test]
fn adding_twice_lands_in_already_managed() {
    let config = AppConfig { projects: vec![project("proj1", "1", "/home/u/proj")] };
    let sut = AddCommand::new(&locations());

    let first = sut
        .add_file(&config, &path("/home/u/proj/conf"), &path("/home/u"), false, &obs(true, false))
        .unwrap();
    assert_eq!(AddAction::MoveInAndLink, first.action);

    let after = FileObservation {
        user_exists: true,
        user_is_dir: false,
        user_link_target: Some(path("/home/u/.config/conman/configs/proj1/conf")),
        managed_exists: true,
        managed_dir_exists: true,
    };
    let second = sut
        .add_file(&config, &path("/home/u/proj/conf"), &path("/home/u"), false, &after)
        .unwrap();
    assert_eq!(AddAction::AlreadyManaged, second.action);
}

#[test]
fn add_then_forget_restores_the_original_file() {
    let config = AppConfig { projects: vec![project("proj1", "1", "/home/u/proj")] };
    let locations_provider = locations();
    let add = AddCommand::new(&locations_provider);
    let retriever = ProjectsRetriever::new(
        AppConfig { projects: vec![project("proj1", "1", "/home/u/proj")] },
        &locations_provider,
    );
    let forget = ForgetCommand::new(&locations_provider, &retriever);

    let add_plan = add
        .add_file(&config, &path("/home/u/proj/conf"), &path("/home/u"), false, &obs(true, false))
        .unwrap();
    assert_eq!(AddAction::MoveInAndLink, add_plan.action);

    let after_add = FileObservation {
        user_exists: true,
        user_is_dir: false,
        user_link_target: Some(path("/home/u/.config/conman/configs/proj1/conf")),
        managed_exists: true,
        managed_dir_exists: true,
    };
    let forget_plan = forget
        .forget_file(&path("/home/u/proj/conf"), &path("/home/u"), false, &after_add)
        .unwrap();
    assert!(forget_plan.remove_user_link);
    assert!(forget_plan.restore_content);
    assert!(forget_plan.managed_file.path_eq(&add_plan.managed_file));
    assert!(forget_plan.user_file.path_eq(&add_plan.user_file));
}

#[test]
fn add_file_reports_a_conflict_without_mutation() {
    let config = AppConfig { projects: vec![project("proj1", "1", "/home/u/proj")] };
    let sut = AddCommand::new(&locations());

    let plan = sut
        .add_file(&config, &path("/home/u/proj/conf"), &path("/home/u"), false, &obs(true, true))
        .unwrap();
    assert_eq!(AddAction::Conflict, plan.action);
}

#[test]
fn add_file_rejects_directories() {
    let config = AppConfig { projects: vec![project("proj1", "1", "/home/u/proj")] };
    let sut = AddCommand::new(&locations());

    let o = FileObservation {
        user_exists: true,
        user_is_dir: true,
        user_link_target: None,
        managed_exists: false,
        managed_dir_exists: true,
    };
    let err = sut.add_file(&config, &path("/home/u/proj/dir"), &path("/home/u"), false, &o).unwrap_err();
    assert_eq!(ErrorKind::IsDirectory, err.kind);
}

#[test]
fn corrupted_project_is_detected_on_add() {
    let config = AppConfig { projects: vec![project("proj1", "1", "/home/u/proj")] };
    let sut = AddCommand::new(&locations());

    let o = FileObservation {
        user_exists: true,
        user_is_dir: false,
        user_link_target: None,
        managed_exists: false,
        managed_dir_exists: false,
    };
    let err = sut.add_file(&config, &path("/home/u/proj/conf"), &path("/home/u"), false, &o).unwrap_err();
    assert_eq!(ErrorKind::CorruptedProject, err.kind);
}

fn forget_command() -> ForgetCommand {
    let l = locations();
    let config = AppConfig { projects: vec![project("proj1", "1", "/home/u/proj")] };
    let retriever = ProjectsRetriever::new(config, &l);
    ForgetCommand::new(&l, &retriever)
}

#[test]
fn forget_rejects_files_that_were_never_added() {
    let sut = forget_command();
    let err = sut
        .forget_file(&path("/home/u/proj/conf"), &path("/home/u"), false, &obs(true, false))
        .unwrap_err();
    assert_eq!(ErrorKind::NotTracked, err.kind);
}

#[test]
fn forget_rejects_real_files_in_place_of_links() {
    let sut = forget_command();
    let err = sut
        .forget_file(&path("/home/u/proj/conf"), &path("/home/u"), false, &obs(true, true))
        .unwrap_err();
    assert_eq!(ErrorKind::NotASymlink, err.kind);
}

#[test]
fn forget_restores_the_content_by_default() {
    let sut = forget_command();
    let o = FileObservation {
        user_exists: true,
        user_is_dir: false,
        user_link_target: Some(path("/home/u/.config/conman/configs/proj1/sub/conf")),
        managed_exists: true,
        managed_dir_exists: true,
    };
    let plan = sut.forget_file(&path("/home/u/proj/sub/conf"), &path("/home/u"), false, &o).unwrap();
    assert!(plan.remove_user_link);
    assert!(plan.restore_content);
    assert_eq!("/home/u/.config/conman/configs/proj1/sub/conf", plan.managed_file.to_string());
    assert_eq!(
        "/home/u/.config/conman/configs/proj1/sub",
        plan.remove_managed_parent_if_empty.unwrap().to_string()
    );
}

#[test]
fn forget_with_delete_discards_the_content() {
    let sut = forget_command();
    let o = FileObservation {
        user_exists: true,
        user_is_dir: false,
        user_link_target: Some(path("/home/u/.config/conman/configs/proj1/conf")),
        managed_exists: true,
        managed_dir_exists: true,
    };
    let plan = sut.forget_file(&path("/home/u/proj/conf"), &path("/home/u"), true, &o).unwrap();
    assert!(plan.remove_user_link);
    assert!(!plan.restore_content);
    assert!(plan.remove_managed_parent_if_empty.is_none());
}

#[test]
fn rm_decides_like_forget() {
    let l = locations();
    let config = AppConfig { projects: vec![project("proj1", "1", "/home/u/proj")] };
    let retriever = ProjectsRetriever::new(config, &l);
    let sut = RmCommand::new(&l, &retriever);

    let err = sut
        .remove_file(&path("/home/u/proj/conf"), &path("/home/u"), false, &obs(true, false))
        .unwrap_err();
    assert_eq!(ErrorKind::NotTracked, err.kind);

    let o = FileObservation {
        user_exists: false,
        user_is_dir: false,
        user_link_target: None,
        managed_exists: true,
        managed_dir_exists: true,
    };
    let plan = sut.remove_file(&path("/home/u/proj/conf"), &path("/home/u"), false, &o).unwrap();
    assert!(!plan.remove_user_link);
    assert!(plan.restore_content);
}
