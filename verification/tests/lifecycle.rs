use conman::app_config::AppConfig;
use conman::app_config::AppConfigManager;
use conman::app_config::Project;
use conman::app_init::AppInitializer;
use conman::commands::init_command::InitCommand;
use conman::commands::init_command::InitStage;
use conman::commands::project_forget_command::FileTeardown;
use conman::commands::project_forget_command::ProjectForgetCommand;
use conman::commands::project_forget_command::ProjectForgetOutcome;
use conman::error::ErrorKind;
use conman::fs_utils::backup_file_name;
use conman::git_ignore::GitIgnoreHandler;
use conman::git_ignore::GitIgnoreResult;
use conman::locations::LocationsProvider;
use conman::locations::get_base_config_path;
use conman::paths::FsPath;
use conman::project_init::existing::ExistingProjectInitializer;
use conman::project_init::fresh;
use conman::projects::ProjectsRetriever;

fn path(s: &str) -> FsPath {
    FsPath::from_string(s).unwrap()
}

fn project(name: &str, id: &str, p: &str) -> Project {
    Project { name: name.to_string(), id: id.to_string(), path: path(p) }
}

fn locations() -> LocationsProvider {
    LocationsProvider::new(path("/home/u/.config/conman"))
}

#[test]
fn init_when_not_initialized_yet_files_get_created() {
    let init = AppInitializer { locations_provider: locations() };

    let plan = init.init(false, false, false);

    assert_eq!("{\"projects\":[]}", plan.config_file_content);
    assert_eq!(
        "/home/u/.config/conman/configs",
        plan.create_base_dir.unwrap().to_string()
    );
    assert_eq!(
        "/home/u/.config/conman/config.json",
        plan.create_config_file.unwrap().to_string()
    );
    assert_eq!(
        "/home/u/.config/conman/configs",
        plan.create_configs_dir.unwrap().to_string()
    );
}

#[test]
fn init_when_base_dir_exists_but_config_file_doesnt_then_config_file_gets_created() {
    let init = AppInitializer { locations_provider: locations() };

    let plan = init.init(true, false, true);

    assert_eq!("{\"projects\":[]}", plan.config_file_content);
    assert!(plan.create_base_dir.is_none());
    assert!(plan.create_config_file.is_some());
    assert!(plan.create_configs_dir.is_none());
}

#[test]
fn init_command_rejects_an_associated_directory() {
    let config = AppConfig { projects: vec![project("proj", "1", "/home/u/proj")] };
    let command = InitCommand {
        projects_retriever: ProjectsRetriever::new(config, &locations()),
        locations_provider: locations(),
    };
    let err = command.init(&path("/home/u/proj"), &vec!["proj".to_string()]).unwrap_err();
    assert_eq!(ErrorKind::AlreadyInitialized, err.kind);
}

#[test]
fn init_command_offers_unassociated_projects_or_a_fresh_start() {
    let config = AppConfig { projects: vec![project("proj", "1", "/home/u/proj")] };
    let command = InitCommand {
        projects_retriever: ProjectsRetriever::new(config, &locations()),
        locations_provider: locations(),
    };

    let disk = vec!["proj".to_string(), "synced".to_string()];
    match command.init(&path("/home/u/new"), &disk).unwrap() {
        InitStage::ChooseFromUnassociated(v) => assert_eq!(vec!["synced".to_string()], v),
        InitStage::FreshNeeded => panic!("expected a choice"),
    }

    let disk = vec!["proj".to_string()];
    match command.init(&path("/home/u/new"), &disk).unwrap() {
        InitStage::FreshNeeded => {},
        InitStage::ChooseFromUnassociated(_) => panic!("expected the fresh branch"),
    }
}

#[test]
fn fresh_names_come_from_input_or_directory() {
    let cwd = path("/home/u/myproj");
    assert_eq!("given", InitCommand::choose_fresh_name(&cwd, &"given".to_string()).unwrap());
    assert_eq!("myproj", InitCommand::choose_fresh_name(&cwd, &String::new()).unwrap());
    assert!(InitCommand::choose_fresh_name(&path("/"), &String::new()).is_none());
    assert!(InitCommand::choose_fresh_name(&cwd, &"bad/name".to_string()).is_none());
}

#[test]
fn init_fresh_project_registers_and_names_the_directory() {
    let mut manager = AppConfigManager::new(AppConfig::default()).unwrap();
    let dir = fresh::init_project(&mut manager, &locations(), "proj", &path("/home/u/proj"), false)
        .unwrap();
    assert_eq!("/home/u/.config/conman/configs/proj", dir.to_string());
    assert_eq!(1, manager.get_config().projects.len());
    assert_eq!("proj", manager.get_config().projects[0].name);
}

#[test]
fn init_fresh_project_rejects_a_name_collision() {
    let mut manager = AppConfigManager::new(AppConfig::default()).unwrap();
    let err = fresh::init_project(&mut manager, &locations(), "proj", &path("/home/u/proj"), true)
        .unwrap_err();
    assert_eq!(ErrorKind::NameCollision, err.kind);
    assert_eq!(0, manager.get_config().projects.len());
}

#[test]
fn init_project_gets_added_to_the_config_file() {
    let mut manager = AppConfigManager::new(AppConfig::default()).unwrap();
    let sut = ExistingProjectInitializer::new();

    let project_name = "some-project";
    let user_dir = path("/home/u/some-project");

    sut.init_project(&mut manager, project_name, &user_dir, true, &vec![], &vec![], &vec![])
        .unwrap();

    let config_file = manager.get_config();
    assert_eq!(project_name, config_file.projects.first().unwrap().name);
    assert!(config_file.projects.first().unwrap().path.path_eq(&user_dir));
}

#[test]
fn init_existing_secrets_get_symlinked_in_user_dir() {
    let mut manager = AppConfigManager::new(AppConfig::default()).unwrap();
    let sut = ExistingProjectInitializer::new();

    let user_dir = path("/home/u/some-project");
    let files = vec![path("file1"), path("file2")];

    let actions = sut
        .init_project(
            &mut manager,
            "some-project",
            &user_dir,
            true,
            &files,
            &vec![false, false],
            &vec![vec![], vec![]],
        )
        .unwrap();

    assert_eq!(2, actions.len());
    for (index, action) in actions.iter().enumerate() {
        let index = index + 1;
        assert_eq!(format!("/home/u/some-project/file{index}"), action.target.to_string());
        assert!(action.backup_name.is_none());
    }
}

#[test]
fn importing_over_an_occupied_target_backs_it_up_first() {
    let mut manager = AppConfigManager::new(AppConfig::default()).unwrap();
    let sut = ExistingProjectInitializer::new();

    let actions = sut
        .init_project(
            &mut manager,
            "proj",
            &path("/home/u/proj"),
            false,
            &vec![],
            &vec![],
            &vec![],
        );
    assert_eq!(ErrorKind::CorruptedProject, actions.unwrap_err().kind);

    let actions = sut
        .init_project(
            &mut manager,
            "proj",
            &path("/home/u/proj"),
            true,
            &vec![path("conf")],
            &vec![true],
            &vec![vec!["conf".to_string(), "conf.bak".to_string()]],
        )
        .unwrap();
    assert_eq!("conf.bak1", actions[0].backup_name.as_ref().unwrap());
}

#[test]
fn backup_file_when_source_file_exists_then_backup_gets_created() {
    let existing = vec!["some-file".to_string()];
    let name = backup_file_name(&"some-file".to_string(), &existing).unwrap();
    assert_eq!("some-file.bak", name);
}

#[test]
fn backup_file_when_source_file_exists_and_backup_existis_then_new_backup_gets_created() {
    let existing = vec!["some-file".to_string(), "some-file.bak".to_string()];
    let name = backup_file_name(&"some-file".to_string(), &existing).unwrap();
    assert_eq!("some-file.bak1", name);
}

#[test]
fn project_forget_tolerates_unknown_projects_and_confirmation() {
    let config = AppConfig { projects: vec![project("proj", "1", "/home/u/proj")] };
    let mut manager = AppConfigManager::new(config.clone()).unwrap();
    let command = ProjectForgetCommand::new(&ProjectsRetriever::new(config, &locations()));

    let outcome = command
        .forget_project(&mut manager, "ghost", false, true, false, false, &vec![], &vec![], &vec![], &vec![])
        .unwrap();
    assert!(matches!(outcome, ProjectForgetOutcome::NotManaged));

    let outcome = command
        .forget_project(&mut manager, "proj", false, false, false, true, &vec![], &vec![], &vec![], &vec![])
        .unwrap();
    assert!(matches!(outcome, ProjectForgetOutcome::Aborted));
    assert_eq!(1, manager.get_config().projects.len());
}

#[test]
fn project_forget_restores_files_and_unregisters() {
    let config = AppConfig { projects: vec![project("proj", "1", "/home/u/proj")] };
    let mut manager = AppConfigManager::new(config.clone()).unwrap();
    let command = ProjectForgetCommand::new(&ProjectsRetriever::new(config, &locations()));

    let files = vec![path("conf"), path("other")];
    let outcome = command
        .forget_project(
            &mut manager,
            "proj",
            false,
            true,
            false,
            true,
            &files,
            &vec![true, true],
            &vec![true, false],
            &vec![vec![], vec![]],
        )
        .unwrap();

    match outcome {
        ProjectForgetOutcome::Removed { file_actions, remove_managed_dir } => {
            assert_eq!("/home/u/.config/conman/configs/proj", remove_managed_dir.to_string());
            assert_eq!(2, file_actions.len());
            match &file_actions[0] {
                FileTeardown::Restore { target } => {
                    assert_eq!("/home/u/proj/conf", target.to_string())
                },
                _ => panic!("expected a plain restore"),
            }
            match &file_actions[1] {
                FileTeardown::BackupThenRestore { target, backup_name } => {
                    assert_eq!("/home/u/proj/other", target.to_string());
                    assert_eq!("other.bak", backup_name);
                },
                _ => panic!("expected a backup before the restore"),
            }
        },
        _ => panic!("expected a removal"),
    }
    assert_eq!(0, manager.get_config().projects.len());
}

#[test]
fn project_forget_with_delete_removes_links_only() {
    let config = AppConfig { projects: vec![project("proj", "1", "/home/u/proj")] };
    let mut manager = AppConfigManager::new(config.clone()).unwrap();
    let command = ProjectForgetCommand::new(&ProjectsRetriever::new(config, &locations()));

    let files = vec![path("conf"), path("gone")];
    let outcome = command
        .forget_project(
            &mut manager,
            "proj",
            true,
            true,
            false,
            true,
            &files,
            &vec![true, false],
            &vec![true, false],
            &vec![vec![], vec![]],
        )
        .unwrap();

    match outcome {
        ProjectForgetOutcome::Removed { file_actions, .. } => {
            assert!(matches!(&file_actions[0], FileTeardown::RemoveLink { target }
                if target.to_string() == "/home/u/proj/conf"));
            assert!(matches!(&file_actions[1], FileTeardown::Leave));
        },
        _ => panic!("expected a removal"),
    }
    assert_eq!(0, manager.get_config().projects.len());
}

#[test]
fn add_to_git_ignore_when_git_ignore_does_not_exist() {
    let sut = GitIgnoreHandler::new();
    let (result, text) = sut.add_to_git_ignore(false, "testfile");
    assert_eq!(GitIgnoreResult::FileCreated, result);
    assert_eq!("testfile\n", text);
}

#[test]
fn add_to_git_ignore_when_git_ignore_does_exist() {
    let sut = GitIgnoreHandler::new();
    let (result, text) = sut.add_to_git_ignore(true, "testfile");
    assert_eq!(GitIgnoreResult::FileUpdated, result);
    assert_eq!("\ntestfile\n", text);
}

#[test]
fn the_platform_config_dir_is_absolute_when_available() {
    if let Ok(p) = get_base_config_path() {
        assert!(p.absolute);
    }
}
