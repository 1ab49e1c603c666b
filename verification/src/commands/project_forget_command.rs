//! Tearing a whole project down: per tracked file either discard the
//! user-side link or put a real copy of the content back, then drop the
//! managed directory and the registry entry.
use vstd::prelude::*;

verus! {

use crate::app_config::AppConfigManager;
use crate::app_config::ProjectModel;
use crate::app_config::has_name;
use crate::app_config::unique_names;
use crate::error::AppError;
use crate::error::ErrorKind;
use crate::fs_utils::backup_file_name;
use crate::fs_utils::is_first_free_backup;
use crate::paths::FsPath;
use crate::projects::ProjectsRetriever;

/// What the application does with one tracked file's user-side path.
#[derive(Debug)]
pub enum FileTeardown {
    /// Remove the symlink at the target; the managed copy is discarded
    /// along with the managed directory.
    RemoveLink { target: FsPath },
    /// Put a real copy of the managed content at the target (removing the
    /// symlink there first, if one exists).
    Restore { target: FsPath },
    /// The target is occupied by something that is no symlink: copy it
    /// aside under the backup name, then restore as above.
    BackupThenRestore { target: FsPath, backup_name: String },
    /// Nothing to do for this file.
    Leave,
}

/// How the teardown ended.
#[derive(Debug)]
pub enum ProjectForgetOutcome {
    /// No such managed project; reported and treated as success.
    NotManaged,
    /// The user declined the confirmation; nothing was changed.
    Aborted,
    /// The project is removed from the registry; the application performs
    /// the per-file actions, then removes the managed directory.
    Removed { file_actions: Vec<FileTeardown>, remove_managed_dir: FsPath },
}

/// Handler for removing a whole project.
pub struct ProjectForgetCommand {
    pub projects_retriever: ProjectsRetriever,
}

impl ProjectForgetCommand {
    pub fn new(projects_retriever: &ProjectsRetriever) -> (r: ProjectForgetCommand)
        ensures
            r.projects_retriever.app_config.model() == projects_retriever.app_config.model(),
            r.projects_retriever.locations_provider.config_base_path.absolute
                == projects_retriever.locations_provider.config_base_path.absolute,
            r.projects_retriever.locations_provider.config_base_path.model()
                == projects_retriever.locations_provider.config_base_path.model(),
    {
        ProjectForgetCommand {
            projects_retriever: ProjectsRetriever::new(
                projects_retriever.app_config.clone(),
                &projects_retriever.locations_provider,
            ),
        }
    }

    /// Decides the teardown of the named project.  `managed_dir_exists` and
    /// `files` report the project's managed directory; `target_exists`,
    /// `target_is_symlink` and `dir_entries` report, per file, the state of
    /// its place in the associated directory.  Unless `skip_confirmation`,
    /// `confirmed` carries the user's answer.  With `delete_files` the
    /// managed copies are discarded; otherwise each file is restored.
    pub fn forget_project(
        &self,
        manager: &mut AppConfigManager,
        name: &str,
        delete_files: bool,
        skip_confirmation: bool,
        confirmed: bool,
        managed_dir_exists: bool,
        files: &Vec<FsPath>,
        target_exists: &Vec<bool>,
        target_is_symlink: &Vec<bool>,
        dir_entries: &Vec<Vec<String>>,
    ) -> (r: Result<ProjectForgetOutcome, AppError>)
        requires
            old(manager).config.wf(),
            old(manager).config.model() == self.projects_retriever.app_config.model(),
            self.projects_retriever.locations_provider.config_base_path.absolute,
            target_exists@.len() == files@.len(),
            target_is_symlink@.len() == files@.len(),
            dir_entries@.len() == files@.len(),
            forall|i: int|
                0 <= i < files@.len() ==> !(#[trigger] files@[i]).absolute && files@[i].model().len()
                    > 0,
            forall|i: int| 0 <= i < dir_entries@.len() ==> (#[trigger] dir_entries@[i])@.len() < usize::MAX,
        ensures
            final(manager).config.wf(),
            !managed_dir_exists ==> (r matches Ok(o) && o is NotManaged) && final(manager).config.model() == old(manager).config.model(),
            managed_dir_exists && !skip_confirmation && !confirmed ==> (r matches Ok(o) && o
                is Aborted) && final(manager).config.model() == old(manager).config.model(),
            managed_dir_exists && (skip_confirmation || confirmed) ==> (r matches Ok(o)
                && o matches ProjectForgetOutcome::Removed {
                file_actions,
                remove_managed_dir,
            } && {
                &&& remove_managed_dir.absolute
                &&& remove_managed_dir.model()
                    == self.projects_retriever.locations_provider.config_base_path.model().push(
                    "configs"@,
                ).push(name@)
                &&& (!has_name(old(manager).config.model(), name@) ==> final(manager).config.model()
                    == old(manager).config.model())
                &&& (has_name(old(manager).config.model(), name@) ==> exists|i: int|
                    0 <= i < old(manager).config.model().len() && (#[trigger] old(manager).config.model()[i]).name == name@ && final(manager).config.model() == old(manager).config.model().remove(i))
                &&& file_actions@.len() == files@.len()
                &&& forall|i: int|
                    0 <= i < files@.len() ==> teardown_correct(
                        #[trigger] file_actions@[i],
                        files@[i],
                        target_exists@[i],
                        target_is_symlink@[i],
                        dir_entries@[i],
                        delete_files,
                        user_dir_model(old(manager).config.model(), name@),
                    )
            }),
    {
        if !managed_dir_exists {
            return Ok(ProjectForgetOutcome::NotManaged);
        }
        if !skip_confirmation && !confirmed {
            return Ok(ProjectForgetOutcome::Aborted);
        }
        let owned_name = name.to_owned();
        let user_dir: Option<FsPath> = match self.projects_retriever.app_config.index_of_name(
            &owned_name,
        ) {
            Some(j) => Some(self.projects_retriever.app_config.projects[j].path.clone_path()),
            None => None,
        };
        let n = files.len();
        let mut file_actions: Vec<FileTeardown> = Vec::new();
        let mut i: usize = 0;
        while i < n
            invariant
                i <= n,
                n == files@.len(),
                target_exists@.len() == n,
                target_is_symlink@.len() == n,
                dir_entries@.len() == n,
                managed_dir_exists,
                skip_confirmation || confirmed,
                forall|k: int|
                    0 <= k < n ==> !(#[trigger] files@[k]).absolute && files@[k].model().len() > 0,
                forall|k: int| 0 <= k < n ==> (#[trigger] dir_entries@[k])@.len() < usize::MAX,
                manager.config.wf(),
                manager.config == old(manager).config,
                manager.config.model() == self.projects_retriever.app_config.model(),
                match user_dir {
                    Some(u) => has_name(manager.config.model(), name@) && u.absolute
                        && exists|j: int|
                        0 <= j < manager.config.model().len() && (#[trigger] manager.config.model()[j]).name
                            == name@ && u.model() == manager.config.model()[j].path,
                    None => !has_name(manager.config.model(), name@),
                },
                file_actions@.len() == i,
                forall|k: int|
                    0 <= k < i ==> teardown_correct(
                        #[trigger] file_actions@[k],
                        files@[k],
                        target_exists@[k],
                        target_is_symlink@[k],
                        dir_entries@[k],
                        delete_files,
                        user_dir_model(manager.config.model(), name@),
                    ),
            decreases n - i,
        {
            let file = &files[i];
            let action: FileTeardown = match &user_dir {
                None => FileTeardown::Leave,
                Some(u) => {
                    proof {
                        lemma_user_dir_model(manager.config.model(), name@, *u);
                    }
                    let target = u.join(file);
                    if delete_files {
                        if target_is_symlink[i] {
                            FileTeardown::RemoveLink { target }
                        } else {
                            FileTeardown::Leave
                        }
                    } else {
                        if target_exists[i] && !target_is_symlink[i] {
                            let base = match file.file_name() {
                                Some(s) => s,
                                None => {
                                    proof {
                                        assert(false);
                                    }
                                    return Err(AppError::new(ErrorKind::Io, "unreachable"));
                                },
                            };
                            match backup_file_name(base, &dir_entries[i]) {
                                Ok(b) => FileTeardown::BackupThenRestore {
                                    target,
                                    backup_name: b,
                                },
                                Err(e) => {
                                    proof {
                                        assert(false);
                                    }
                                    return Err(e);
                                },
                            }
                        } else {
                            FileTeardown::Restore { target }
                        }
                    }
                },
            };
            file_actions.push(action);
            i = i + 1;
        }
        let remove_managed_dir = self.projects_retriever.locations_provider.get_managed_dir(name);
        match manager.remove_project(name) {
            Ok(()) => {},
            Err(e) => {
                return Err(e);
            },
        }
        Ok(ProjectForgetOutcome::Removed { file_actions, remove_managed_dir })
    }
}

/// The directory associated with the named project, as the registry holds
/// it, or `None` when the name is absent.
pub open spec fn user_dir_model(m: Seq<ProjectModel>, name: Seq<char>) -> Option<Seq<Seq<char>>> {
    if has_name(m, name) {
        Some(m[choose|j: int| 0 <= j < m.len() && (#[trigger] m[j]).name == name].path)
    } else {
        None
    }
}

/// With unique names, any project carrying the name determines the
/// associated directory.
pub proof fn lemma_user_dir_model(m: Seq<ProjectModel>, name: Seq<char>, u: FsPath)
    requires
        unique_names(m),
        exists|j: int|
            0 <= j < m.len() && (#[trigger] m[j]).name == name && u.model() == m[j].path,
    ensures
        user_dir_model(m, name) == Some(u.model()),
{
    let j1 = choose|j: int|
        0 <= j < m.len() && (#[trigger] m[j]).name == name && u.model() == m[j].path;
    assert(has_name(m, name));
    let j2 = choose|j: int| 0 <= j < m.len() && (#[trigger] m[j]).name == name;
    if j1 != j2 {
        if j1 < j2 {
            assert(m[j1].name != m[j2].name);
        } else {
            assert(m[j2].name != m[j1].name);
        }
        assert(false);
    }
}

/// One teardown action is the one owed for the file's observed state.
pub open spec fn teardown_correct(
    action: FileTeardown,
    file: FsPath,
    target_exists: bool,
    target_is_symlink: bool,
    dir_entries: Vec<String>,
    delete_files: bool,
    user_dir: Option<Seq<Seq<char>>>,
) -> bool {
    match user_dir {
        None => action is Leave,
        Some(u) => {
            if delete_files {
                if target_is_symlink {
                    action matches FileTeardown::RemoveLink { target } && target.absolute
                        && target.model() == u + file.model()
                } else {
                    action is Leave
                }
            } else {
                if target_exists && !target_is_symlink {
                    action matches FileTeardown::BackupThenRestore { target, backup_name }
                        && target.absolute && target.model() == u + file.model()
                        && is_first_free_backup(
                        file.model().last(),
                        dir_entries.deep_view(),
                        backup_name@,
                    )
                } else {
                    action matches FileTeardown::Restore { target } && target.absolute
                        && target.model() == u + file.model()
                }
            }
        },
    }
}

} // verus!
