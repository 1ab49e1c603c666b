//! Associates a directory with a project that already exists in the managed
//! store, and plans the import of its files into the user directory.
use vstd::prelude::*;

verus! {

use crate::app_config::AppConfigManager;
use crate::app_config::has_name;
use crate::error::AppError;
use crate::error::ErrorKind;
use crate::fs_utils::backup_file_name;
use crate::fs_utils::is_first_free_backup;
use crate::paths::FsPath;
use crate::paths::wf_component;

/// One file brought from the managed store into the user directory: link
/// `target` to the managed file at the relative path `file` — after backing
/// the occupied target up under `backup_name` and removing it, where one is
/// given.
#[derive(Debug)]
pub struct ImportAction {
    pub file: FsPath,
    pub target: FsPath,
    pub backup_name: Option<String>,
}

/// Initializes a project that already exists in the managed store.
pub struct ExistingProjectInitializer {}

impl ExistingProjectInitializer {
    pub fn new() -> (r: ExistingProjectInitializer) {
        ExistingProjectInitializer {  }
    }

    /// Registers the association and plans one import per managed file.
    /// `target_exists` reports, for each file, whether something already
    /// occupies its place in the user directory; `dir_entries` lists, for
    /// each file, the names in the target's directory, from which an
    /// occupied target's backup name is chosen.
    pub fn init_project(
        &self,
        manager: &mut AppConfigManager,
        name: &str,
        user_dir: &FsPath,
        managed_dir_exists: bool,
        managed_files: &Vec<FsPath>,
        target_exists: &Vec<bool>,
        dir_entries: &Vec<Vec<String>>,
    ) -> (r: Result<Vec<ImportAction>, AppError>)
        requires
            old(manager).config.wf(),
            user_dir.absolute,
            user_dir.wf(),
            wf_component(name@),
            target_exists@.len() == managed_files@.len(),
            dir_entries@.len() == managed_files@.len(),
            forall|i: int|
                0 <= i < managed_files@.len() ==> !(#[trigger] managed_files@[i]).absolute
                    && managed_files@[i].model().len() > 0,
            forall|i: int| 0 <= i < dir_entries@.len() ==> (#[trigger] dir_entries@[i])@.len() < usize::MAX,
        ensures
            final(manager).config.wf(),
            !managed_dir_exists ==> (r matches Err(e) && e.kind == ErrorKind::CorruptedProject)
                && final(manager).config.model() == old(manager).config.model(),
            managed_dir_exists && has_name(old(manager).config.model(), name@) ==> (r matches Err(e)
                && e.kind == ErrorKind::DuplicateName) && final(manager).config.model() == old(
                manager,
            ).config.model(),
            managed_dir_exists && !has_name(old(manager).config.model(), name@) ==> {
                &&& final(manager).config.model().len() == old(manager).config.model().len() + 1
                &&& final(manager).config.model().drop_last() == old(manager).config.model()
                &&& final(manager).config.model().last().name == name@
                &&& final(manager).config.model().last().path == user_dir.model()
                &&& (r matches Ok(actions) && {
                    &&& actions@.len() == managed_files@.len()
                    &&& forall|i: int|
                        0 <= i < actions@.len() ==> {
                            let a = #[trigger] actions@[i];
                            &&& !a.file.absolute
                            &&& a.file.model() == managed_files@[i].model()
                            &&& a.target.absolute
                            &&& a.target.model() == user_dir.model() + managed_files@[i].model()
                            &&& (target_exists@[i] ==> (a.backup_name matches Some(b)
                                && is_first_free_backup(
                                managed_files@[i].model().last(),
                                dir_entries@[i].deep_view(),
                                b@,
                            )))
                            &&& (!target_exists@[i] ==> a.backup_name is None)
                        }
                })
            },
    {
        if !managed_dir_exists {
            return Err(
                AppError::new(
                    ErrorKind::CorruptedProject,
                    "the project's directory does not exist in the managed store",
                ),
            );
        }
        match manager.add_project(name, user_dir) {
            Err(e) => {
                return Err(e);
            },
            Ok(()) => {},
        }
        let n = managed_files.len();
        let mut actions: Vec<ImportAction> = Vec::new();
        let mut i: usize = 0;
        while i < n
            invariant
                i <= n,
                n == managed_files@.len(),
                target_exists@.len() == n,
                dir_entries@.len() == n,
                user_dir.absolute,
                managed_dir_exists,
                !has_name(old(manager).config.model(), name@),
                manager.config.wf(),
                manager.config.model().len() == old(manager).config.model().len() + 1,
                manager.config.model().drop_last() == old(manager).config.model(),
                manager.config.model().last().name == name@,
                manager.config.model().last().path == user_dir.model(),
                forall|k: int|
                    0 <= k < n ==> !(#[trigger] managed_files@[k]).absolute
                        && managed_files@[k].model().len() > 0,
                forall|k: int| 0 <= k < n ==> (#[trigger] dir_entries@[k])@.len() < usize::MAX,
                actions@.len() == i,
                forall|k: int|
                    0 <= k < i ==> {
                        let a = #[trigger] actions@[k];
                        &&& !a.file.absolute
                        &&& a.file.model() == managed_files@[k].model()
                        &&& a.target.absolute
                        &&& a.target.model() == user_dir.model() + managed_files@[k].model()
                        &&& (target_exists@[k] ==> (a.backup_name matches Some(b)
                            && is_first_free_backup(
                            managed_files@[k].model().last(),
                            dir_entries@[k].deep_view(),
                            b@,
                        )))
                        &&& (!target_exists@[k] ==> a.backup_name is None)
                    },
            decreases n - i,
        {
            let file = &managed_files[i];
            let target = user_dir.join(file);
            let backup_name: Option<String> = if target_exists[i] {
                let base = match file.file_name() {
                    Some(s) => s,
                    None => {
                        proof {
                            assert(false);
                        }
                        return Err(AppError::new(ErrorKind::Io, "unreachable"));
                    },
                };
                match backup_file_name(base, &dir_entries[i]) {
                    Ok(b) => Some(b),
                    Err(e) => {
                        proof {
                            assert(false);
                        }
                        return Err(e);
                    },
                }
            } else {
                None
            };
            actions.push(ImportAction { file: file.clone_path(), target, backup_name });
            i = i + 1;
        }
        Ok(actions)
    }
}

} // verus!
