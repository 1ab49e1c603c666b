//! Initializing the current directory as a managed project.
//!
//! The decision has two rounds: `init` checks the directory and reports
//! whether unassociated projects are available to pick from; the
//! application then asks the user and drives either the fresh branch
//! (`project_init::fresh`) or the existing branch (`project_init::existing`).
use vstd::prelude::*;

verus! {

use crate::error::AppError;
use crate::error::ErrorKind;
use crate::locations::LocationsProvider;
use crate::locations::associated_at;
use crate::paths::FsPath;
use crate::paths::check_component;
use crate::paths::wf_component;
use crate::projects::ProjectsRetriever;
use crate::projects::unassoc_names;

/// What the caller must do next to finish initializing.
#[derive(Debug)]
pub enum InitStage {
    /// These projects exist in the managed store without an association;
    /// the user picks one of them, or asks for a fresh project.
    ChooseFromUnassociated(Vec<String>),
    /// No unassociated project exists: create a fresh one.
    FreshNeeded,
}

/// Handler for initializing the current directory.
pub struct InitCommand {
    pub projects_retriever: ProjectsRetriever,
    pub locations_provider: LocationsProvider,
}

impl InitCommand {
    /// Checks that the directory is not yet associated and reports which
    /// unassociated projects could be picked.  `disk_projects` is the list
    /// of project names found on disk under the managed store root.
    pub fn init(&self, cwd: &FsPath, disk_projects: &Vec<String>) -> (r: Result<
        InitStage,
        AppError,
    >)
        requires
            self.projects_retriever.app_config.wf(),
        ensures
            (exists|i: int|
                associated_at(
                    self.projects_retriever.app_config.model(),
                    i,
                    cwd.absolute,
                    cwd.model(),
                )) ==> (r matches Err(e) && e.kind == ErrorKind::AlreadyInitialized),
            !(exists|i: int|
                associated_at(
                    self.projects_retriever.app_config.model(),
                    i,
                    cwd.absolute,
                    cwd.model(),
                )) && disk_projects@.len() < self.projects_retriever.app_config.model().len() ==> (
            r matches Err(e) && e.kind == ErrorKind::RegistryInconsistent),
            !(exists|i: int|
                associated_at(
                    self.projects_retriever.app_config.model(),
                    i,
                    cwd.absolute,
                    cwd.model(),
                )) && disk_projects@.len() >= self.projects_retriever.app_config.model().len()
                ==> (r matches Ok(stage) && {
                let unassoc = unassoc_names(
                    disk_projects.deep_view(),
                    self.projects_retriever.app_config.model(),
                );
                if unassoc.len() > 0 {
                    stage matches InitStage::ChooseFromUnassociated(v) && v.deep_view() == unassoc
                } else {
                    stage is FreshNeeded
                }
            }),
    {
        let assoc = match self.projects_retriever.is_associated(cwd) {
            Ok(b) => b,
            Err(e) => {
                return Err(e);
            },
        };
        if assoc {
            return Err(
                AppError::new(
                    ErrorKind::AlreadyInitialized,
                    "this directory is already associated with a project",
                ),
            );
        }
        let unassociated = match self.projects_retriever.get_unassociated_projects(disk_projects) {
            Ok(v) => v,
            Err(e) => {
                return Err(e);
            },
        };
        if unassociated.len() > 0 {
            Ok(InitStage::ChooseFromUnassociated(unassociated))
        } else {
            Ok(InitStage::FreshNeeded)
        }
    }

    /// The name a fresh project gets: the user's input when one was given,
    /// otherwise the directory's base name.  `None` — ask again — when the
    /// candidate is empty or unusable as a directory name.
    pub fn choose_fresh_name(cwd: &FsPath, user_input: &String) -> (r: Option<String>)
        ensures
            r matches Some(s) ==> wf_component(s@) && if user_input@.len() > 0 {
                s@ == user_input@
            } else {
                cwd.model().len() > 0 && s@ == cwd.model().last()
            },
            r is None ==> (user_input@.len() > 0 && !wf_component(user_input@)) || (
            user_input@.len() == 0 && (cwd.model().len() == 0 || !wf_component(
                cwd.model().last(),
            ))),
    {
        if !user_input.as_str().is_empty() {
            if check_component(user_input) {
                Some(user_input.clone())
            } else {
                None
            }
        } else {
            match cwd.file_name() {
                Some(s) => {
                    if check_component(s) {
                        Some(s.clone())
                    } else {
                        None
                    }
                },
                None => None,
            }
        }
    }
}

} // verus!
