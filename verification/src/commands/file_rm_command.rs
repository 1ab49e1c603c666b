//! The older name of the forget operation; it decides exactly the same
//! plan, so it delegates to the forget handler.
use vstd::prelude::*;

verus! {

use crate::commands::file_forget_command::ForgetCommand;
use crate::commands::file_forget_command::ForgetPlan;
use crate::commands::file_forget_command::forget_contract;
use crate::error::AppError;
use crate::fs_model::FileObservation;
use crate::locations::LocationsProvider;
use crate::paths::FsPath;
use crate::projects::ProjectsRetriever;

/// Handler for removing one file from its owning project.
pub struct RmCommand {
    pub locations_provider: LocationsProvider,
    pub projects_retriever: ProjectsRetriever,
}

impl RmCommand {
    pub fn new(locations_provider: &LocationsProvider, projects_retriever: &ProjectsRetriever) -> (r:
        RmCommand)
        ensures
            r.locations_provider.config_base_path.absolute
                == locations_provider.config_base_path.absolute,
            r.locations_provider.config_base_path.model()
                == locations_provider.config_base_path.model(),
            r.projects_retriever.app_config.model() == projects_retriever.app_config.model(),
    {
        RmCommand {
            locations_provider: LocationsProvider {
                config_base_path: locations_provider.config_base_path.clone_path(),
            },
            projects_retriever: ProjectsRetriever::new(
                projects_retriever.app_config.clone(),
                &projects_retriever.locations_provider,
            ),
        }
    }

    /// Decides how to remove the file at `user_file` (relative paths count
    /// from `current_dir`); the same decision as forgetting it.
    pub fn remove_file(
        &self,
        user_file: &FsPath,
        current_dir: &FsPath,
        delete_file: bool,
        obs: &FileObservation,
    ) -> (r: Result<ForgetPlan, AppError>)
        requires
            self.projects_retriever.app_config.wf(),
            current_dir.absolute,
            self.locations_provider.config_base_path.absolute,
        ensures
            forget_contract(
                self.projects_retriever.app_config,
                self.locations_provider.config_base_path.model(),
                *user_file,
                *current_dir,
                delete_file,
                *obs,
                r,
            ),
    {
        let forget = ForgetCommand::new(&self.locations_provider, &self.projects_retriever);
        let r = forget.forget_file(user_file, current_dir, delete_file, obs);
        proof {
            assert(forget.projects_retriever.app_config.model()
                == self.projects_retriever.app_config.model());
        }
        r
    }
}

} // verus!
