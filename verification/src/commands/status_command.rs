//! Reporting which project owns the current directory and what it stores.
use vstd::prelude::*;

verus! {

use crate::commands::add_command::lemma_resolver_hit_unique;
use crate::error::AppError;
use crate::locations::LocationsProvider;
use crate::locations::is_ancestor_project;
use crate::locations::resolver_hit;
use crate::paths::FsPath;
use crate::projects::ProjectsRetriever;

/// What `status` found out about the current directory.
#[derive(Debug)]
pub enum StatusReport {
    /// No registered project owns the directory, or the owning project's
    /// managed directory is gone.
    NotManaged,
    /// The owning project and the relative paths of its managed files.
    Managed { project_name: String, files: Vec<FsPath> },
}

/// Handler for the status query.
pub struct StatusCommand {
    pub locations_provider: LocationsProvider,
    pub projects_retriever: ProjectsRetriever,
}

impl StatusCommand {
    pub fn new(locations_provider: &LocationsProvider, projects_retriever: &ProjectsRetriever) -> (r:
        StatusCommand)
        ensures
            r.locations_provider.config_base_path.absolute
                == locations_provider.config_base_path.absolute,
            r.locations_provider.config_base_path.model()
                == locations_provider.config_base_path.model(),
            r.projects_retriever.app_config.model() == projects_retriever.app_config.model(),
    {
        StatusCommand {
            locations_provider: LocationsProvider {
                config_base_path: locations_provider.config_base_path.clone_path(),
            },
            projects_retriever: ProjectsRetriever::new(
                projects_retriever.app_config.clone(),
                &projects_retriever.locations_provider,
            ),
        }
    }

    /// Resolves the owning project of `cwd` and reports its managed files.
    /// `managed_dir_exists` and `files` report the on-disk state of the
    /// owning project's managed directory (they are ignored when no project
    /// owns the directory).
    pub fn status(&self, cwd: &FsPath, managed_dir_exists: bool, files: Vec<FsPath>) -> (r: Result<
        StatusReport,
        AppError,
    >)
        requires
            cwd.absolute,
            self.projects_retriever.app_config.wf(),
        ensures
            r is Ok,
            (forall|i: int|
                !is_ancestor_project(self.projects_retriever.app_config.model(), cwd.model(), i))
                ==> (r matches Ok(rep) && rep is NotManaged),
            forall|i: int|
                #[trigger] resolver_hit(
                    self.projects_retriever.app_config.model(),
                    cwd.model(),
                    i,
                ) ==> (r matches Ok(rep) && if managed_dir_exists {
                    rep matches StatusReport::Managed { project_name, files: fl } && project_name@
                        == self.projects_retriever.app_config.model()[i].name && fl == files
                } else {
                    rep is NotManaged
                }),
    {
        let config = &self.projects_retriever.app_config;
        let (project_name, _project_root) = match self.locations_provider.find_project_for_path(
            config,
            cwd,
        ) {
            Err(_) => {
                return Ok(StatusReport::NotManaged);
            },
            Ok(pair) => pair,
        };
        let ghost iw: int = choose|i: int|
            #[trigger] resolver_hit(config.model(), cwd.model(), i) && config.model()[i].name
                == project_name@;
        proof {
            assert forall|i: int|
                resolver_hit(config.model(), cwd.model(), i) implies i == iw by {
                lemma_resolver_hit_unique(config.model(), cwd.model(), i, iw);
            }
        }
        let details = match self.projects_retriever.get_details(
            project_name.as_str(),
            managed_dir_exists,
            files,
        ) {
            Ok(d) => d,
            Err(e) => {
                return Err(e);
            },
        };
        match details {
            None => Ok(StatusReport::NotManaged),
            Some(d) => Ok(StatusReport::Managed { project_name: d.name, files: d.files }),
        }
    }
}

} // verus!
