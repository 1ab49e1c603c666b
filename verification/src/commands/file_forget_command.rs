//! Deciding how a single file leaves the managed store.
//!
//! `forget_file` checks that the file really is managed, then returns the
//! steps to apply: drop the user-side link, optionally restore the content
//! as a plain file, and remove the managed entry.  The application carries
//! the plan out; its effect on the filesystem is `apply_forget`.
use vstd::prelude::*;

verus! {

use crate::app_config::AppConfig;
use crate::error::AppError;
use crate::error::ErrorKind;
use crate::fs_model::FileObservation;
use crate::fs_model::FsModel;
use crate::fs_model::FsNode;
use crate::fs_model::content_of;
use crate::locations::LocationsProvider;
use crate::locations::is_ancestor_project;
use crate::locations::resolver_hit;
use crate::paths::FsPath;
use crate::projects::ProjectsRetriever;
use crate::commands::add_command::lemma_resolver_hit_unique;
use crate::commands::add_command::managed_file_model;
use crate::commands::add_command::resolved_model;

/// The steps `forget_file` decided on; the application executes them in
/// this order: remove the user-side link, restore the content, remove the
/// managed entry, then prune the managed entry's own directory if it ended
/// up empty.
#[derive(Debug)]
pub struct ForgetPlan {
    pub project_name: String,
    pub relative_path: FsPath,
    pub user_file: FsPath,
    pub managed_file: FsPath,
    /// The user path is an existing symlink and is to be removed.
    pub remove_user_link: bool,
    /// The managed content is to be copied back to the user path.
    pub restore_content: bool,
    /// A subdirectory of the project's managed directory that held the
    /// entry; remove it if removing the entry left it empty (best effort).
    pub remove_managed_parent_if_empty: Option<FsPath>,
}

/// What carrying a forget plan out does to the filesystem.
pub open spec fn apply_forget(
    fs: FsModel,
    user: Seq<Seq<char>>,
    managed: Seq<Seq<char>>,
    remove_user_link: bool,
    restore_content: bool,
) -> FsModel {
    let after_unlink = if remove_user_link {
        FsModel { nodes: fs.nodes.remove(user) }
    } else {
        fs
    };
    let after_restore = if restore_content {
        FsModel { nodes: after_unlink.nodes.insert(user, FsNode::File(content_of(fs, managed))) }
    } else {
        after_unlink
    };
    FsModel { nodes: after_restore.nodes.remove(managed) }
}

/// Handler for removing one file from its owning project.
pub struct ForgetCommand {
    pub locations_provider: LocationsProvider,
    pub projects_retriever: ProjectsRetriever,
}

impl ForgetCommand {
    pub fn new(locations_provider: &LocationsProvider, projects_retriever: &ProjectsRetriever) -> (r:
        ForgetCommand)
        ensures
            r.locations_provider.config_base_path.absolute
                == locations_provider.config_base_path.absolute,
            r.locations_provider.config_base_path.model()
                == locations_provider.config_base_path.model(),
            r.projects_retriever.app_config.model() == projects_retriever.app_config.model(),
    {
        ForgetCommand {
            locations_provider: LocationsProvider {
                config_base_path: locations_provider.config_base_path.clone_path(),
            },
            projects_retriever: ProjectsRetriever::new(
                projects_retriever.app_config.clone(),
                &projects_retriever.locations_provider,
            ),
        }
    }

    /// Decides how to forget the file at `user_file` (relative paths count
    /// from `current_dir`).  With `delete_file` the managed content is
    /// discarded; without it the content is restored as a plain file.
    pub fn forget_file(
        &self,
        user_file: &FsPath,
        current_dir: &FsPath,
        delete_file: bool,
        obs: &FileObservation,
    ) -> (r: Result<ForgetPlan, AppError>)
        requires
            self.projects_retriever.app_config.wf(),
            current_dir.absolute,
            self.locations_provider.config_base_path.absolute,
        ensures
            forget_contract(
                self.projects_retriever.app_config,
                self.locations_provider.config_base_path.model(),
                *user_file,
                *current_dir,
                delete_file,
                *obs,
                r,
            ),
    {
        let abs = if user_file.absolute {
            user_file.clone_path()
        } else {
            current_dir.join(user_file)
        };
        proof {
            assert(abs.absolute);
            assert(abs.model() == resolved_model(*user_file, *current_dir));
        }
        let config = &self.projects_retriever.app_config;
        if obs.user_is_dir && !delete_file {
            return Err(
                AppError::new(
                    ErrorKind::IsDirectory,
                    "the path points at a directory; a file path is required",
                ),
            );
        }
        let (project_name, project_root) = match self.locations_provider.find_project_for_path(
            config,
            &abs,
        ) {
            Err(e) => {
                return Err(e);
            },
            Ok(pair) => pair,
        };
        let ghost iw: int = choose|i: int|
            #[trigger] resolver_hit(config.model(), abs.model(), i) && config.model()[i].name
                == project_name@ && project_root.absolute && project_root.model()
                == config.model()[i].path;
        proof {
            assert forall|i: int|
                resolver_hit(config.model(), abs.model(), i) implies i == iw by {
                lemma_resolver_hit_unique(config.model(), abs.model(), i, iw);
            }
        }
        let rel = match abs.strip_prefix(&project_root) {
            Some(rel) => rel,
            None => {
                proof {
                    assert(false);
                }
                return Err(AppError::new(ErrorKind::NotAssociated, "unreachable"));
            },
        };
        if rel.depth() == 0 {
            return Err(
                AppError::new(
                    ErrorKind::IsDirectory,
                    "the path is a project root; a file inside the project is expected",
                ),
            );
        }
        if !obs.managed_exists {
            return Err(
                AppError::new(
                    ErrorKind::NotTracked,
                    "no managed entry exists for this file; it was never added",
                ),
            );
        }
        let user_is_symlink = match &obs.user_link_target {
            Some(_) => true,
            None => false,
        };
        if obs.user_exists && !user_is_symlink {
            return Err(
                AppError::new(
                    ErrorKind::NotASymlink,
                    "the file exists but is not a managed symlink; resolve the local file first",
                ),
            );
        }
        let managed_file = self.locations_provider.get_managed_dir(project_name.as_str()).join(
            &rel,
        );
        let remove_managed_parent_if_empty: Option<FsPath> = if rel.depth() >= 2 {
            match managed_file.parent() {
                Some(d) => Some(d),
                None => None,
            }
        } else {
            None
        };
        Ok(
            ForgetPlan {
                project_name,
                relative_path: rel,
                user_file: abs,
                managed_file,
                remove_user_link: obs.user_exists,
                restore_content: !delete_file,
                remove_managed_parent_if_empty,
            },
        )
    }
}

/// The full contract of deciding a forget: which error each observed state
/// is owed, and the exact plan returned when the operation is allowed.
pub open spec fn forget_contract(
    config: AppConfig,
    base: Seq<Seq<char>>,
    user_file: FsPath,
    current_dir: FsPath,
    delete_file: bool,
    obs: FileObservation,
    r: Result<ForgetPlan, AppError>,
) -> bool {
    &&& (obs.user_is_dir && !delete_file ==> (r matches Err(e) && e.kind == ErrorKind::IsDirectory))
    &&& ((!(obs.user_is_dir && !delete_file) && forall|i: int|
        !is_ancestor_project(config.model(), resolved_model(user_file, current_dir), i)) ==> (
    r matches Err(e) && e.kind == ErrorKind::NotAssociated))
    &&& (!(obs.user_is_dir && !delete_file) ==> forall|i: int|
        #[trigger] resolver_hit(config.model(), resolved_model(user_file, current_dir), i) ==> {
            let m = config.model();
            let abs = resolved_model(user_file, current_dir);
            let rel = abs.subrange(m[i].path.len() as int, abs.len() as int);
            &&& (rel.len() == 0 ==> (r matches Err(e) && e.kind == ErrorKind::IsDirectory))
            &&& (rel.len() > 0 && !obs.managed_exists ==> (r matches Err(e) && e.kind
                == ErrorKind::NotTracked))
            &&& (rel.len() > 0 && obs.managed_exists && obs.user_exists && obs.user_link_target
                is None ==> (r matches Err(e) && e.kind == ErrorKind::NotASymlink))
            &&& (rel.len() > 0 && obs.managed_exists && (!obs.user_exists || obs.user_link_target
                is Some) ==> (r matches Ok(plan) && {
                &&& plan.project_name@ == m[i].name
                &&& !plan.relative_path.absolute
                &&& plan.relative_path.model() == rel
                &&& plan.user_file.absolute
                &&& plan.user_file.model() == abs
                &&& plan.managed_file.absolute
                &&& plan.managed_file.model() == managed_file_model(base, m[i].name, rel)
                &&& plan.remove_user_link == obs.user_exists
                &&& plan.restore_content == !delete_file
                &&& (rel.len() >= 2 ==> (plan.remove_managed_parent_if_empty matches Some(d)
                    && d.absolute && d.model() == managed_file_model(base, m[i].name, rel).drop_last()))
                &&& (rel.len() < 2 ==> plan.remove_managed_parent_if_empty is None)
            }))
        })
}

} // verus!
