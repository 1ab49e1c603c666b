//! Deciding how a single file is added to the managed store.
//!
//! `add_file` classifies the observed on-disk state of the user-side file
//! and its managed counterpart, and returns the transition to apply; the
//! application carries the transition out with real filesystem calls, whose
//! effect is `apply_add_action`.
use vstd::prelude::*;

verus! {

use crate::app_config::AppConfig;
use crate::error::AppError;
use crate::error::ErrorKind;
use crate::fs_model::FileObservation;
use crate::fs_model::FsModel;
use crate::fs_model::FsNode;
use crate::fs_model::content_of;
use crate::locations::LocationsProvider;
use crate::locations::is_ancestor_project;
use crate::locations::resolver_hit;
use crate::paths::FsPath;

/// The transition `add_file` decided on.
#[derive(PartialEq, Eq, Structural, Clone, Copy, Debug)]
pub enum AddAction {
    /// Neither side exists: create an empty managed file, then link the
    /// user path to it.
    CreateFreshAndLink,
    /// Only the managed file exists: re-establish the lost user-side link.
    LinkToExisting,
    /// Only the user file exists: move its content into the managed store,
    /// then link the user path to it.
    MoveInAndLink,
    /// The user path is already the correct link; nothing to do.
    AlreadyManaged,
    /// Both sides exist and the user path is not the expected link; nothing
    /// is mutated and the user is asked to resolve the conflict.
    Conflict,
}

/// Which state pair the observation is in, and so which transition applies.
pub open spec fn spec_classify(obs: FileObservation, managed: Seq<Seq<char>>) -> AddAction {
    if !obs.user_exists && !obs.managed_exists {
        AddAction::CreateFreshAndLink
    } else if !obs.user_exists {
        AddAction::LinkToExisting
    } else if !obs.managed_exists {
        AddAction::MoveInAndLink
    } else if obs.user_link_target matches Some(t) && t.absolute && t.model() == managed {
        AddAction::AlreadyManaged
    } else {
        AddAction::Conflict
    }
}

/// Whether the transition changes the filesystem at all.
pub open spec fn is_mutating(action: AddAction) -> bool {
    match action {
        AddAction::CreateFreshAndLink => true,
        AddAction::LinkToExisting => true,
        AddAction::MoveInAndLink => true,
        AddAction::AlreadyManaged => false,
        AddAction::Conflict => false,
    }
}

/// What carrying the transition out does to the filesystem.
pub open spec fn apply_add_action(
    fs: FsModel,
    user: Seq<Seq<char>>,
    managed: Seq<Seq<char>>,
    action: AddAction,
) -> FsModel {
    match action {
        AddAction::CreateFreshAndLink => FsModel {
            nodes: fs.nodes.insert(managed, FsNode::File(Seq::empty())).insert(
                user,
                FsNode::Symlink(true, managed),
            ),
        },
        AddAction::LinkToExisting => FsModel {
            nodes: fs.nodes.insert(user, FsNode::Symlink(true, managed)),
        },
        AddAction::MoveInAndLink => FsModel {
            nodes: fs.nodes.insert(managed, FsNode::File(content_of(fs, user))).insert(
                user,
                FsNode::Symlink(true, managed),
            ),
        },
        AddAction::AlreadyManaged => fs,
        AddAction::Conflict => fs,
    }
}

/// The absolute location a possibly relative input path denotes.
pub open spec fn resolved_model(user_file: FsPath, current_dir: FsPath) -> Seq<Seq<char>> {
    if user_file.absolute {
        user_file.model()
    } else {
        current_dir.model() + user_file.model()
    }
}

/// Where the managed counterpart of a file lives: under the managed store
/// root, in the project's directory, at the file's project-relative path.
pub open spec fn managed_file_model(
    base: Seq<Seq<char>>,
    name: Seq<char>,
    rel: Seq<Seq<char>>,
) -> Seq<Seq<char>> {
    base.push("configs"@).push(name) + rel
}

/// Two resolver hits are the same project.
pub proof fn lemma_resolver_hit_unique(
    m: Seq<crate::app_config::ProjectModel>,
    path: Seq<Seq<char>>,
    i: int,
    j: int,
)
    requires
        resolver_hit(m, path, i),
        resolver_hit(m, path, j),
    ensures
        i == j,
{
    if i != j {
        assert(m[i].path.len() <= m[j].path.len());
        assert(m[j].path.len() <= m[i].path.len());
        assert(m[i].path =~= m[j].path) by {
            assert(m[i].path == path.subrange(0, m[i].path.len() as int));
            assert(m[j].path == path.subrange(0, m[j].path.len() as int));
        }
        if i < j {
            assert(m[i].path != m[j].path);
        } else {
            assert(m[j].path != m[i].path);
        }
        assert(false);
    }
}

/// Classifies one observed state pair.
pub fn classify(obs: &FileObservation, managed_file: &FsPath) -> (action: AddAction)
    requires
        managed_file.absolute,
    ensures
        action == spec_classify(*obs, managed_file.model()),
{
    if !obs.user_exists && !obs.managed_exists {
        AddAction::CreateFreshAndLink
    } else if !obs.user_exists {
        AddAction::LinkToExisting
    } else if !obs.managed_exists {
        AddAction::MoveInAndLink
    } else {
        match &obs.user_link_target {
            Some(t) => {
                if t.path_eq(managed_file) {
                    AddAction::AlreadyManaged
                } else {
                    AddAction::Conflict
                }
            },
            None => AddAction::Conflict,
        }
    }
}

/// The full decision `add_file` returns; the application executes it.
#[derive(Debug)]
pub struct AddPlan {
    pub project_name: String,
    pub relative_path: FsPath,
    pub user_file: FsPath,
    pub managed_file: FsPath,
    pub action: AddAction,
    pub gitignore_entry: Option<String>,
}

/// Handler for adding one file to its owning project.
pub struct AddCommand {
    pub locations_provider: LocationsProvider,
}

impl AddCommand {
    pub fn new(locations_provider: &LocationsProvider) -> (r: AddCommand)
        ensures
            r.locations_provider.config_base_path.absolute
                == locations_provider.config_base_path.absolute,
            r.locations_provider.config_base_path.model()
                == locations_provider.config_base_path.model(),
    {
        AddCommand {
            locations_provider: LocationsProvider {
                config_base_path: locations_provider.config_base_path.clone_path(),
            },
        }
    }

    /// Decides how to add the file at `user_file` (relative paths count from
    /// `current_dir`) given the observed on-disk state.
    pub fn add_file(
        &self,
        config: &AppConfig,
        user_file: &FsPath,
        current_dir: &FsPath,
        add_to_ignore: bool,
        obs: &FileObservation,
    ) -> (r: Result<AddPlan, AppError>)
        requires
            config.wf(),
            current_dir.absolute,
            self.locations_provider.config_base_path.absolute,
        ensures
            obs.user_is_dir ==> (r matches Err(e) && e.kind == ErrorKind::IsDirectory),
            (!obs.user_is_dir && forall|i: int|
                !is_ancestor_project(
                    config.model(),
                    resolved_model(*user_file, *current_dir),
                    i,
                )) ==> (r matches Err(e) && e.kind == ErrorKind::NotAssociated),
            !obs.user_is_dir ==> forall|i: int|
                #[trigger] resolver_hit(
                    config.model(),
                    resolved_model(*user_file, *current_dir),
                    i,
                ) ==> {
                    let m = config.model();
                    let abs = resolved_model(*user_file, *current_dir);
                    let rel = abs.subrange(m[i].path.len() as int, abs.len() as int);
                    &&& (rel.len() == 0 ==> (r matches Err(e) && e.kind == ErrorKind::IsDirectory))
                    &&& (rel.len() > 0 && !obs.managed_dir_exists ==> (r matches Err(e) && e.kind
                        == ErrorKind::CorruptedProject))
                    &&& (rel.len() > 0 && obs.managed_dir_exists ==> (r matches Ok(plan) && {
                        &&& plan.project_name@ == m[i].name
                        &&& !plan.relative_path.absolute
                        &&& plan.relative_path.model() == rel
                        &&& plan.user_file.absolute
                        &&& plan.user_file.model() == abs
                        &&& plan.managed_file.absolute
                        &&& plan.managed_file.model() == managed_file_model(
                            self.locations_provider.config_base_path.model(),
                            m[i].name,
                            rel,
                        )
                        &&& plan.action == spec_classify(*obs, plan.managed_file.model())
                        &&& if add_to_ignore && is_mutating(plan.action) {
                            plan.gitignore_entry matches Some(g) && g@ == rel.last()
                        } else {
                            plan.gitignore_entry is None
                        }
                    }))
                },
    {
        let abs = if user_file.absolute {
            user_file.clone_path()
        } else {
            current_dir.join(user_file)
        };
        proof {
            assert(abs.absolute);
            assert(abs.model() == resolved_model(*user_file, *current_dir));
        }
        if obs.user_is_dir {
            return Err(
                AppError::new(
                    ErrorKind::IsDirectory,
                    "the path points at a directory; a file is expected, existing or not",
                ),
            );
        }
        let (project_name, project_root) = match self.locations_provider.find_project_for_path(
            config,
            &abs,
        ) {
            Err(e) => {
                return Err(e);
            },
            Ok(pair) => pair,
        };
        let ghost iw: int = choose|i: int|
            #[trigger] resolver_hit(config.model(), abs.model(), i) && config.model()[i].name
                == project_name@ && project_root.absolute && project_root.model()
                == config.model()[i].path;
        let rel = match abs.strip_prefix(&project_root) {
            Some(rel) => rel,
            None => {
                proof {
                    assert(false);
                }
                return Err(AppError::new(ErrorKind::NotAssociated, "unreachable"));
            },
        };
        if rel.depth() == 0 {
            proof {
                assert forall|i: int|
                    resolver_hit(config.model(), abs.model(), i) implies i == iw by {
                    lemma_resolver_hit_unique(config.model(), abs.model(), i, iw);
                }
            }
            return Err(
                AppError::new(
                    ErrorKind::IsDirectory,
                    "the path is a project root; a file inside the project is expected",
                ),
            );
        }
        if !obs.managed_dir_exists {
            proof {
                assert forall|i: int|
                    resolver_hit(config.model(), abs.model(), i) implies i == iw by {
                    lemma_resolver_hit_unique(config.model(), abs.model(), i, iw);
                }
            }
            return Err(
                AppError::new(
                    ErrorKind::CorruptedProject,
                    "the project is registered but its managed directory is missing",
                ),
            );
        }
        let managed_file = self.locations_provider.get_managed_dir(project_name.as_str()).join(
            &rel,
        );
        let action = classify(obs, &managed_file);
        let want_ignore = add_to_ignore && match action {
            AddAction::CreateFreshAndLink => true,
            AddAction::LinkToExisting => true,
            AddAction::MoveInAndLink => true,
            AddAction::AlreadyManaged => false,
            AddAction::Conflict => false,
        };
        let gitignore_entry: Option<String> = if want_ignore {
            match rel.file_name() {
                Some(s) => Some(s.clone()),
                None => None,
            }
        } else {
            None
        };
        let plan = AddPlan {
            project_name,
            relative_path: rel,
            user_file: abs,
            managed_file,
            action,
            gitignore_entry,
        };
        proof {
            assert forall|i: int|
                resolver_hit(config.model(), resolved_model(*user_file, *current_dir), i) implies i
                == iw by {
                lemma_resolver_hit_unique(
                    config.model(),
                    resolved_model(*user_file, *current_dir),
                    i,
                    iw,
                );
            }
        }
        Ok(plan)
    }
}

} // verus!
