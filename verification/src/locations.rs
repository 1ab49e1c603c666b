//! Locations of the application's data, and the resolver that maps an
//! arbitrary path to the registered project owning it.
use vstd::prelude::*;

verus! {

use crate::app_config::AppConfig;
use crate::app_config::ProjectModel;
use crate::error::AppError;
use crate::error::ErrorKind;
use crate::paths::FsPath;
use crate::paths::is_prefix_of;
use crate::paths::wf_component;

/// The project at index `i` is associated exactly with the given directory.
pub open spec fn associated_at(m: Seq<ProjectModel>, i: int, abs: bool, path: Seq<Seq<char>>) -> bool {
    0 <= i < m.len() && m[i].path_abs == abs && m[i].path == path
}

/// The project at index `i` owns an ancestor (or the whole) of the given
/// absolute path.
pub open spec fn is_ancestor_project(m: Seq<ProjectModel>, path: Seq<Seq<char>>, i: int) -> bool {
    0 <= i < m.len() && m[i].path_abs && is_prefix_of(m[i].path, path)
}

/// The project at index `i` is the one the resolver owes: its directory is a
/// deepest registered ancestor of the path, and no earlier project shares
/// that directory.
pub open spec fn resolver_hit(m: Seq<ProjectModel>, path: Seq<Seq<char>>, i: int) -> bool {
    &&& is_ancestor_project(m, path, i)
    &&& forall|j: int| #[trigger]
        is_ancestor_project(m, path, j) ==> m[j].path.len() <= m[i].path.len()
    &&& forall|j: int| 0 <= j < i ==> (#[trigger] m[j]).path != m[i].path
}

/// Like `resolver_hit`, considering only the first `n` projects.
pub open spec fn resolver_hit_upto(
    m: Seq<ProjectModel>,
    path: Seq<Seq<char>>,
    n: int,
    i: int,
) -> bool {
    &&& 0 <= i < n
    &&& is_ancestor_project(m, path, i)
    &&& forall|j: int|
        0 <= j < n && #[trigger] is_ancestor_project(m, path, j) ==> m[j].path.len()
            <= m[i].path.len()
    &&& forall|j: int| 0 <= j < i ==> (#[trigger] m[j]).path != m[i].path
}

/// Among the first `n` projects of a well-formed registry, some owner of an
/// ancestor is the one the resolver owes.
proof fn lemma_resolver_hit_upto(m: Seq<ProjectModel>, path: Seq<Seq<char>>, n: int)
    requires
        crate::app_config::wf_registry(m),
        0 < n <= m.len(),
        exists|i: int| 0 <= i < n && #[trigger] is_ancestor_project(m, path, i),
    ensures
        exists|i: int| #[trigger] resolver_hit_upto(m, path, n, i),
    decreases n,
{
    if exists|i: int| 0 <= i < n - 1 && #[trigger] is_ancestor_project(m, path, i) {
        lemma_resolver_hit_upto(m, path, n - 1);
        let i0 = choose|i: int| #[trigger] resolver_hit_upto(m, path, n - 1, i);
        if is_ancestor_project(m, path, n - 1) && m[n - 1].path.len() > m[i0].path.len() {
            assert forall|j: int| 0 <= j < n - 1 implies (#[trigger] m[j]).path != m[n
                - 1].path by {
                if m[j].path == m[n - 1].path {
                    assert(is_ancestor_project(m, path, j));
                    assert(m[j].path.len() <= m[i0].path.len());
                }
            }
            assert(resolver_hit_upto(m, path, n, n - 1));
        } else {
            assert(resolver_hit_upto(m, path, n, i0));
        }
    } else {
        let w = choose|i: int| 0 <= i < n && #[trigger] is_ancestor_project(m, path, i);
        assert(w == n - 1);
        assert forall|j: int| 0 <= j < n - 1 implies (#[trigger] m[j]).path != m[n - 1].path by {
            if m[j].path == m[n - 1].path {
                assert(is_ancestor_project(m, path, j));
            }
        }
        assert(resolver_hit_upto(m, path, n, n - 1));
    }
}

/// In a well-formed registry, wherever some project owns an ancestor of a
/// path, one of them is the project the resolver owes — so the operations
/// that resolve first cannot fail with `NotAssociated` there.
pub proof fn lemma_resolver_hit_exists(m: Seq<ProjectModel>, path: Seq<Seq<char>>)
    requires
        crate::app_config::wf_registry(m),
        exists|i: int| #[trigger] is_ancestor_project(m, path, i),
    ensures
        exists|i: int| #[trigger] resolver_hit(m, path, i),
{
    let w = choose|i: int| #[trigger] is_ancestor_project(m, path, i);
    assert(0 <= w < m.len());
    lemma_resolver_hit_upto(m, path, m.len() as int);
    let i = choose|i: int| #[trigger] resolver_hit_upto(m, path, m.len() as int, i);
    assert(resolver_hit(m, path, i));
}

/// Computes the locations that hold the registry and the managed store.
pub struct LocationsProvider {
    pub config_base_path: FsPath,
}

impl LocationsProvider {
    pub fn new(base_config_path: FsPath) -> (r: LocationsProvider)
        ensures
            r.config_base_path.absolute == base_config_path.absolute,
            r.config_base_path.model() == base_config_path.model(),
    {
        LocationsProvider { config_base_path: base_config_path }
    }

    /// The directory that holds one subdirectory per managed project.
    pub fn get_configs_config_path(&self) -> (r: FsPath)
        ensures
            r.absolute == self.config_base_path.absolute,
            r.model() == self.config_base_path.model().push("configs"@),
            self.config_base_path.wf() ==> r.wf(),
    {
        let r = self.config_base_path.child("configs");
        proof {
            reveal_strlit("configs");
            assert(forall|i: int| 0 <= i < 7 ==> "configs"@[i] != '/');
            assert(wf_component("configs"@));
        }
        r
    }

    /// The registry file itself.
    pub fn get_config_file_path(&self) -> (r: FsPath)
        ensures
            r.absolute == self.config_base_path.absolute,
            r.model() == self.config_base_path.model().push("config.json"@),
            self.config_base_path.wf() ==> r.wf(),
    {
        let r = self.config_base_path.child("config.json");
        proof {
            reveal_strlit("config.json");
            assert(forall|i: int| 0 <= i < 11 ==> "config.json"@[i] != '/');
            assert(wf_component("config.json"@));
        }
        r
    }

    /// The managed directory of one project.
    pub fn get_managed_dir(&self, name: &str) -> (r: FsPath)
        ensures
            r.absolute == self.config_base_path.absolute,
            r.model() == self.config_base_path.model().push("configs"@).push(name@),
            self.config_base_path.wf() && wf_component(name@) ==> r.wf(),
    {
        self.get_configs_config_path().child(name)
    }

    /// The name of the project associated exactly with this directory —
    /// stricter than the resolver: ancestors do not count.
    pub fn get_project_name_by_user_dir(&self, config: &AppConfig, user_dir: &FsPath) -> (r: Result<
        String,
        AppError,
    >)
        ensures
            (r matches Ok(name) ==> exists|i: int|
                associated_at(config.model(), i, user_dir.absolute, user_dir.model())
                    && (#[trigger] config.model()[i]).name == name@ && forall|j: int|
                    0 <= j < i ==> !associated_at(
                        config.model(),
                        j,
                        user_dir.absolute,
                        user_dir.model(),
                    )),
            (r matches Err(e) ==> e.kind == ErrorKind::NotAssociated && forall|i: int|
                !associated_at(config.model(), i, user_dir.absolute, user_dir.model())),
    {
        let n = config.projects.len();
        let mut i: usize = 0;
        while i < n
            invariant
                i <= n,
                n == config.model().len(),
                forall|j: int|
                    0 <= j < i ==> !associated_at(
                        config.model(),
                        j,
                        user_dir.absolute,
                        user_dir.model(),
                    ),
            decreases n - i,
        {
            if config.projects[i].path.path_eq(user_dir) {
                proof {
                    assert(associated_at(
                        config.model(),
                        i as int,
                        user_dir.absolute,
                        user_dir.model(),
                    ));
                }
                return Ok(config.projects[i].name.clone());
            }
            i = i + 1;
        }
        Err(
            AppError::new(
                ErrorKind::NotAssociated,
                "the directory is not associated with any registered project",
            ),
        )
    }

    /// The location resolver: finds the most specific registered project
    /// whose associated directory is the path itself or one of its
    /// ancestors, and returns its name and that directory.
    pub fn find_project_for_path(&self, config: &AppConfig, path: &FsPath) -> (r: Result<
        (String, FsPath),
        AppError,
    >)
        requires
            path.absolute,
            config.wf(),
        ensures
            (r matches Ok(pair) ==> exists|i: int|
                #[trigger] resolver_hit(config.model(), path.model(), i) && config.model()[i].name
                    == pair.0@ && pair.1.absolute && pair.1.model() == config.model()[i].path),
            (r matches Err(e) ==> e.kind == ErrorKind::NotAssociated && forall|i: int|
                !is_ancestor_project(config.model(), path.model(), i)),
    {
        let n = config.projects.len();
        let mut best: Option<usize> = None;
        let mut i: usize = 0;
        while i < n
            invariant
                i <= n,
                n == config.model().len(),
                config.wf(),
                path.absolute,
                match best {
                    Some(b) => {
                        &&& b < i
                        &&& is_ancestor_project(config.model(), path.model(), b as int)
                        &&& forall|j: int|
                            0 <= j < i && #[trigger] is_ancestor_project(
                                config.model(),
                                path.model(),
                                j,
                            ) ==> config.model()[j].path.len() <= config.model()[b as int].path.len()
                        &&& forall|j: int|
                            0 <= j < b ==> (#[trigger] config.model()[j]).path
                                != config.model()[b as int].path
                    },
                    None => forall|j: int|
                        0 <= j < i ==> !is_ancestor_project(config.model(), path.model(), j),
                },
            decreases n - i,
        {
            let p = &config.projects[i];
            if p.path.absolute && path.starts_with(&p.path) {
                proof {
                    assert(is_ancestor_project(config.model(), path.model(), i as int));
                }
                let replace: bool = match best {
                    None => true,
                    Some(b) => p.path.depth() > config.projects[b].path.depth(),
                };
                if replace {
                    proof {
                        assert forall|j: int|
                            0 <= j < i implies (#[trigger] config.model()[j]).path
                            != config.model()[i as int].path by {
                            if config.model()[j].path == config.model()[i as int].path {
                                assert(is_ancestor_project(config.model(), path.model(), j));
                                assert(config.model()[j].path.len() == config.model()[
                                    i as int].path.len());
                                assert(false);
                            }
                        }
                    }
                    best = Some(i);
                }
            }
            i = i + 1;
        }
        match best {
            None => Err(
                AppError::new(
                    ErrorKind::NotAssociated,
                    "no registered project owns this path; initialize one first",
                ),
            ),
            Some(b) => {
                proof {
                    assert(resolver_hit(config.model(), path.model(), b as int));
                }
                Ok((config.projects[b].name.clone(), config.projects[b].path.clone_path()))
            },
        }
    }
}

/// Relies on `directories::ProjectDirs::from` and `config_dir`: the
/// platform's configuration directory for this application, as a path
/// string, or `None` when the platform offers no home directory.  The result
/// depends on the environment, so nothing more is claimed of it.
#[verifier::external_body]
fn platform_config_dir() -> (r: Option<String>) {
    match directories::ProjectDirs::from("com", "marcinjahn", "conman") {
        Some(dirs) => dirs.config_dir().to_str().map(|s| s.to_owned()),
        None => None,
    }
}

/// The base directory for the registry and the managed store, from the
/// platform's conventions.  Fails when the platform offers none or reports
/// one that is not an absolute well-formed path.
pub fn get_base_config_path() -> (r: Result<FsPath, AppError>)
    ensures
        r matches Ok(p) ==> p.absolute && p.wf(),
{
    match platform_config_dir() {
        None => Err(
            AppError::new(
                ErrorKind::Io,
                "the configuration directory of the host could not be found",
            ),
        ),
        Some(s) => {
            match FsPath::from_string(s.as_str()) {
                None => Err(
                    AppError::new(
                        ErrorKind::Io,
                        "the configuration directory of the host is not a plain absolute path",
                    ),
                ),
                Some(p) => {
                    if p.absolute {
                        Ok(p)
                    } else {
                        Err(
                            AppError::new(
                                ErrorKind::Io,
                                "the configuration directory of the host is not a plain absolute path",
                            ),
                        )
                    }
                },
            }
        },
    }
}

} // verus!
