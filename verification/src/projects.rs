//! The project catalog: reconciles the registry against the managed store's
//! on-disk project directories.
//!
//! The catalog itself never reads the disk; the caller hands it the list of
//! project names found under the managed store root.
use vstd::prelude::*;

verus! {

use crate::app_config::AppConfig;
use crate::app_config::ProjectModel;
use crate::app_config::has_name;
use crate::error::AppError;
use crate::error::ErrorKind;
use crate::locations::LocationsProvider;
use crate::locations::associated_at;
use crate::paths::FsPath;

/// The disk names that no registered project carries, in disk order.
pub open spec fn unassoc_names(disk: Seq<Seq<char>>, m: Seq<ProjectModel>) -> Seq<Seq<char>>
    decreases disk.len(),
{
    if disk.len() == 0 {
        Seq::empty()
    } else {
        let rest = unassoc_names(disk.drop_last(), m);
        if has_name(m, disk.last()) {
            rest
        } else {
            rest.push(disk.last())
        }
    }
}

/// Everything known of one managed project: where its managed directory is,
/// which directory it is associated with (if any), and the relative paths of
/// the files stored for it.
#[derive(Debug)]
pub struct ProjectDetails {
    pub name: String,
    pub managed_dir: FsPath,
    pub user_dir: Option<FsPath>,
    pub files: Vec<FsPath>,
}

/// Answers questions about the registry and the managed store together.
pub struct ProjectsRetriever {
    pub app_config: AppConfig,
    pub locations_provider: LocationsProvider,
}

impl ProjectsRetriever {
    pub fn new(app_config: AppConfig, locations_provider: &LocationsProvider) -> (r:
        ProjectsRetriever)
        ensures
            r.app_config.model() == app_config.model(),
            r.locations_provider.config_base_path.absolute
                == locations_provider.config_base_path.absolute,
            r.locations_provider.config_base_path.model()
                == locations_provider.config_base_path.model(),
    {
        ProjectsRetriever {
            app_config,
            locations_provider: LocationsProvider {
                config_base_path: locations_provider.config_base_path.clone_path(),
            },
        }
    }

    /// Whether some project is associated exactly with this directory.
    pub fn is_associated(&self, path: &FsPath) -> (r: Result<bool, AppError>)
        ensures
            r matches Ok(b) && b == exists|i: int|
                associated_at(self.app_config.model(), i, path.absolute, path.model()),
    {
        let n = self.app_config.projects.len();
        let mut i: usize = 0;
        while i < n
            invariant
                i <= n,
                n == self.app_config.model().len(),
                forall|j: int|
                    0 <= j < i ==> !associated_at(
                        self.app_config.model(),
                        j,
                        path.absolute,
                        path.model(),
                    ),
            decreases n - i,
        {
            if self.app_config.projects[i].path.path_eq(path) {
                proof {
                    assert(associated_at(
                        self.app_config.model(),
                        i as int,
                        path.absolute,
                        path.model(),
                    ));
                }
                return Ok(true);
            }
            i = i + 1;
        }
        Ok(false)
    }

    /// The names of all registered projects, in registry order.
    pub fn get_associated_projects(&self) -> (r: Vec<String>)
        ensures
            r@.len() == self.app_config.model().len(),
            forall|i: int|
                0 <= i < r@.len() ==> (#[trigger] r@[i])@ == self.app_config.model()[i].name,
    {
        let n = self.app_config.projects.len();
        let mut r: Vec<String> = Vec::new();
        let mut i: usize = 0;
        while i < n
            invariant
                i <= n,
                n == self.app_config.model().len(),
                r@.len() == i,
                forall|j: int|
                    0 <= j < i ==> (#[trigger] r@[j])@ == self.app_config.model()[j].name,
            decreases n - i,
        {
            r.push(self.app_config.projects[i].name.clone());
            i = i + 1;
        }
        r
    }

    /// The names of projects that exist in the managed store but are not yet
    /// associated with any directory on this machine.  `disk_projects` is the
    /// list of subdirectory names found under the managed store root; the
    /// registry referencing more projects than exist on disk is reported as
    /// an inconsistency.
    pub fn get_unassociated_projects(&self, disk_projects: &Vec<String>) -> (r: Result<
        Vec<String>,
        AppError,
    >)
        ensures
            disk_projects@.len() < self.app_config.model().len() ==> (r matches Err(e) && e.kind
                == ErrorKind::RegistryInconsistent),
            disk_projects@.len() >= self.app_config.model().len() ==> (r matches Ok(v)
                && v.deep_view() == unassoc_names(
                disk_projects.deep_view(),
                self.app_config.model(),
            )),
    {
        let n = disk_projects.len();
        if n < self.app_config.projects.len() {
            return Err(
                AppError::new(
                    ErrorKind::RegistryInconsistent,
                    "the registry references projects that do not exist in the managed store",
                ),
            );
        }
        let mut r: Vec<String> = Vec::new();
        let mut i: usize = 0;
        while i < n
            invariant
                i <= n,
                n == disk_projects@.len(),
                r.deep_view() == unassoc_names(
                    disk_projects.deep_view().subrange(0, i as int),
                    self.app_config.model(),
                ),
            decreases n - i,
        {
            let ghost pre = disk_projects.deep_view().subrange(0, i as int);
            let name = &disk_projects[i];
            let present = self.app_config.contains_name(name);
            proof {
                let cur = disk_projects.deep_view().subrange(0, i + 1 as int);
                assert(cur.drop_last() =~= pre);
                assert(cur.last() == name@);
            }
            if !present {
                r.push(name.clone());
                proof {
                    assert(r.deep_view() =~= unassoc_names(
                        disk_projects.deep_view().subrange(0, i + 1 as int),
                        self.app_config.model(),
                    ));
                }
            }
            i = i + 1;
        }
        proof {
            assert(disk_projects.deep_view().subrange(0, n as int) =~= disk_projects.deep_view());
        }
        Ok(r)
    }

    /// The details of one managed project, or `None` when its managed
    /// directory does not exist.  `managed_dir_exists` and `files` report the
    /// on-disk state of the project's managed directory: whether it exists,
    /// and the relative paths of the files below it.
    pub fn get_details(&self, name: &str, managed_dir_exists: bool, files: Vec<FsPath>) -> (r:
        Result<Option<ProjectDetails>, AppError>)
        ensures
            !managed_dir_exists ==> (r matches Ok(d) && d is None),
            managed_dir_exists ==> (r matches Ok(dopt) && dopt matches Some(d) && {
                &&& d.name@ == name@
                &&& d.managed_dir.absolute == self.locations_provider.config_base_path.absolute
                &&& d.managed_dir.model() == self.locations_provider.config_base_path.model().push(
                    "configs"@,
                ).push(name@)
                &&& d.files == files
                &&& match d.user_dir {
                    Some(u) => exists|i: int|
                        0 <= i < self.app_config.model().len() && (#[trigger] self.app_config.model()[i]).name
                            == name@ && u.absolute == self.app_config.model()[i].path_abs
                            && u.model() == self.app_config.model()[i].path,
                    None => !has_name(self.app_config.model(), name@),
                }
            }),
    {
        if !managed_dir_exists {
            return Ok(None);
        }
        let managed_dir = self.locations_provider.get_managed_dir(name);
        let owned_name = name.to_owned();
        let user_dir: Option<FsPath> = match self.app_config.index_of_name(&owned_name) {
            Some(i) => Some(self.app_config.projects[i].path.clone_path()),
            None => None,
        };
        Ok(Some(ProjectDetails { name: owned_name, managed_dir, user_dir, files }))
    }
}

} // verus!
