//! The registry of projects and its in-memory manager.
//!
//! The registry is loaded wholesale, mutated in memory, and written back
//! wholesale; this module holds the verified in-memory operations, while the
//! file itself is read and written by the surrounding application.
use vstd::prelude::*;

verus! {

use crate::error::AppError;
use crate::error::ErrorKind;
use crate::paths::FsPath;
use crate::paths::check_component;
use crate::paths::wf_component;
use crate::paths::wf_components;

/// Spec-level value of one registered project.
pub ghost struct ProjectModel {
    pub name: Seq<char>,
    pub id: Seq<char>,
    pub path_abs: bool,
    pub path: Seq<Seq<char>>,
}

/// No two projects share a name.
pub open spec fn unique_names(m: Seq<ProjectModel>) -> bool {
    forall|i: int, j: int|
        0 <= i < j < m.len() ==> (#[trigger] m[i]).name != (#[trigger] m[j]).name
}

/// Some project in the registry carries this name.
pub open spec fn has_name(m: Seq<ProjectModel>, name: Seq<char>) -> bool {
    exists|i: int| 0 <= i < m.len() && (#[trigger] m[i]).name == name
}

/// Well-formedness of a registry value: every associated path is absolute and
/// well formed, every name is a usable directory name, and names are unique.
pub open spec fn wf_registry(m: Seq<ProjectModel>) -> bool {
    &&& forall|i: int|
        0 <= i < m.len() ==> (#[trigger] m[i]).path_abs && wf_components(m[i].path)
            && wf_component(m[i].name)
    &&& unique_names(m)
}

/// Relies on `uuid::Uuid::new_v4` and the `Display` impl of `Uuid`: a fresh
/// random UUID, rendered in its hyphenated 36-character form.
#[verifier::external_body]
fn fresh_project_id() -> (r: String)
    ensures
        r@.len() == 36,
{
    uuid::Uuid::new_v4().to_string()
}

/// One registered project: a unique name, an opaque id, and the directory it
/// is associated with on this machine.
#[derive(Debug)]
pub struct Project {
    pub name: String,
    pub id: String,
    pub path: FsPath,
}

impl Project {
    pub open spec fn model(&self) -> ProjectModel {
        ProjectModel {
            name: self.name@,
            id: self.id@,
            path_abs: self.path.absolute,
            path: self.path.model(),
        }
    }

    /// Creates a project with a freshly generated id.
    pub fn new(name: &str, user_dir: &FsPath) -> (r: Project)
        ensures
            r.model().name == name@,
            r.model().path == user_dir.model(),
            r.model().path_abs == user_dir.absolute,
            r.model().id.len() == 36,
    {
        Project { name: name.to_owned(), id: fresh_project_id(), path: user_dir.clone_path() }
    }
}

impl Clone for Project {
    fn clone(&self) -> (r: Self)
        ensures
            r.model() == self.model(),
    {
        Project { name: self.name.clone(), id: self.id.clone(), path: self.path.clone_path() }
    }
}

/// The registry: an ordered collection of projects.
#[derive(Debug)]
pub struct AppConfig {
    pub projects: Vec<Project>,
}

impl AppConfig {
    pub open spec fn model(&self) -> Seq<ProjectModel> {
        Seq::new(self.projects@.len(), |i: int| self.projects@[i].model())
    }

    pub open spec fn wf(&self) -> bool {
        wf_registry(self.model())
    }

    /// Whether this registry value is well formed; `true` for anything the
    /// codec produces, checked once for data built by other means.
    pub fn check_wf(&self) -> (b: bool)
        ensures
            b == self.wf(),
    {
        let n = self.projects.len();
        let mut i: usize = 0;
        while i < n
            invariant
                i <= n,
                n == self.projects@.len(),
                forall|k: int|
                    0 <= k < i ==> (#[trigger] self.model()[k]).path_abs && wf_components(
                        self.model()[k].path,
                    ) && wf_component(self.model()[k].name),
            decreases n - i,
        {
            let p = &self.projects[i];
            if !p.path.absolute || !p.path.check_wf() || !check_component(&p.name) {
                proof {
                    assert(self.model()[i as int] == self.projects@[i as int].model());
                    assert(!wf_registry(self.model()));
                }
                return false;
            }
            i = i + 1;
        }
        let mut i: usize = 0;
        while i < n
            invariant
                i <= n,
                n == self.projects@.len(),
                forall|k: int|
                    0 <= k < n ==> (#[trigger] self.model()[k]).path_abs && wf_components(
                        self.model()[k].path,
                    ) && wf_component(self.model()[k].name),
                forall|a: int, b: int|
                    0 <= a < b < n && a < i ==> (#[trigger] self.model()[a]).name
                        != (#[trigger] self.model()[b]).name,
            decreases n - i,
        {
            let mut j: usize = i + 1;
            while j < n
                invariant
                    i < j <= n,
                    n == self.projects@.len(),
                    forall|b: int|
                        i < b < j ==> (#[trigger] self.model()[b]).name != self.model()[i as int].name,
                decreases n - j,
            {
                if self.projects[i].name == self.projects[j].name {
                    proof {
                        assert(self.model()[i as int].name == self.model()[j as int].name);
                        assert(!unique_names(self.model()));
                    }
                    return false;
                }
                j = j + 1;
            }
            i = i + 1;
        }
        true
    }
}

impl AppConfig {
    /// The index of the first project with this name, if any.
    pub fn index_of_name(&self, name: &String) -> (r: Option<usize>)
        ensures
            match r {
                Some(i) => i < self.model().len() && self.model()[i as int].name == name@
                    && forall|j: int| 0 <= j < i ==> (#[trigger] self.model()[j]).name != name@,
                None => !has_name(self.model(), name@),
            },
    {
        let n = self.projects.len();
        let mut i: usize = 0;
        while i < n
            invariant
                i <= n,
                n == self.model().len(),
                forall|j: int| 0 <= j < i ==> (#[trigger] self.model()[j]).name != name@,
            decreases n - i,
        {
            if self.projects[i].name == *name {
                return Some(i);
            }
            i = i + 1;
        }
        None
    }

    /// Whether some project carries this name.
    pub fn contains_name(&self, name: &String) -> (b: bool)
        ensures
            b == has_name(self.model(), name@),
    {
        match self.index_of_name(name) {
            Some(_) => true,
            None => false,
        }
    }
}

impl Default for AppConfig {
    /// The empty registry.
    fn default() -> (r: AppConfig)
        ensures
            r.model() == Seq::<ProjectModel>::empty(),
            r.wf(),
    {
        let r = AppConfig { projects: Vec::new() };
        proof {
            assert(r.model() =~= Seq::<ProjectModel>::empty());
        }
        r
    }
}

impl Clone for AppConfig {
    fn clone(&self) -> (r: Self)
        ensures
            r.model() == self.model(),
    {
        let n = self.projects.len();
        let mut projects: Vec<Project> = Vec::new();
        let mut i: usize = 0;
        while i < n
            invariant
                i <= n,
                n == self.projects@.len(),
                projects@.len() == i,
                forall|k: int| 0 <= k < i ==> (#[trigger] projects@[k]).model() == self.model()[k],
            decreases n - i,
        {
            projects.push(self.projects[i].clone());
            i = i + 1;
        }
        let r = AppConfig { projects };
        proof {
            assert(r.model() =~= self.model());
        }
        r
    }
}

/// In-memory manager of the registry.  All registry mutations go through it;
/// persisting the result is the application's concern.
#[derive(Debug)]
pub struct AppConfigManager {
    pub config: AppConfig,
}

impl AppConfigManager {
    /// Accepts a loaded registry value after validating its invariants.
    pub fn new(config: AppConfig) -> (r: Result<AppConfigManager, AppError>)
        ensures
            config.wf() ==> (r matches Ok(mgr) && mgr.config.model() == config.model()),
            !config.wf() ==> (r matches Err(e) && e.kind == ErrorKind::RegistryCorrupt),
    {
        if config.check_wf() {
            Ok(AppConfigManager { config })
        } else {
            Err(
                AppError::new(
                    ErrorKind::RegistryCorrupt,
                    "the registry lists a project with an invalid name or path, or two projects with one name",
                ),
            )
        }
    }

    /// A copy of the current registry value.
    pub fn get_config(&self) -> (r: AppConfig)
        ensures
            r.model() == self.config.model(),
    {
        self.config.clone()
    }

    /// Appends a new project under a fresh id and reports `DuplicateName`,
    /// leaving the registry unchanged, when the name is already taken.
    pub fn add_project(&mut self, project_name: &str, user_dir: &FsPath) -> (r: Result<
        (),
        AppError,
    >)
        requires
            old(self).config.wf(),
            user_dir.absolute,
            user_dir.wf(),
            wf_component(project_name@),
        ensures
            final(self).config.wf(),
            has_name(old(self).config.model(), project_name@) ==> (r matches Err(e) && e.kind
                == ErrorKind::DuplicateName) && final(self).config.model() == old(
                self,
            ).config.model(),
            !has_name(old(self).config.model(), project_name@) ==> r is Ok && {
                let m = final(self).config.model();
                let m0 = old(self).config.model();
                &&& m.len() == m0.len() + 1
                &&& m.drop_last() == m0
                &&& m.last().name == project_name@
                &&& m.last().path == user_dir.model()
                &&& m.last().path_abs
                &&& m.last().id.len() == 36
            },
    {
        let owned_name = project_name.to_owned();
        match self.config.index_of_name(&owned_name) {
            Some(_) => Err(
                AppError::new(ErrorKind::DuplicateName, "a project of this name already exists"),
            ),
            None => {
                let project = Project::new(project_name, user_dir);
                self.config.projects.push(project);
                proof {
                    let m = self.config.model();
                    let m0 = old(self).config.model();
                    assert(m.drop_last() =~= m0);
                    assert(forall|i: int| 0 <= i < m0.len() ==> m[i] == m0[i]);
                    assert(forall|i: int|
                        0 <= i < m0.len() ==> (#[trigger] m0[i]).name != project_name@);
                    assert(unique_names(m));
                    assert(wf_registry(m));
                }
                Ok(())
            },
        }
    }

    /// Removes the first project of this name; doing nothing — and not
    /// failing — when no project carries it.
    pub fn remove_project(&mut self, name: &str) -> (r: Result<(), AppError>)
        requires
            old(self).config.wf(),
        ensures
            r is Ok,
            final(self).config.wf(),
            !has_name(old(self).config.model(), name@) ==> final(self).config.model() == old(
                self,
            ).config.model(),
            has_name(old(self).config.model(), name@) ==> exists|i: int|
                0 <= i < old(self).config.model().len() && (#[trigger] old(
                    self,
                ).config.model()[i]).name == name@ && final(self).config.model() == old(
                    self,
                ).config.model().remove(i),
    {
        let owned_name = name.to_owned();
        match self.config.index_of_name(&owned_name) {
            None => Ok(()),
            Some(i) => {
                self.config.projects.remove(i);
                proof {
                    let m0 = old(self).config.model();
                    let m = self.config.model();
                    assert(m =~= m0.remove(i as int));
                    assert(forall|a: int|
                        0 <= a < m.len() ==> #[trigger] m[a] == if a < i as int {
                            m0[a]
                        } else {
                            m0[a + 1]
                        });
                }
                Ok(())
            },
        }
    }
}

} // verus!
