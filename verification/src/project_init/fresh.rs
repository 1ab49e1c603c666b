//! Initializes a fresh project that does not yet exist in the managed
//! store: registers it and names the managed directory the application must
//! create.
use vstd::prelude::*;

verus! {

use crate::app_config::AppConfigManager;
use crate::app_config::has_name;
use crate::error::AppError;
use crate::error::ErrorKind;
use crate::locations::LocationsProvider;
use crate::paths::FsPath;
use crate::paths::wf_component;

/// Registers a fresh project associated with `user_dir` and returns the
/// managed directory to create for it.  `managed_dir_exists` reports
/// whether a managed directory of that name is already on disk; that is a
/// name collision and nothing is changed.
pub fn init_project(
    manager: &mut AppConfigManager,
    locations_provider: &LocationsProvider,
    name: &str,
    user_dir: &FsPath,
    managed_dir_exists: bool,
) -> (r: Result<FsPath, AppError>)
    requires
        old(manager).config.wf(),
        user_dir.absolute,
        user_dir.wf(),
        wf_component(name@),
    ensures
        final(manager).config.wf(),
        managed_dir_exists ==> (r matches Err(e) && e.kind == ErrorKind::NameCollision)
            && final(manager).config.model() == old(manager).config.model(),
        !managed_dir_exists && has_name(old(manager).config.model(), name@) ==> (r matches Err(e)
            && e.kind == ErrorKind::DuplicateName)
            && final(manager).config.model() == old(manager).config.model(),
        !managed_dir_exists && !has_name(old(manager).config.model(), name@) ==> (r matches Ok(dir)
            && {
            &&& dir.absolute == locations_provider.config_base_path.absolute
            &&& dir.model() == locations_provider.config_base_path.model().push("configs"@).push(
                name@,
            )
            &&& final(manager).config.model().len() == old(manager).config.model().len() + 1
            &&& final(manager).config.model().drop_last() == old(manager).config.model()
            &&& final(manager).config.model().last().name == name@
            &&& final(manager).config.model().last().path == user_dir.model()
        }),
{
    if managed_dir_exists {
        return Err(
            AppError::new(
                ErrorKind::NameCollision,
                "a managed directory of this name already exists in the managed store",
            ),
        );
    }
    let managed_dir = locations_provider.get_managed_dir(name);
    match manager.add_project(name, user_dir) {
        Err(e) => Err(e),
        Ok(()) => Ok(managed_dir),
    }
}

} // verus!
