//! First-run setup: makes sure the registry file and the managed store
//! root exist on the host.  The decision of what is missing is made here;
//! the application creates what the plan names.
use vstd::prelude::*;

verus! {

use crate::app_config::AppConfig;
use crate::json::spec_config_json;
use crate::locations::LocationsProvider;
use crate::paths::FsPath;

/// What the application must create to finish the first-run setup, in this
/// order: the managed store root (which brings the base directory with
/// it), the registry file with the given content, and the managed store
/// root again if it alone was missing.
#[derive(Debug)]
pub struct InitFilesPlan {
    pub create_base_dir: Option<FsPath>,
    pub create_config_file: Option<FsPath>,
    pub config_file_content: String,
    pub create_configs_dir: Option<FsPath>,
}

/// Makes sure the files the application needs exist on the host.
pub struct AppInitializer {
    pub locations_provider: LocationsProvider,
}

impl AppInitializer {
    /// Decides which of the application's own files are missing and what to
    /// create for them.  The flags report whether the base directory, the
    /// registry file, and the managed store root exist.
    pub fn init(&self, base_exists: bool, config_file_exists: bool, configs_dir_exists: bool) -> (r:
        InitFilesPlan)
        ensures
            !base_exists ==> (r.create_base_dir matches Some(d) && d.absolute
                == self.locations_provider.config_base_path.absolute && d.model()
                == self.locations_provider.config_base_path.model().push("configs"@)),
            base_exists ==> r.create_base_dir is None,
            !config_file_exists ==> (r.create_config_file matches Some(f) && f.absolute
                == self.locations_provider.config_base_path.absolute && f.model()
                == self.locations_provider.config_base_path.model().push("config.json"@)),
            config_file_exists ==> r.create_config_file is None,
            r.config_file_content@ == spec_config_json(Seq::empty()),
            !configs_dir_exists ==> (r.create_configs_dir matches Some(d) && d.absolute
                == self.locations_provider.config_base_path.absolute && d.model()
                == self.locations_provider.config_base_path.model().push("configs"@)),
            configs_dir_exists ==> r.create_configs_dir is None,
    {
        let create_base_dir: Option<FsPath> = if !base_exists {
            Some(self.locations_provider.get_configs_config_path())
        } else {
            None
        };
        let create_config_file: Option<FsPath> = if !config_file_exists {
            Some(self.locations_provider.get_config_file_path())
        } else {
            None
        };
        let empty = AppConfig::default();
        let config_file_content = match empty.to_string() {
            Ok(s) => s,
            Err(_) => {
                proof {
                    assert(false);
                }
                String::new()
            },
        };
        let create_configs_dir: Option<FsPath> = if !configs_dir_exists {
            Some(self.locations_provider.get_configs_config_path())
        } else {
            None
        };
        InitFilesPlan { create_base_dir, create_config_file, config_file_content, create_configs_dir }
    }
}

} // verus!
