//! Where the application keeps its data.
use vstd::prelude::*;

use crate::actions::{home_directory, join_path, joined_path};

verus! {

/// The application's data directory and the file that holds the shortcuts.
#[derive(Clone, Debug, PartialEq, Eq)]
pub struct AppConfig {
    pub data_dir: String,
    pub settings_file: String,
}

/// The data directory under the home directory `home`.
pub open spec fn data_dir_in(home: Seq<char>) -> Seq<char> {
    joined_path(home, ".shortcut-artisan"@)
}

/// The shortcut file in the data directory `dir`.
pub open spec fn settings_file_in(dir: Seq<char>) -> Seq<char> {
    joined_path(dir, "settings.json"@)
}

impl AppConfig {
    /// The configuration of a user whose home directory is `home`.
    pub fn for_home(home: &str) -> (r: AppConfig)
        ensures
            r.data_dir@ == data_dir_in(home@),
            r.settings_file@ == settings_file_in(r.data_dir@),
    {
        let data_dir = join_path(home, ".shortcut-artisan");
        let settings_file = join_path(data_dir.as_str(), "settings.json");
        AppConfig { data_dir, settings_file }
    }

    /// The configuration of the current user; none when the home directory
    /// is unknown.
    pub fn global() -> (r: Option<AppConfig>)
        ensures
            r is Some ==> exists|home: Seq<char>|
                r->Some_0.data_dir@ == data_dir_in(home) && r->Some_0.settings_file@
                    == settings_file_in(r->Some_0.data_dir@),
    {
        match home_directory() {
            Some(home) => Some(AppConfig::for_home(home.as_str())),
            None => None,
        }
    }
}

} // verus!
