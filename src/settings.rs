//! The configuration snapshot that the index is built from.

use vstd::prelude::*;

verus! {

/// The scan source that stands for the platform package registry.
pub const SETTINGS_VALUE_APPLICATION_SEARCH_PATH_LIST_WINDOWS_STORE_APP: &'static str = "WindowsStoreApp";

/// A display name that the user gives the application at `path`.
#[derive(Clone, Debug)]
pub struct ApplicationNameAlias {
    pub path: String,
    pub alias: String,
}

/// Where candidates are discovered.
#[derive(Debug)]
pub enum ScanSource {
    /// A directory tree, walked for executables and shortcuts.
    Directory(String),
    /// The platform package registry.
    PackageRegistry,
}

/// The scan source that a configured search path names.
pub open spec fn scan_source_of(path: String) -> ScanSource {
    if path@ == SETTINGS_VALUE_APPLICATION_SEARCH_PATH_LIST_WINDOWS_STORE_APP@ {
        ScanSource::PackageRegistry
    } else {
        ScanSource::Directory(path)
    }
}

/// The settings of the index and its window.
#[derive(Clone, Debug)]
pub struct Settings {
    /// Directories to scan, or the package registry's marker.
    pub application_search_path_list: Vec<String>,
    /// Minutes between full scans at startup.
    pub application_search_interval_on_startup_minute: u64,
    /// Logging level: error, warn, info or debug.
    pub log_level: String,
    /// Width of the main window.
    pub width: u32,
    /// Whether the program starts with the session.
    pub auto_startup: bool,
    /// Global shortcut that shows or hides the window.
    pub shortcut_key: String,
    /// Display names by launch path.
    pub application_name_aliases: Vec<ApplicationNameAlias>,
}

/// Settings as read from a file that may leave some of them out.
#[derive(Debug)]
pub struct PartialSettings {
    pub application_search_path_list: Option<Vec<String>>,
    pub application_search_interval_on_startup_minute: Option<u64>,
    pub log_level: Option<String>,
    pub width: Option<u32>,
    pub auto_startup: Option<bool>,
    pub shortcut_key: Option<String>,
    pub application_name_aliases: Option<Vec<ApplicationNameAlias>>,
}

/// The value given, or else the default.
pub open spec fn given_or<T>(given: Option<T>, default: T) -> T {
    match given {
        Some(v) => v,
        None => default,
    }
}

impl Settings {
    /// Completes `partial` with `defaults` field by field.
    pub fn from_partial(partial: PartialSettings, defaults: Settings) -> (r: Settings)
        ensures
            r.application_search_path_list == given_or(
                partial.application_search_path_list,
                defaults.application_search_path_list,
            ),
            r.application_search_interval_on_startup_minute == given_or(
                partial.application_search_interval_on_startup_minute,
                defaults.application_search_interval_on_startup_minute,
            ),
            r.log_level == given_or(partial.log_level, defaults.log_level),
            r.width == given_or(partial.width, defaults.width),
            r.auto_startup == given_or(partial.auto_startup, defaults.auto_startup),
            r.shortcut_key == given_or(partial.shortcut_key, defaults.shortcut_key),
            r.application_name_aliases == given_or(
                partial.application_name_aliases,
                defaults.application_name_aliases,
            ),
    {
        Settings {
            application_search_path_list: match partial.application_search_path_list {
                Some(v) => v,
                None => defaults.application_search_path_list,
            },
            application_search_interval_on_startup_minute:
                match partial.application_search_interval_on_startup_minute {
                Some(v) => v,
                None => defaults.application_search_interval_on_startup_minute,
            },
            log_level: match partial.log_level {
                Some(v) => v,
                None => defaults.log_level,
            },
            width: match partial.width {
                Some(v) => v,
                None => defaults.width,
            },
            auto_startup: match partial.auto_startup {
                Some(v) => v,
                None => defaults.auto_startup,
            },
            shortcut_key: match partial.shortcut_key {
                Some(v) => v,
                None => defaults.shortcut_key,
            },
            application_name_aliases: match partial.application_name_aliases {
                Some(v) => v,
                None => defaults.application_name_aliases,
            },
        }
    }

    pub fn get_application_search_path_list(&self) -> (r: &Vec<String>)
        ensures
            *r == self.application_search_path_list,
    {
        &self.application_search_path_list
    }

    pub fn get_application_search_interval_on_startup_minute(&self) -> (r: u64)
        ensures
            r == self.application_search_interval_on_startup_minute,
    {
        self.application_search_interval_on_startup_minute
    }

    pub fn get_log_level(&self) -> (r: &String)
        ensures
            *r == self.log_level,
    {
        &self.log_level
    }

    pub fn get_width(&self) -> (r: u32)
        ensures
            r == self.width,
    {
        self.width
    }

    pub fn get_auto_startup(&self) -> (r: bool)
        ensures
            r == self.auto_startup,
    {
        self.auto_startup
    }

    pub fn get_shortcut_key(&self) -> (r: &String)
        ensures
            *r == self.shortcut_key,
    {
        &self.shortcut_key
    }

    pub fn get_application_name_aliases(&self) -> (r: &Vec<ApplicationNameAlias>)
        ensures
            *r == self.application_name_aliases,
    {
        &self.application_name_aliases
    }

    /// The scan sources that the search paths name, in order.
    pub fn scan_sources(&self) -> (r: Vec<ScanSource>)
        ensures
            r@ == self.application_search_path_list@.map_values(|p: String| scan_source_of(p)),
    {
        let marker = String::from_str(SETTINGS_VALUE_APPLICATION_SEARCH_PATH_LIST_WINDOWS_STORE_APP);
        let paths = &self.application_search_path_list;
        let mut out: Vec<ScanSource> = Vec::new();
        let mut k: usize = 0;
        while k < paths.len()
            invariant
                k <= paths.len(),
                marker@ == SETTINGS_VALUE_APPLICATION_SEARCH_PATH_LIST_WINDOWS_STORE_APP@,
                out@ == paths@.subrange(0, k as int).map_values(|p: String| scan_source_of(p)),
            decreases paths.len() - k,
        {
            let source = if paths[k] == marker {
                ScanSource::PackageRegistry
            } else {
                ScanSource::Directory(paths[k].clone())
            };
            out.push(source);
            k = k + 1;
            assert(paths@.subrange(0, k as int) =~= paths@.subrange(0, k - 1).push(paths@[k - 1]));
        }
        assert(paths@.subrange(0, k as int) =~= paths@);
        out
    }
}

} // verus!
