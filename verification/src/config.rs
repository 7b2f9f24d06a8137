//! Configuration: the five root directories and the engine's feature flags.
//!
//! Loading from file and environment is I/O and lives with the caller; the
//! defaults and accessors are defined here.
use vstd::prelude::*;

verus! {

/// Why configuration loading failed; the detail string is for the operator.
#[derive(Debug)]
pub enum ConfigError {
    IoError(String),
    ParseError(String),
    EnvVarError(String),
}

#[derive(Debug, PartialEq)]
pub struct Directories {
    pub raw: String,
    pub bin: String,
    pub icons: String,
    pub desktop: String,
    pub symlink: String,
    pub home_root: String,
}

impl Clone for Directories {
    fn clone(&self) -> (r: Self)
        ensures
            r == *self,
    {
        Directories {
            raw: self.raw.clone(),
            bin: self.bin.clone(),
            icons: self.icons.clone(),
            desktop: self.desktop.clone(),
            symlink: self.symlink.clone(),
            home_root: self.home_root.clone(),
        }
    }
}

impl Default for Directories {
    fn default() -> (r: Self)
        ensures
            r.raw@ == "/opt/applications/raw"@,
            r.bin@ == "/opt/applications/bin"@,
            r.icons@ == "/opt/applications/icons"@,
            r.desktop@ == "/usr/share/applications"@,
            r.symlink@ == "/usr/local/bin"@,
            r.home_root@ == "/home"@,
    {
        Directories {
            raw: "/opt/applications/raw".to_owned(),
            bin: "/opt/applications/bin".to_owned(),
            icons: "/opt/applications/icons".to_owned(),
            desktop: "/usr/share/applications".to_owned(),
            symlink: "/usr/local/bin".to_owned(),
            home_root: "/home".to_owned(),
        }
    }
}

#[derive(Debug, PartialEq)]
pub struct Logging {
    pub level: String,
    pub json_output: bool,
}

impl Clone for Logging {
    fn clone(&self) -> (r: Self)
        ensures
            r == *self,
    {
        Logging { level: self.level.clone(), json_output: self.json_output }
    }
}

impl Default for Logging {
    fn default() -> (r: Self)
        ensures
            r.level@ == "info"@,
            !r.json_output,
    {
        Logging { level: "info".to_owned(), json_output: false }
    }
}

#[derive(Debug, Clone, Copy, PartialEq, Eq, Structural)]
pub struct Security {
    pub verify_signatures: bool,
    pub require_signatures: bool,
    pub warn_unsigned: bool,
    pub detect_sandboxing: bool,
}

impl Default for Security {
    fn default() -> (r: Self)
        ensures
            !r.verify_signatures,
            !r.require_signatures,
            r.warn_unsigned,
            r.detect_sandboxing,
    {
        Security {
            verify_signatures: false,
            require_signatures: false,
            warn_unsigned: true,
            detect_sandboxing: true,
        }
    }
}

#[derive(Debug, Clone, Copy, PartialEq, Eq, Structural)]
pub struct Updates {
    pub auto_update_enabled: bool,
    pub backup_enabled: bool,
    pub max_backups: usize,
}

impl Default for Updates {
    fn default() -> (r: Self)
        ensures
            !r.auto_update_enabled,
            r.backup_enabled,
            r.max_backups == 3,
    {
        Updates { auto_update_enabled: false, backup_enabled: true, max_backups: 3 }
    }
}

#[derive(Debug, Clone, Copy, PartialEq, Eq, Structural)]
pub struct Versions {
    pub max_versions_per_app: usize,
    pub auto_cleanup_enabled: bool,
}

impl Default for Versions {
    fn default() -> (r: Self)
        ensures
            r.max_versions_per_app == 5,
            r.auto_cleanup_enabled,
    {
        Versions { max_versions_per_app: 5, auto_cleanup_enabled: true }
    }
}

/// Relies on num_cpus's `get`: the number of logical processors, which its
/// documentation promises is at least one.
#[verifier::external_body]
fn available_workers() -> (r: usize)
    ensures
        r >= 1,
{
    num_cpus::get()
}

#[derive(Debug, Clone, Copy, PartialEq, Eq, Structural)]
pub struct Performance {
    pub parallel_processing_enabled: bool,
    pub thread_pool_size: usize,
    pub metadata_cache_enabled: bool,
    pub incremental_scan_enabled: bool,
    pub performance_metrics_enabled: bool,
}

impl Default for Performance {
    fn default() -> (r: Self)
        ensures
            r.parallel_processing_enabled,
            r.thread_pool_size >= 1,
            r.metadata_cache_enabled,
            r.incremental_scan_enabled,
            r.performance_metrics_enabled,
    {
        Performance {
            parallel_processing_enabled: true,
            thread_pool_size: available_workers(),
            metadata_cache_enabled: true,
            incremental_scan_enabled: true,
            performance_metrics_enabled: true,
        }
    }
}

#[derive(Debug, PartialEq)]
pub struct Config {
    pub directories: Directories,
    pub logging: Logging,
    pub updates: Updates,
    pub versions: Versions,
    pub security: Security,
    pub performance: Performance,
}

impl Clone for Config {
    fn clone(&self) -> (r: Self)
        ensures
            r == *self,
    {
        Config {
            directories: self.directories.clone(),
            logging: self.logging.clone(),
            updates: self.updates,
            versions: self.versions,
            security: self.security,
            performance: self.performance,
        }
    }
}

impl Default for Config {
    fn default() -> (r: Self)
        ensures
            r.directories.raw@ == "/opt/applications/raw"@,
            r.directories.bin@ == "/opt/applications/bin"@,
            r.directories.icons@ == "/opt/applications/icons"@,
            r.directories.desktop@ == "/usr/share/applications"@,
            r.directories.symlink@ == "/usr/local/bin"@,
            r.directories.home_root@ == "/home"@,
            r.logging.level@ == "info"@,
            !r.logging.json_output,
            !r.updates.auto_update_enabled,
            r.updates.backup_enabled,
            r.updates.max_backups == 3,
            r.versions.max_versions_per_app == 5,
            r.versions.auto_cleanup_enabled,
            !r.security.verify_signatures,
            !r.security.require_signatures,
            r.security.warn_unsigned,
            r.security.detect_sandboxing,
            r.performance.parallel_processing_enabled,
            r.performance.thread_pool_size >= 1,
            r.performance.metadata_cache_enabled,
            r.performance.incremental_scan_enabled,
            r.performance.performance_metrics_enabled,
    {
        Config {
            directories: Directories::default(),
            logging: Logging::default(),
            updates: Updates::default(),
            versions: Versions::default(),
            security: Security::default(),
            performance: Performance::default(),
        }
    }
}

impl Config {
    pub fn raw_dir(&self) -> (r: String)
        ensures
            r@ == self.directories.raw@,
    {
        self.directories.raw.clone()
    }

    pub fn bin_dir(&self) -> (r: String)
        ensures
            r@ == self.directories.bin@,
    {
        self.directories.bin.clone()
    }

    pub fn icon_dir(&self) -> (r: String)
        ensures
            r@ == self.directories.icons@,
    {
        self.directories.icons.clone()
    }

    pub fn desktop_dir(&self) -> (r: String)
        ensures
            r@ == self.directories.desktop@,
    {
        self.directories.desktop.clone()
    }

    pub fn symlink_dir(&self) -> (r: String)
        ensures
            r@ == self.directories.symlink@,
    {
        self.directories.symlink.clone()
    }

    pub fn home_root(&self) -> (r: String)
        ensures
            r@ == self.directories.home_root@,
    {
        self.directories.home_root.clone()
    }

    pub fn log_level(&self) -> (r: &str)
        ensures
            r@ == self.logging.level@,
    {
        self.logging.level.as_str()
    }

    pub fn json_output(&self) -> (r: bool)
        ensures
            r == self.logging.json_output,
    {
        self.logging.json_output
    }
}

} // verus!
