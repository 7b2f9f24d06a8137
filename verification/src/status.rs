//! System status reporting: the registered applications and storage
//! figures, composed from the version store.
//!
//! Querying systemd, the filesystem and the security tooling is the
//! caller's part; the projections over the store are decided here.
use vstd::prelude::*;

use crate::config::Config;
use crate::version_manager::VersionManager;

verus! {

/// Why status reporting failed; the detail string is for the operator.
#[derive(Debug)]
pub enum StatusError {
    Io(String),
    SystemdError(String),
    ConfigError(String),
    JsonError(String),
}

/// The security verdict as the status report carries it.
#[derive(Debug, Clone, PartialEq)]
pub enum SecurityStatus {
    Secure,
    Warning(String),
    Error(String),
}

/// One registered application in the status report.
#[derive(Debug)]
pub struct AppImageStatus {
    pub name: String,
    pub version: String,
    pub path: String,
    pub size_bytes: u64,
    pub registered_at: Option<String>,
    pub security_status: Option<SecurityStatus>,
}

/// One systemd unit's state in the status report.
#[derive(Debug)]
pub struct UnitStatus {
    pub name: String,
    pub loaded: bool,
    pub enabled: bool,
    pub active: bool,
    pub state: String,
}

/// Space used under one root directory.
#[derive(Debug, PartialEq)]
pub struct DirectoryUsage {
    pub path: String,
    pub file_count: u64,
    pub size_bytes: u64,
}

impl Clone for DirectoryUsage {
    fn clone(&self) -> (r: Self)
        ensures
            r == *self,
    {
        DirectoryUsage {
            path: self.path.clone(),
            file_count: self.file_count,
            size_bytes: self.size_bytes,
        }
    }
}

/// The three storage roots and their combined size.
#[derive(Debug)]
pub struct StorageUsage {
    pub bin_dir: DirectoryUsage,
    pub raw_dir: DirectoryUsage,
    pub icon_dir: DirectoryUsage,
    pub total_size_bytes: u64,
}

/// The three per-directory figures combined; the total is their sum.
pub fn combine_storage_usage(
    bin_dir: DirectoryUsage,
    raw_dir: DirectoryUsage,
    icon_dir: DirectoryUsage,
) -> (r: StorageUsage)
    requires
        bin_dir.size_bytes + raw_dir.size_bytes + icon_dir.size_bytes <= u64::MAX,
    ensures
        r.bin_dir == bin_dir,
        r.raw_dir == raw_dir,
        r.icon_dir == icon_dir,
        r.total_size_bytes == bin_dir.size_bytes + raw_dir.size_bytes + icon_dir.size_bytes,
{
    let total_size_bytes = bin_dir.size_bytes + raw_dir.size_bytes + icon_dir.size_bytes;
    StorageUsage { bin_dir, raw_dir, icon_dir, total_size_bytes }
}

/// Composes status reports over the version store.
pub struct StatusReporter {
    pub config: Config,
    pub version_manager: VersionManager,
}

impl StatusReporter {
    pub fn new(config: Config) -> (r: Self)
        ensures
            r.config == config,
            r.version_manager.config == config,
            r.version_manager.ledgers@ == Seq::<crate::metadata::AppMetadata>::empty(),
    {
        let vm_config = config.clone();
        StatusReporter { config, version_manager: VersionManager::new(vm_config) }
    }

    /// The most recent install time across every ledger, if any version is
    /// recorded at all.
    pub fn get_last_scan_timestamp(&self) -> (r: Option<i64>)
        ensures
            match r {
                Some(t) => (exists|i: int, j: int|
                    0 <= i < self.version_manager.ledgers@.len() && 0 <= j
                        < self.version_manager.ledgers@[i].versions@.len() && (
                    #[trigger] self.version_manager.ledgers@[i].versions@[j]).installed_at == t)
                    && (forall|i: int, j: int|
                    0 <= i < self.version_manager.ledgers@.len() && 0 <= j
                        < self.version_manager.ledgers@[i].versions@.len() ==> (
                    #[trigger] self.version_manager.ledgers@[i].versions@[j]).installed_at <= t),
                None => forall|i: int|
                    0 <= i < self.version_manager.ledgers@.len()
                        ==> (#[trigger] self.version_manager.ledgers@[i]).versions@.len() == 0,
            },
    {
        let ls = &self.version_manager.ledgers;
        let n = ls.len();
        let mut best: Option<i64> = None;
        let mut i: usize = 0;
        while i < n
            invariant
                i <= n,
                n == ls@.len(),
                ls@ == self.version_manager.ledgers@,
                match best {
                    Some(t) => (exists|a: int, b: int|
                        0 <= a < i && 0 <= b < ls@[a].versions@.len() && (
                        #[trigger] ls@[a].versions@[b]).installed_at == t) && (forall|
                        a: int,
                        b: int,
                    |
                        0 <= a < i && 0 <= b < ls@[a].versions@.len() ==> (
                        #[trigger] ls@[a].versions@[b]).installed_at <= t),
                    None => forall|a: int|
                        0 <= a < i ==> (#[trigger] ls@[a]).versions@.len() == 0,
                },
            decreases n - i,
        {
            let vs = &ls[i].versions;
            let m = vs.len();
            let mut j: usize = 0;
            while j < m
                invariant
                    j <= m,
                    i < n,
                    n == ls@.len(),
                    m == ls@[i as int].versions@.len(),
                    vs@ == ls@[i as int].versions@,
                    ls@ == self.version_manager.ledgers@,
                    match best {
                        Some(t) => ((exists|a: int, b: int|
                            0 <= a < i && 0 <= b < ls@[a].versions@.len() && (
                            #[trigger] ls@[a].versions@[b]).installed_at == t) || (exists|b: int|
                            0 <= b < j && (#[trigger] vs@[b]).installed_at == t)) && (forall|
                            a: int,
                            b: int,
                        |
                            0 <= a < i && 0 <= b < ls@[a].versions@.len() ==> (
                            #[trigger] ls@[a].versions@[b]).installed_at <= t) && (forall|b: int|
                            0 <= b < j ==> (#[trigger] vs@[b]).installed_at <= t),
                        None => (forall|a: int| 0 <= a < i ==> (#[trigger] ls@[a]).versions@.len()
                            == 0) && j == 0,
                    },
                decreases m - j,
            {
                let t = vs[j].installed_at;
                let take = match best {
                    Some(b) => t > b,
                    None => true,
                };
                if take {
                    best = Some(t);
                    proof {
                        assert(0 <= j < j + 1 && vs@[j as int].installed_at == t);
                    }
                }
                j += 1;
            }
            i += 1;
        }
        best
    }
}

} // verus!
