//! Update checking and rollback over the registered applications.
//!
//! Invoking a bundle's own update channel is the caller's part; what its
//! answer means, which payloads are registered, and which version a
//! rollback returns to are decided here.
use vstd::prelude::*;

use crate::config::Config;
use crate::metadata::VersionInfo;
use crate::metadata::find_active_from;
use crate::normalize::normalize_spec;
use crate::normalize::normalize_appimage_name;
use crate::processor::parse_version_spec;
use crate::processor::parse_trailing_version;
use crate::text::file_name_of;
use crate::text::file_name_spec;
use crate::text::stem_of;
use crate::text::stem_spec;
use crate::text::string_of;
use crate::text::trim_spaces_spec;
use crate::text::trim_spaces_vec;
use crate::text::chars_of;
use crate::version_manager::LinkReceipt;
use crate::version_manager::VersionError;
use crate::version_manager::VersionManager;
use crate::version_manager::app_index;
use crate::version_manager::has_app;
use crate::version_manager::orders_before;

verus! {

/// Why an update operation failed; the detail string is for the operator.
#[derive(Debug)]
pub enum UpdateError {
    Io(String),
    AppImage(String),
    Config(String),
    UpdateFailed(String),
    NoUpdatesAvailable,
    BackupFailed(String),
    RollbackFailed(String),
    Version(VersionError),
}

/// What an update check found for one application.
#[derive(Debug)]
pub struct UpdateInfo {
    pub name: String,
    pub current_version: Option<String>,
    pub new_version: Option<String>,
    pub update_available: bool,
    pub path: String,
}

/// The outcome of one update run.
#[derive(Debug)]
pub struct UpdateReport {
    pub checked: Vec<UpdateInfo>,
    pub updated: Vec<String>,
    pub failed: Vec<(String, String)>,
    pub skipped: Vec<String>,
}

/// How many of `s[i..]` found an update available.
pub open spec fn avail_from(s: Seq<UpdateInfo>, i: int) -> int
    decreases s.len() - i,
{
    if i < 0 || i >= s.len() {
        0
    } else {
        (if s[i].update_available {
            1int
        } else {
            0int
        }) + avail_from(s, i + 1)
    }
}

impl UpdateReport {
    pub fn new() -> (r: Self)
        ensures
            r.checked@ == Seq::<UpdateInfo>::empty(),
            r.updated@ == Seq::<String>::empty(),
            r.failed@ == Seq::<(String, String)>::empty(),
            r.skipped@ == Seq::<String>::empty(),
    {
        UpdateReport {
            checked: Vec::new(),
            updated: Vec::new(),
            failed: Vec::new(),
            skipped: Vec::new(),
        }
    }

    pub fn has_updates_available(&self) -> (r: bool)
        ensures
            r == exists|i: int|
                0 <= i < self.checked@.len() && (#[trigger] self.checked@[i]).update_available,
    {
        let n = self.checked.len();
        let mut i: usize = 0;
        while i < n
            invariant
                i <= n,
                n == self.checked@.len(),
                forall|j: int| 0 <= j < i ==> !(#[trigger] self.checked@[j]).update_available,
            decreases n - i,
        {
            if self.checked[i].update_available {
                return true;
            }
            i += 1;
        }
        false
    }

    pub fn updates_available_count(&self) -> (r: usize)
        ensures
            r as int == avail_from(self.checked@, 0),
    {
        let n = self.checked.len();
        let mut cnt: usize = 0;
        let mut i: usize = 0;
        while i < n
            invariant
                i <= n,
                cnt <= i,
                n == self.checked@.len(),
                cnt as int + avail_from(self.checked@, i as int) == avail_from(self.checked@, 0),
            decreases n - i,
        {
            if self.checked[i].update_available {
                cnt += 1;
            }
            i += 1;
        }
        cnt
    }
}

/// Record `k` is the rollback target: inactive, and retained in preference
/// to every other inactive record.
pub open spec fn best_inactive(s: Seq<VersionInfo>, k: int) -> bool {
    &&& 0 <= k < s.len()
    &&& !s[k].is_active
    &&& forall|j: int|
        0 <= j < s.len() && !(#[trigger] s[j]).is_active && j != k ==> orders_before(
            s[k]@,
            k,
            s[j]@,
            j,
        )
}

/// The version a rollback returns to: the most recently installed inactive
/// record, if any.
pub fn select_rollback_target(versions: &Vec<VersionInfo>) -> (r: Option<String>)
    ensures
        match r {
            Some(v) => exists|k: int| #[trigger] best_inactive(versions@, k) && v@ == versions@[
                k
            ].version@,
            None => forall|j: int| 0 <= j < versions@.len() ==> (#[trigger] versions@[j]).is_active,
        },
{
    let n = versions.len();
    let mut best: Option<usize> = None;
    let mut i: usize = 0;
    while i < n
        invariant
            i <= n,
            n == versions@.len(),
            match best {
                Some(k) => 0 <= k < i && !versions@[k as int].is_active && forall|j: int|
                    0 <= j < i && !(#[trigger] versions@[j]).is_active && j != k as int
                        ==> orders_before(versions@[k as int]@, k as int, versions@[j]@, j),
                None => forall|j: int| 0 <= j < i ==> (#[trigger] versions@[j]).is_active,
            },
        decreases n - i,
    {
        if !versions[i].is_active {
            let take = match best {
                Some(k) => versions[i].installed_at > versions[k].installed_at,
                None => true,
            };
            if take {
                best = Some(i);
            }
        }
        i += 1;
    }
    match best {
        Some(k) => {
            proof {
                assert(best_inactive(versions@, k as int));
            }
            Some(versions[k].version.clone())
        },
        None => None,
    }
}

/// The installed payload paths of the ledgers from position `i` on that
/// have an active version, in store order.
pub open spec fn registered_paths_from(vm: VersionManager, i: int) -> Seq<Seq<char>>
    decreases vm.ledgers@.len() - i,
{
    if i < 0 || i >= vm.ledgers@.len() {
        Seq::empty()
    } else {
        let vs = vm.ledgers@[i].versions@;
        let act = find_active_from(vs, 0);
        if act >= 0 {
            seq![vm.appimage_path_spec(vm.ledgers@[i].name@, vs[act].version@)]
                + registered_paths_from(vm, i + 1)
        } else {
            registered_paths_from(vm, i + 1)
        }
    }
}

/// Checks and applies updates over the version store.
pub struct UpdateManager {
    pub config: Config,
    pub version_manager: VersionManager,
}

impl UpdateManager {
    pub fn new(config: Config) -> (r: Self)
        ensures
            r.config == config,
            r.version_manager.config == config,
            r.version_manager.ledgers@ == Seq::<crate::metadata::AppMetadata>::empty(),
    {
        let vm_config = config.clone();
        UpdateManager { config, version_manager: VersionManager::new(vm_config) }
    }

    /// The version label read from an installed payload's file name.
    pub fn extract_version_from_path(&self, path: &str) -> (r: Option<String>)
        ensures
            match r {
                Some(v) => parse_version_spec(stem_spec(file_name_spec(path@))) == Some(v@),
                None => parse_version_spec(stem_spec(file_name_spec(path@))) is None,
            },
    {
        let name = file_name_of(path);
        let stem = stem_of(&name);
        parse_trailing_version(string_of(&stem).as_str())
    }

    /// What one update-channel answer means: an update is available when
    /// the call succeeded and printed something; the printed text, trimmed,
    /// is the offered version.
    pub fn evaluate_update_check(&self, path: &str, success: bool, stdout: &str) -> (r: UpdateInfo)
        ensures
            r.path@ == path@,
            r.name@ == normalize_spec(stem_spec(file_name_spec(path@))),
            r.update_available == (success && trim_spaces_spec(stdout@).len() > 0),
            match r.new_version {
                Some(v) => r.update_available && v@ == trim_spaces_spec(stdout@),
                None => !r.update_available,
            },
            match r.current_version {
                Some(v) => parse_version_spec(stem_spec(file_name_spec(path@))) == Some(v@),
                None => parse_version_spec(stem_spec(file_name_spec(path@))) is None,
            },
    {
        let name_chars = file_name_of(path);
        let stem = stem_of(&name_chars);
        let name = normalize_appimage_name(string_of(&stem).as_str());
        let sv = chars_of(stdout);
        let trimmed = trim_spaces_vec(&sv);
        let update_available = success && trimmed.len() > 0;
        let new_version: Option<String> = if update_available {
            Some(string_of(&trimmed))
        } else {
            None
        };
        let current_version = self.extract_version_from_path(path);
        UpdateInfo {
            name,
            current_version,
            new_version,
            update_available,
            path: path.to_owned(),
        }
    }

    /// The installed payload paths of every application with an active
    /// version.
    pub fn get_registered_appimages(&self) -> (r: Vec<String>)
        ensures
            r.deep_view() == registered_paths_from(self.version_manager, 0),
    {
        let ls = &self.version_manager.ledgers;
        let n = ls.len();
        let mut out: Vec<String> = Vec::new();
        proof {
            assert(out.deep_view() + registered_paths_from(self.version_manager, 0)
                =~= registered_paths_from(self.version_manager, 0));
        }
        let mut i: usize = 0;
        while i < n
            invariant
                i <= n,
                n == ls@.len(),
                ls@ == self.version_manager.ledgers@,
                registered_paths_from(self.version_manager, 0) == out.deep_view()
                    + registered_paths_from(self.version_manager, i as int),
            decreases n - i,
        {
            let active_version: Option<String> = match ls[i].get_active_version() {
                Some(v) => Some(v.version.clone()),
                None => None,
            };
            match active_version {
                Some(ver) => {
                    let p = self.version_manager.get_appimage_path(
                        ls[i].name.as_str(),
                        ver.as_str(),
                    );
                    let ghost d0 = out.deep_view();
                    let ghost pv = p@;
                    out.push(p);
                    proof {
                        let vm = self.version_manager;
                        let vs = vm.ledgers@[i as int].versions@;
                        let act = find_active_from(vs, 0);
                        assert(act >= 0);
                        assert(pv == vm.appimage_path_spec(
                            vm.ledgers@[i as int].name@,
                            vs[act].version@,
                        ));
                        assert(out.deep_view() =~~= d0 + seq![pv]);
                        assert(d0 + (seq![pv] + registered_paths_from(vm, i + 1)) =~= (d0 + seq![
                            pv,
                        ]) + registered_paths_from(vm, i + 1));
                    }
                },
                None => {},
            }
            i += 1;
        }
        proof {
            assert(out.deep_view() + registered_paths_from(self.version_manager, n as int)
                =~= out.deep_view());
        }
        out
    }

    /// Switches the application back to its most recently installed
    /// inactive version; refused when none is recorded or nothing is
    /// active. The receipt names the symlink the caller must repoint.
    pub fn rollback_update(&mut self, app_name: &str) -> (r: Result<LinkReceipt, UpdateError>)
        ensures
            final(self).config == old(self).config,
            r is Err ==> *final(self) == *old(self),
            ({
                let oldls = old(self).version_manager.ledgers@;
                let li = app_index(oldls, app_name@);
                (r is Ok) <==> (has_app(oldls, app_name@) && find_active_from(
                    oldls[li].versions@,
                    0,
                ) >= 0 && exists|k: int|
                    0 <= k < oldls[li].versions@.len() && !(#[trigger] oldls[li].versions@[
                        k
                    ]).is_active)
            }),
            match r {
                Err(e) => {
                    if !has_app(old(self).version_manager.ledgers@, app_name@) {
                        e matches UpdateError::Version(ve) && ve is AppNotFound
                    } else {
                        e is RollbackFailed
                    }
                },
                Ok(rcpt) => {
                    let oldls = old(self).version_manager.ledgers@;
                    let ls = final(self).version_manager.ledgers@;
                    let li = app_index(oldls, app_name@);
                    &&& has_app(oldls, app_name@)
                    &&& ls.len() == oldls.len()
                    &&& forall|j: int| 0 <= j < ls.len() && j != li ==> ls[j] == oldls[j]
                    &&& ls[li].versions@.len() == oldls[li].versions@.len()
                    &&& exists|k: int|
                        #[trigger] best_inactive(oldls[li].versions@, k)
                            && rcpt.link_target@ == old(self).version_manager.version_dir_spec(
                            app_name@,
                            oldls[li].versions@[k].version@,
                        ) && (forall|j: int|
                            0 <= j < oldls[li].versions@.len() ==> {
                                let o = oldls[li].versions@[j];
                                let n = #[trigger] ls[li].versions@[j];
                                n.version == o.version && n.is_active == (o.version@ == oldls[
                                    li
                                ].versions@[k].version@)
                            })
                    &&& rcpt.current_link@ == old(self).version_manager.current_link_spec(
                        app_name@,
                    )
                },
            },
    {
        let current = match self.version_manager.get_current_version(app_name) {
            Ok(c) => c,
            Err(e) => {
                return Err(UpdateError::Version(e));
            },
        };
        if current.is_none() {
            return Err(UpdateError::RollbackFailed("No active version found".to_owned()));
        }
        let versions = match self.version_manager.list_versions(app_name) {
            Ok(v) => v,
            Err(e) => {
                return Err(UpdateError::Version(e));
            },
        };
        let target = match select_rollback_target(&versions) {
            Some(t) => t,
            None => {
                proof {
                    let oldls = self.version_manager.ledgers@;
                    let li = app_index(oldls, app_name@);
                    if exists|k: int|
                        0 <= k < oldls[li].versions@.len() && !(#[trigger] oldls[li].versions@[
                            k
                        ]).is_active {
                        let k = choose|k: int|
                            0 <= k < oldls[li].versions@.len() && !(#[trigger] oldls[
                                li
                            ].versions@[k]).is_active;
                        assert(!versions@[k].is_active);
                        assert(false);
                    }
                }
                return Err(UpdateError::RollbackFailed("No previous version found".to_owned()));
            },
        };
        let ghost oldls = self.version_manager.ledgers@;
        let ghost li = app_index(oldls, app_name@);
        proof {
            let k = choose|k: int|
                #[trigger] best_inactive(versions@, k) && target@ == versions@[k].version@;
            assert(0 <= k < oldls[li].versions@.len() && oldls[li].versions@[k].version@
                == target@);
            assert(crate::metadata::has_version(oldls[li].versions@, target@));
        }
        match self.version_manager.switch_version(app_name, target.as_str()) {
            Ok(rcpt) => {
                proof {
                    let k = choose|k: int|
                        #[trigger] best_inactive(versions@, k) && target@ == versions@[
                            k
                        ].version@;
                    assert(best_inactive(oldls[li].versions@, k));
                    assert(0 <= k < oldls[li].versions@.len() && !(oldls[li].versions@[
                        k
                    ]).is_active);
                    assert(rcpt.link_target@ == old(self).version_manager.version_dir_spec(
                        app_name@,
                        oldls[li].versions@[k].version@,
                    ));
                    let ls = final(self).version_manager.ledgers@;
                    assert forall|j: int|
                        0 <= j < oldls[li].versions@.len() implies {
                        let o = oldls[li].versions@[j];
                        let n = #[trigger] ls[li].versions@[j];
                        n.version == o.version && n.is_active == (o.version@ == oldls[
                            li
                        ].versions@[k].version@)
                    } by {
                        assert(oldls[li].versions@[k].version@ == target@);
                    }
                }
                Ok(rcpt)
            },
            Err(e) => Err(UpdateError::Version(e)),
        }
    }
}

} // verus!
