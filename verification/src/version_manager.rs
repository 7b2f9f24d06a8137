//! The per-application version store: ledgers, the active version, and
//! retention pruning.
//!
//! The manager holds the ledgers in memory; reading them from disk and
//! carrying out the directory, copy and symlink work described by the
//! returned receipts is the caller's part.
use vstd::prelude::*;

use crate::config::Config;
use crate::metadata::AppMetadata;
use crate::metadata::VersionInfo;
use crate::metadata::VersionRecordView;
use crate::metadata::find_active_from;
use crate::metadata::has_version;
use crate::metadata::rv;
use crate::text::concat_str;
use crate::text::path_join;
use crate::text::str_eq;

verus! {

/// Why a version operation failed; the detail string is for the operator.
#[derive(Debug)]
pub enum VersionError {
    Io(String),
    AppImage(String),
    Metadata(String),
    VersionNotFound(String),
    VersionExists(String),
    InvalidVersion(String),
    AppNotFound(String),
}

/// Number of active records in `s[i..]`.
pub open spec fn active_from(s: Seq<VersionRecordView>, i: int) -> int
    decreases s.len() - i,
{
    if i < 0 || i >= s.len() {
        0
    } else {
        (if s[i].is_active {
            1int
        } else {
            0int
        }) + active_from(s, i + 1)
    }
}

/// Number of active records in `s`.
pub open spec fn active_count(s: Seq<VersionRecordView>) -> int {
    active_from(s, 0)
}

/// Every record of `s`, deactivated.
pub open spec fn deactivated(s: Seq<VersionRecordView>) -> Seq<VersionRecordView> {
    s.map_values(
        |r: VersionRecordView|
            VersionRecordView {
                version: r.version,
                checksum: r.checksum,
                installed_at: r.installed_at,
                is_active: false,
            },
    )
}

/// The ledger sequence after an install: everything deactivated, then the
/// new record appended active with install time `t`.
pub open spec fn append_active(
    s: Seq<VersionRecordView>,
    v: Seq<char>,
    c: Seq<char>,
    t: i64,
) -> Seq<VersionRecordView> {
    deactivated(s).push(
        VersionRecordView { version: v, checksum: c, installed_at: t, is_active: true },
    )
}

/// Record `a` at position `ai` is retained in preference to record `b` at
/// `bi`: it is newer by install time, or as new and earlier in the ledger.
pub open spec fn orders_before(
    a: VersionRecordView,
    ai: int,
    b: VersionRecordView,
    bi: int,
) -> bool {
    a.installed_at > b.installed_at || (a.installed_at == b.installed_at && ai < bi)
}

/// How many records of `s[j..]` are retained in preference to `s[i]`.
pub open spec fn rank_from(s: Seq<VersionRecordView>, i: int, j: int) -> int
    decreases s.len() - j,
{
    if j < 0 || j >= s.len() {
        0
    } else {
        (if j != i && orders_before(s[j], j, s[i], i) {
            1int
        } else {
            0int
        }) + rank_from(s, i, j + 1)
    }
}

/// How many records of `s` are retained in preference to `s[i]`.
pub open spec fn rank(s: Seq<VersionRecordView>, i: int) -> int {
    rank_from(s, i, 0)
}

/// Retention keeps a record that is active or among the `max` newest.
pub open spec fn keep_at(s: Seq<VersionRecordView>, max: int, i: int) -> bool {
    s[i].is_active || rank(s, i) < max
}

/// The records of `s[i..]` that retention keeps, in ledger order.
pub open spec fn prune_from(s: Seq<VersionRecordView>, max: int, i: int) -> Seq<VersionRecordView>
    decreases s.len() - i,
{
    if i < 0 || i >= s.len() {
        Seq::empty()
    } else if keep_at(s, max, i) {
        seq![s[i]] + prune_from(s, max, i + 1)
    } else {
        prune_from(s, max, i + 1)
    }
}

/// The ledger after retention pruning with bound `max`.
pub open spec fn prune_seq(s: Seq<VersionRecordView>, max: int) -> Seq<VersionRecordView> {
    prune_from(s, max, 0)
}

/// The version labels of the records of `s[i..]` that retention removes.
pub open spec fn removed_from(s: Seq<VersionRecordView>, max: int, i: int) -> Seq<Seq<char>>
    decreases s.len() - i,
{
    if i < 0 || i >= s.len() {
        Seq::empty()
    } else if keep_at(s, max, i) {
        removed_from(s, max, i + 1)
    } else {
        seq![s[i].version] + removed_from(s, max, i + 1)
    }
}

/// The version labels that retention pruning with bound `max` removes.
pub open spec fn removed_labels(s: Seq<VersionRecordView>, max: int) -> Seq<Seq<char>> {
    removed_from(s, max, 0)
}

/// Pruning never removes an active record: every removed label belongs to
/// an inactive one, and the active records survive unchanged in number.
pub proof fn lemma_prune_preserves_active(s: Seq<VersionRecordView>, max: int, i: int)
    ensures
        active_from(prune_from(s, max, i), 0) == active_from(s, i),
    decreases s.len() - i,
{
    if i < 0 || i >= s.len() {
    } else {
        lemma_prune_preserves_active(s, max, i + 1);
        if keep_at(s, max, i) {
            lemma_active_from_cons(s[i], prune_from(s, max, i + 1));
        }
    }
}

proof fn lemma_active_from_cons(x: VersionRecordView, r: Seq<VersionRecordView>)
    ensures
        active_from(seq![x] + r, 0) == (if x.is_active {
            1int
        } else {
            0int
        }) + active_from(r, 0),
{
    lemma_active_from_shift(x, r, 0);
}

proof fn lemma_active_from_shift(x: VersionRecordView, r: Seq<VersionRecordView>, j: int)
    requires
        0 <= j <= r.len(),
    ensures
        active_from(seq![x] + r, j + 1) == active_from(r, j),
    decreases r.len() - j,
{
    if j < r.len() {
        lemma_active_from_shift(x, r, j + 1);
    }
}

/// Appending to a ledger adds the new record's activity to the count.
pub proof fn lemma_active_from_push(s: Seq<VersionRecordView>, x: VersionRecordView, i: int)
    requires
        0 <= i <= s.len(),
    ensures
        active_from(s.push(x), i) == active_from(s, i) + (if x.is_active {
            1int
        } else {
            0int
        }),
    decreases s.len() - i,
{
    if i < s.len() {
        lemma_active_from_push(s, x, i + 1);
    } else {
        assert(s.push(x)[i] == x);
        assert(active_from(s.push(x), i + 1) == 0);
    }
}

/// A fully deactivated ledger has no active record.
pub proof fn lemma_active_from_deactivated(s: Seq<VersionRecordView>, i: int)
    requires
        0 <= i,
    ensures
        active_from(deactivated(s), i) == 0,
    decreases s.len() - i,
{
    if i < s.len() {
        lemma_active_from_deactivated(s, i + 1);
    }
}

/// After an install the ledger holds exactly one active record, whether or
/// not retention pruning ran.
pub proof fn lemma_append_active_count(s: Seq<VersionRecordView>, v: Seq<char>, c: Seq<char>, t: i64, max: int)
    ensures
        active_count(append_active(s, v, c, t)) == 1,
        active_count(prune_seq(append_active(s, v, c, t), max)) == 1,
{
    let d = deactivated(s);
    lemma_active_from_deactivated(s, 0);
    let x = VersionRecordView { version: v, checksum: c, installed_at: t, is_active: true };
    lemma_active_from_push(d, x, 0);
    lemma_prune_preserves_active(append_active(s, v, c, t), max, 0);
}

/// Every record that pruning keeps is a record of the original ledger.
pub proof fn lemma_prune_elem(s: Seq<VersionRecordView>, max: int, i: int)
    ensures
        forall|j: int|
            #![trigger prune_from(s, max, i)[j]]
            0 <= j < prune_from(s, max, i).len() ==> exists|k: int|
                i <= k < s.len() && prune_from(s, max, i)[j] == #[trigger] s[k],
    decreases s.len() - i,
{
    if i < 0 || i >= s.len() {
    } else {
        lemma_prune_elem(s, max, i + 1);
        let out = prune_from(s, max, i);
        let rest = prune_from(s, max, i + 1);
        if keep_at(s, max, i) {
            assert forall|j: int| #![trigger out[j]]
                0 <= j < out.len() implies exists|k: int|
                i <= k < s.len() && out[j] == #[trigger] s[k] by {
                if j == 0 {
                    assert(out[0] == s[i]);
                } else {
                    assert(out[j] == rest[j - 1]);
                    let k = choose|k: int| i + 1 <= k < s.len() && rest[j - 1] == s[k];
                    assert(out[j] == s[k]);
                }
            }
        }
    }
}

/// Every label that pruning removes belongs to an inactive record.
pub proof fn lemma_removed_inactive(s: Seq<VersionRecordView>, max: int, i: int)
    ensures
        forall|j: int|
            #![trigger removed_from(s, max, i)[j]]
            0 <= j < removed_from(s, max, i).len() ==> exists|k: int|
                i <= k < s.len() && !s[k].is_active && removed_from(s, max, i)[j] == #[trigger] s[k].version,
    decreases s.len() - i,
{
    if i < 0 || i >= s.len() {
    } else {
        lemma_removed_inactive(s, max, i + 1);
        let out = removed_from(s, max, i);
        let rest = removed_from(s, max, i + 1);
        if !keep_at(s, max, i) {
            assert forall|j: int| #![trigger out[j]]
                0 <= j < out.len() implies exists|k: int|
                i <= k < s.len() && !s[k].is_active && out[j] == #[trigger] s[k].version by {
                if j == 0 {
                    assert(out[0] == s[i].version);
                } else {
                    assert(out[j] == rest[j - 1]);
                    let k = choose|k: int|
                        i + 1 <= k < s.len() && !s[k].is_active && rest[j - 1] == s[k].version;
                    assert(out[j] == s[k].version);
                }
            }
        }
    }
}

/// Pruning keeps every record it retains where it was: a kept record is
/// found again in the pruned ledger.
pub proof fn lemma_prune_contains(s: Seq<VersionRecordView>, max: int, i: int, k: int)
    requires
        0 <= i <= k < s.len(),
        keep_at(s, max, k),
    ensures
        exists|j: int|
            0 <= j < prune_from(s, max, i).len() && #[trigger] prune_from(s, max, i)[j] == s[k],
    decreases s.len() - i,
{
    if k == i {
        assert(prune_from(s, max, i)[0] == s[i]);
    } else {
        lemma_prune_contains(s, max, i + 1, k);
        let rest = prune_from(s, max, i + 1);
        let j = choose|j: int| 0 <= j < rest.len() && #[trigger] rest[j] == s[k];
        if keep_at(s, max, i) {
            assert(prune_from(s, max, i)[j + 1] == s[k]);
        } else {
            assert(prune_from(s, max, i)[j] == s[k]);
        }
    }
}

/// How many records of `s` rank ahead of `s[i]` for retention.
fn rank_of(versions: &Vec<VersionInfo>, i: usize) -> (r: usize)
    requires
        i < versions@.len(),
    ensures
        r as int == rank(rv(versions@), i as int),
{
    let n = versions.len();
    let mut cnt: usize = 0;
    let mut j: usize = 0;
    while j < n
        invariant
            j <= n,
            n == versions@.len(),
            i < n,
            cnt <= j,
            cnt as int + rank_from(rv(versions@), i as int, j as int) == rank(
                rv(versions@),
                i as int,
            ),
        decreases n - j,
    {
        proof {
            assert(rv(versions@)[j as int] == versions@[j as int]@);
            assert(rv(versions@)[i as int] == versions@[i as int]@);
        }
        if j != i {
            let newer = versions[j].installed_at > versions[i].installed_at || (
            versions[j].installed_at == versions[i].installed_at && j < i);
            if newer {
                cnt += 1;
            }
        }
        j += 1;
    }
    cnt
}

/// Applies retention pruning to one ledger; the labels of the removed
/// records come back for the caller to delete on disk.
fn prune_ledger(m: &mut AppMetadata, max: usize) -> (removed: Vec<String>)
    ensures
        rv(final(m).versions@) == prune_seq(rv(old(m).versions@), max as int),
        removed.deep_view() == removed_labels(rv(old(m).versions@), max as int),
        final(m).name == old(m).name,
        final(m).display_name == old(m).display_name,
        final(m).categories == old(m).categories,
        final(m).icon_path == old(m).icon_path,
        final(m).created_at == old(m).created_at,
        final(m).updated_at == old(m).updated_at,
{
    let n = m.versions.len();
    let mut kept: Vec<VersionInfo> = Vec::new();
    let mut removed: Vec<String> = Vec::new();
    proof {
        assert(rv(kept@) + prune_from(rv(m.versions@), max as int, 0) =~= prune_from(
            rv(m.versions@),
            max as int,
            0,
        ));
        assert(removed.deep_view() + removed_from(rv(m.versions@), max as int, 0)
            =~= removed_from(rv(m.versions@), max as int, 0));
    }
    let mut i: usize = 0;
    while i < n
        invariant
            i <= n,
            n == m.versions@.len(),
            *m == *old(m),
            prune_seq(rv(m.versions@), max as int) == rv(kept@) + prune_from(
                rv(m.versions@),
                max as int,
                i as int,
            ),
            removed_labels(rv(m.versions@), max as int) == removed.deep_view() + removed_from(
                rv(m.versions@),
                max as int,
                i as int,
            ),
        decreases n - i,
    {
        let ghost s = rv(m.versions@);
        proof {
            assert(s[i as int] == m.versions@[i as int]@);
        }
        let keep = m.versions[i].is_active || rank_of(&m.versions, i) < max;
        proof {
            assert(keep == keep_at(s, max as int, i as int));
        }
        if keep {
            let ghost k0 = rv(kept@);
            kept.push(m.versions[i].clone());
            proof {
                assert(rv(kept@) =~= k0.push(s[i as int]));
                assert(k0 + (seq![s[i as int]] + prune_from(s, max as int, i + 1)) =~= k0.push(
                    s[i as int],
                ) + prune_from(s, max as int, i + 1));
            }
        } else {
            let ghost r0 = removed.deep_view();
            removed.push(m.versions[i].version.clone());
            proof {
                assert(removed.deep_view() =~~= r0 + seq![s[i as int].version]);
                assert(r0 + (seq![s[i as int].version] + removed_from(s, max as int, i + 1)) =~= (
                r0 + seq![s[i as int].version]) + removed_from(s, max as int, i + 1));
            }
        }
        i += 1;
    }
    proof {
        assert(rv(kept@) + prune_from(rv(m.versions@), max as int, n as int) =~= rv(kept@));
        assert(removed.deep_view() + removed_from(rv(m.versions@), max as int, n as int)
            =~= removed.deep_view());
    }
    m.versions = kept;
    removed
}

/// Where an install for `app` lands in the ledger store: the existing
/// ledger's position, or one past the end for a first install.
pub open spec fn install_target_index(oldls: Seq<AppMetadata>, app: Seq<char>) -> int {
    if has_app(oldls, app) {
        app_index(oldls, app)
    } else {
        oldls.len() as int
    }
}

/// The records the application's ledger held before an install: none for a
/// first install.
pub open spec fn install_old_records(oldls: Seq<AppMetadata>, app: Seq<char>) -> Seq<
    VersionRecordView,
> {
    if has_app(oldls, app) {
        rv(oldls[install_target_index(oldls, app)].versions@)
    } else {
        Seq::empty()
    }
}

/// What the caller must do on disk after an install: create the version
/// directory, copy the bundle to `target_path`, repoint `current_link` at
/// `link_target`, rewrite the ledger file, and delete the directories of
/// the pruned versions.
pub struct InstallReceipt {
    pub installed_at: i64,
    pub version_dir: String,
    pub target_path: String,
    pub current_link: String,
    pub link_target: String,
    pub metadata_path: String,
    pub pruned: Vec<String>,
}

/// What the caller must do on disk after a switch: repoint `current_link`
/// at `link_target` and rewrite the ledger file.
pub struct LinkReceipt {
    pub current_link: String,
    pub link_target: String,
    pub metadata_path: String,
}

/// What the caller must do on disk after a removal: delete `version_dir`
/// and rewrite the ledger file.
pub struct RemoveReceipt {
    pub version_dir: String,
    pub metadata_path: String,
}

/// Index of the first ledger named `name`, or minus one.
pub open spec fn app_index_from(s: Seq<AppMetadata>, name: Seq<char>, i: int) -> int
    decreases s.len() - i,
{
    if i < 0 || i >= s.len() {
        -1
    } else if s[i].name@ == name {
        i
    } else {
        app_index_from(s, name, i + 1)
    }
}

pub open spec fn app_index(s: Seq<AppMetadata>, name: Seq<char>) -> int {
    app_index_from(s, name, 0)
}

/// Some ledger is named `name`.
pub open spec fn has_app(s: Seq<AppMetadata>, name: Seq<char>) -> bool {
    exists|i: int| 0 <= i < s.len() && #[trigger] s[i].name@ == name
}

proof fn lemma_app_index_has(s: Seq<AppMetadata>, name: Seq<char>, i: int)
    requires
        0 <= i <= s.len(),
        forall|j: int| 0 <= j < i ==> s[j].name@ != name,
    ensures
        has_app(s, name) <==> 0 <= app_index_from(s, name, i),
        0 <= app_index_from(s, name, i) ==> app_index_from(s, name, i) < s.len()
            && s[app_index_from(s, name, i)].name@ == name && app_index(s, name)
            == app_index_from(s, name, i),
    decreases s.len() - i,
{
    lemma_app_index_prefix(s, name, i);
    if i < s.len() && s[i].name@ != name {
        lemma_app_index_has(s, name, i + 1);
    }
}

proof fn lemma_app_index_prefix(s: Seq<AppMetadata>, name: Seq<char>, i: int)
    requires
        0 <= i <= s.len(),
        forall|j: int| 0 <= j < i ==> s[j].name@ != name,
    ensures
        app_index(s, name) == app_index_from(s, name, i),
    decreases i,
{
    if i > 0 {
        lemma_app_index_step(s, name, 0, i);
    }
}

proof fn lemma_app_index_step(s: Seq<AppMetadata>, name: Seq<char>, a: int, b: int)
    requires
        0 <= a <= b <= s.len(),
        forall|j: int| a <= j < b ==> s[j].name@ != name,
    ensures
        app_index_from(s, name, a) == app_index_from(s, name, b),
    decreases b - a,
{
    if a < b {
        lemma_app_index_step(s, name, a + 1, b);
    }
}

/// The version store: the configured roots and the in-memory ledgers.
pub struct VersionManager {
    pub config: Config,
    pub ledgers: Vec<AppMetadata>,
}

impl VersionManager {
    pub fn new(config: Config) -> (r: Self)
        ensures
            r.config == config,
            r.ledgers@ == Seq::<AppMetadata>::empty(),
    {
        VersionManager { config, ledgers: Vec::new() }
    }

    pub open spec fn app_dir_spec(&self, app: Seq<char>) -> Seq<char> {
        self.config.directories.bin@ + "/"@ + app
    }

    pub open spec fn versions_dir_spec(&self, app: Seq<char>) -> Seq<char> {
        self.app_dir_spec(app) + "/"@ + "versions"@
    }

    pub open spec fn version_dir_spec(&self, app: Seq<char>, version: Seq<char>) -> Seq<char> {
        self.versions_dir_spec(app) + "/"@ + version
    }

    pub open spec fn appimage_path_spec(&self, app: Seq<char>, version: Seq<char>) -> Seq<char> {
        self.version_dir_spec(app, version) + "/"@ + app + ".AppImage"@
    }

    pub open spec fn current_link_spec(&self, app: Seq<char>) -> Seq<char> {
        self.app_dir_spec(app) + "/"@ + "current"@
    }

    pub open spec fn metadata_path_spec(&self, app: Seq<char>) -> Seq<char> {
        self.app_dir_spec(app) + "/"@ + "metadata.json"@
    }

    /// The stable launcher target: the active payload reached through the
    /// `current` link, so that a version switch never moves the launcher.
    pub open spec fn launcher_target_spec(&self, app: Seq<char>) -> Seq<char> {
        self.current_link_spec(app) + "/"@ + (app + ".AppImage"@)
    }

    pub fn get_app_dir(&self, app_name: &str) -> (r: String)
        ensures
            r@ == self.app_dir_spec(app_name@),
    {
        path_join(self.config.directories.bin.as_str(), app_name)
    }

    pub fn get_versions_dir(&self, app_name: &str) -> (r: String)
        ensures
            r@ == self.versions_dir_spec(app_name@),
    {
        let d = self.get_app_dir(app_name);
        path_join(d.as_str(), "versions")
    }

    pub fn get_version_dir(&self, app_name: &str, version: &str) -> (r: String)
        ensures
            r@ == self.version_dir_spec(app_name@, version@),
    {
        let d = self.get_versions_dir(app_name);
        path_join(d.as_str(), version)
    }

    pub fn get_appimage_path(&self, app_name: &str, version: &str) -> (r: String)
        ensures
            r@ == self.appimage_path_spec(app_name@, version@),
    {
        let d = self.get_version_dir(app_name, version);
        let file = concat_str(app_name, ".AppImage");
        path_join(d.as_str(), file.as_str())
    }

    pub fn get_current_link(&self, app_name: &str) -> (r: String)
        ensures
            r@ == self.current_link_spec(app_name@),
    {
        let d = self.get_app_dir(app_name);
        path_join(d.as_str(), "current")
    }

    pub fn get_metadata_path(&self, app_name: &str) -> (r: String)
        ensures
            r@ == self.metadata_path_spec(app_name@),
    {
        let d = self.get_app_dir(app_name);
        path_join(d.as_str(), "metadata.json")
    }

    /// The payload path the launcher symlink targets, through `current`.
    pub fn get_launcher_target(&self, app_name: &str) -> (r: String)
        ensures
            r@ == self.launcher_target_spec(app_name@),
    {
        let d = self.get_current_link(app_name);
        let file = concat_str(app_name, ".AppImage");
        path_join(d.as_str(), file.as_str())
    }

    /// Position of the ledger named `app_name` in the store.
    fn find_app(&self, app_name: &str) -> (r: Option<usize>)
        ensures
            match r {
                Some(i) => 0 <= i < self.ledgers@.len() && i as int == app_index(
                    self.ledgers@,
                    app_name@,
                ) && self.ledgers@[i as int].name@ == app_name@,
                None => !has_app(self.ledgers@, app_name@),
            },
    {
        let n = self.ledgers.len();
        let mut i: usize = 0;
        while i < n
            invariant
                i <= n,
                n == self.ledgers@.len(),
                forall|j: int| 0 <= j < i ==> self.ledgers@[j].name@ != app_name@,
            decreases n - i,
    {
            if str_eq(self.ledgers[i].name.as_str(), app_name) {
                proof {
                    lemma_app_index_has(self.ledgers@, app_name@, i as int);
                }
                return Some(i);
            }
            i += 1;
        }
        proof {
            lemma_app_index_has(self.ledgers@, app_name@, n as int);
        }
        None
    }

    /// The ledger for `app_name`, or `AppNotFound`.
    pub fn load_app_metadata(&self, app_name: &str) -> (r: Result<AppMetadata, VersionError>)
        ensures
            (r is Ok) == has_app(self.ledgers@, app_name@),
            match r {
                Ok(m) => {
                    let li = app_index(self.ledgers@, app_name@);
                    &&& m.name == self.ledgers@[li].name
                    &&& m.display_name == self.ledgers@[li].display_name
                    &&& m.categories.deep_view() == self.ledgers@[li].categories.deep_view()
                    &&& m.icon_path == self.ledgers@[li].icon_path
                    &&& m.versions@ == self.ledgers@[li].versions@
                    &&& m.created_at == self.ledgers@[li].created_at
                    &&& m.updated_at == self.ledgers@[li].updated_at
                },
                Err(e) => e is AppNotFound,
            },
    {
        match self.find_app(app_name) {
            Some(i) => Ok(self.ledgers[i].clone()),
            None => Err(VersionError::AppNotFound(app_name.to_owned())),
        }
    }

    /// Stores the given ledger, replacing any ledger of the same name.
    pub fn save_app_metadata(&mut self, metadata: AppMetadata)
        ensures
            has_app(final(self).ledgers@, metadata.name@),
            ({
                let li = app_index(old(self).ledgers@, metadata.name@);
                if has_app(old(self).ledgers@, metadata.name@) {
                    final(self).ledgers@ == old(self).ledgers@.update(li, metadata)
                } else {
                    final(self).ledgers@ == old(self).ledgers@.push(metadata)
                }
            }),
            final(self).config == old(self).config,
    {
        let ghost name = metadata.name@;
        match self.find_app(metadata.name.as_str()) {
            Some(i) => {
                self.ledgers.set(i, metadata);
                proof {
                    assert(final(self).ledgers@[app_index(old(self).ledgers@, name)].name@
                        == name);
                }
            },
            None => {
                self.ledgers.push(metadata);
                proof {
                    assert(final(self).ledgers@[old(self).ledgers@.len() as int].name@ == name);
                }
            },
        }
    }

    /// The names of all applications in the store.
    pub fn list_apps(&self) -> (r: Vec<String>)
        ensures
            r.deep_view() == self.ledgers@.map_values(|m: AppMetadata| m.name@),
    {
        let n = self.ledgers.len();
        let mut out: Vec<String> = Vec::new();
        proof {
            assert(out.deep_view() =~= self.ledgers@.map_values(
                |m: AppMetadata| m.name@,
            ).subrange(0, 0));
        }
        let mut i: usize = 0;
        while i < n
            invariant
                i <= n,
                n == self.ledgers@.len(),
                out.deep_view() == self.ledgers@.map_values(|m: AppMetadata| m.name@).subrange(
                    0,
                    i as int,
                ),
            decreases n - i,
        {
            let ghost d0 = out.deep_view();
            out.push(self.ledgers[i].name.clone());
            proof {
                assert(out.deep_view() =~~= d0 + seq![self.ledgers@[i as int].name@]);
                assert(d0 + seq![self.ledgers@[i as int].name@] =~= self.ledgers@.map_values(
                    |m: AppMetadata| m.name@,
                ).subrange(0, i + 1));
            }
            i += 1;
        }
        proof {
            let full = self.ledgers@.map_values(|m: AppMetadata| m.name@);
            assert(full.subrange(0, full.len() as int) =~= full);
        }
        out
    }

    /// Records a new version in the application's ledger: refused with
    /// `VersionExists` when the label is already listed; otherwise every
    /// other record is deactivated, the new record is appended active, and
    /// retention pruning runs when it is enabled. The receipt names the
    /// paths the caller must now create and the versions it must delete.
    #[verifier::rlimit(60)]
    pub fn install_version(&mut self, app_name: &str, version: &str, checksum: String) -> (r:
        Result<InstallReceipt, VersionError>)
        ensures
            final(self).config == old(self).config,
            (r is Err) <==> (has_app(old(self).ledgers@, app_name@) && has_version(
                old(self).ledgers@[app_index(old(self).ledgers@, app_name@)].versions@,
                version@,
            )),
            r is Err ==> *final(self) == *old(self),
            match r {
                Err(e) => e matches VersionError::VersionExists(s) && s@ == version@,
                Ok(_) => true,
            },
            match r {
                Ok(_) => final(self).ledgers@.len() == if has_app(old(self).ledgers@, app_name@) {
                    old(self).ledgers@.len()
                } else {
                    old(self).ledgers@.len() + 1
                },
                Err(_) => true,
            },
            match r {
                Ok(_) => forall|j: int|
                    0 <= j < final(self).ledgers@.len() && j != install_target_index(
                        old(self).ledgers@,
                        app_name@,
                    ) ==> final(self).ledgers@[j] == old(self).ledgers@[j],
                Err(_) => true,
            },
            match r {
                Ok(_) => final(self).ledgers@[install_target_index(
                    old(self).ledgers@,
                    app_name@,
                )].name@ == app_name@,
                Err(_) => true,
            },
            match r {
                Ok(rcpt) => rv(
                    final(self).ledgers@[install_target_index(
                        old(self).ledgers@,
                        app_name@,
                    )].versions@,
                ) == if old(self).config.versions.auto_cleanup_enabled {
                    prune_seq(
                        append_active(
                            install_old_records(old(self).ledgers@, app_name@),
                            version@,
                            checksum@,
                            rcpt.installed_at,
                        ),
                        old(self).config.versions.max_versions_per_app as int,
                    )
                } else {
                    append_active(
                        install_old_records(old(self).ledgers@, app_name@),
                        version@,
                        checksum@,
                        rcpt.installed_at,
                    )
                },
                Err(_) => true,
            },
            match r {
                Ok(rcpt) => rcpt.pruned.deep_view() == if old(
                    self,
                ).config.versions.auto_cleanup_enabled {
                    removed_labels(
                        append_active(
                            install_old_records(old(self).ledgers@, app_name@),
                            version@,
                            checksum@,
                            rcpt.installed_at,
                        ),
                        old(self).config.versions.max_versions_per_app as int,
                    )
                } else {
                    Seq::<Seq<char>>::empty()
                },
                Err(_) => true,
            },
            match r {
                Ok(_) => active_count(
                    rv(
                        final(self).ledgers@[install_target_index(
                            old(self).ledgers@,
                            app_name@,
                        )].versions@,
                    ),
                ) == 1,
                Err(_) => true,
            },
            match r {
                Ok(_) => ({
                    let vsv = rv(
                        final(self).ledgers@[install_target_index(
                            old(self).ledgers@,
                            app_name@,
                        )].versions@,
                    );
                    exists|k: int|
                        0 <= k < vsv.len() && (#[trigger] vsv[k]).is_active && vsv[k].version
                            == version@ && vsv[k].checksum == checksum@
                }),
                Err(_) => true,
            },
            match r {
                Ok(rcpt) => {
                    &&& rcpt.version_dir@ == old(self).version_dir_spec(app_name@, version@)
                    &&& rcpt.target_path@ == old(self).appimage_path_spec(app_name@, version@)
                    &&& rcpt.current_link@ == old(self).current_link_spec(app_name@)
                    &&& rcpt.link_target@ == old(self).version_dir_spec(app_name@, version@)
                    &&& rcpt.metadata_path@ == old(self).metadata_path_spec(app_name@)
                },
                Err(_) => true,
            },
    {
        let ghost cksum = checksum@;
        let idx = self.find_app(app_name);
        let mut ledger: AppMetadata;
        let had: bool;
        let mut pos: usize = 0;
        match idx {
            Some(i) => {
                if self.ledgers[i].get_version(version).is_some() {
                    return Err(VersionError::VersionExists(version.to_owned()));
                }
                ledger = self.ledgers.remove(i);
                had = true;
                pos = i;
            },
            None => {
                ledger = AppMetadata::new(app_name.to_owned(), app_name.to_owned());
                had = false;
            },
        }
        proof {
            if !had {
                assert(rv(ledger.versions@) =~= Seq::<VersionRecordView>::empty());
            }
        }
        let ghost old_vsv = rv(ledger.versions@);
        ledger.add_version(version.to_owned(), checksum);
        let t_rec = ledger.versions[ledger.versions.len() - 1].installed_at;
        let ghost t_wit = ledger.versions@.last()@.installed_at;
        proof {
            assert(rv(ledger.versions@) =~= append_active(old_vsv, version@, cksum, t_wit));
        }
        let ghost after = append_active(old_vsv, version@, cksum, t_wit);
        let cleanup = self.config.versions.auto_cleanup_enabled;
        let max = self.config.versions.max_versions_per_app;
        let removed: Vec<String> = if cleanup {
            prune_ledger(&mut ledger, max)
        } else {
            Vec::new()
        };
        proof {
            if cleanup {
                assert(rv(ledger.versions@) == prune_seq(
                    append_active(old_vsv, version@, cksum, t_wit),
                    max as int,
                ));
                assert(removed.deep_view() == removed_labels(
                    append_active(old_vsv, version@, cksum, t_wit),
                    max as int,
                ));
            } else {
                assert(rv(ledger.versions@) == append_active(old_vsv, version@, cksum, t_wit));
                assert(removed.deep_view() =~~= Seq::<Seq<char>>::empty());
            }
            lemma_append_active_count(old_vsv, version@, cksum, t_wit, max as int);
            let vsv = rv(ledger.versions@);
            let newk = old_vsv.len() as int;
            assert(after[newk].is_active && after[newk].version == version@ && after[newk].checksum
                == cksum);
            if cleanup {
                lemma_prune_contains(after, max as int, 0, newk);
            } else {
                assert(vsv[newk].is_active && vsv[newk].version == version@ && vsv[newk].checksum
                    == cksum);
            }
        }
        let version_dir = self.get_version_dir(app_name, version);
        let target_path = self.get_appimage_path(app_name, version);
        let current_link = self.get_current_link(app_name);
        let link_target = self.get_version_dir(app_name, version);
        let metadata_path = self.get_metadata_path(app_name);
        let ghost led_vsv = rv(ledger.versions@);
        if had {
            self.ledgers.insert(pos, ledger);
            proof {
                assert(final(self).ledgers@ =~= old(self).ledgers@.update(
                    pos as int,
                    final(self).ledgers@[pos as int],
                ));
            }
        } else {
            self.ledgers.push(ledger);
        }
        proof {
            let oldls = old(self).ledgers@;
            let li: int = install_target_index(oldls, app_name@);
            let ovsv = install_old_records(oldls, app_name@);
            assert(ovsv == old_vsv);
            assert(rv(self.ledgers@[li].versions@) == led_vsv);
            let after = append_active(ovsv, version@, cksum, t_wit);
            assert(led_vsv == if cleanup {
                prune_seq(after, max as int)
            } else {
                after
            });
            assert(removed.deep_view() == if cleanup {
                removed_labels(after, max as int)
            } else {
                Seq::<Seq<char>>::empty()
            });
        }
        Ok(
            InstallReceipt {
                installed_at: t_rec,
                version_dir,
                target_path,
                current_link,
                link_target,
                metadata_path,
                pruned: removed,
            },
        )
    }

    /// Makes an already-installed version the active one; refused with
    /// `VersionNotFound` when the label is not listed. The receipt names
    /// the symlink the caller must repoint.
    pub fn switch_version(&mut self, app_name: &str, version: &str) -> (r: Result<
        LinkReceipt,
        VersionError,
    >)
        ensures
            final(self).config == old(self).config,
            r is Err ==> *final(self) == *old(self),
            (r is Ok) <==> (has_app(old(self).ledgers@, app_name@) && has_version(
                old(self).ledgers@[app_index(old(self).ledgers@, app_name@)].versions@,
                version@,
            )),
            match r {
                Err(e) => {
                    if !has_app(old(self).ledgers@, app_name@) {
                        e is AppNotFound
                    } else {
                        e matches VersionError::VersionNotFound(s) && s@ == version@
                    }
                },
                Ok(rcpt) => {
                    let oldls = old(self).ledgers@;
                    let ls = final(self).ledgers@;
                    let li = app_index(oldls, app_name@);
                    &&& ls.len() == oldls.len()
                    &&& forall|j: int| 0 <= j < ls.len() && j != li ==> ls[j] == oldls[j]
                    &&& ls[li].name == oldls[li].name
                    &&& ls[li].versions@.len() == oldls[li].versions@.len()
                    &&& forall|k: int|
                        0 <= k < oldls[li].versions@.len() ==> {
                            let o = oldls[li].versions@[k];
                            let n = #[trigger] ls[li].versions@[k];
                            n.version == o.version && n.checksum == o.checksum && n.installed_at
                                == o.installed_at && n.is_active == (o.version@ == version@)
                        }
                    &&& rcpt.current_link@ == old(self).current_link_spec(app_name@)
                    &&& rcpt.link_target@ == old(self).version_dir_spec(app_name@, version@)
                    &&& rcpt.metadata_path@ == old(self).metadata_path_spec(app_name@)
                },
            },
    {
        let idx = match self.find_app(app_name) {
            Some(i) => i,
            None => {
                return Err(VersionError::AppNotFound(app_name.to_owned()));
            },
        };
        if self.ledgers[idx].get_version(version).is_none() {
            return Err(VersionError::VersionNotFound(version.to_owned()));
        }
        let mut ledger = self.ledgers.remove(idx);
        let _ = ledger.set_active_version(version);
        self.ledgers.insert(idx, ledger);
        proof {
            assert(final(self).ledgers@ =~= old(self).ledgers@.update(
                idx as int,
                final(self).ledgers@[idx as int],
            ));
        }
        let current_link = self.get_current_link(app_name);
        let link_target = self.get_version_dir(app_name, version);
        let metadata_path = self.get_metadata_path(app_name);
        Ok(LinkReceipt { current_link, link_target, metadata_path })
    }

    /// Removes an installed version: refused while it is the last remaining
    /// one or the active one. Removing a label that is not listed leaves
    /// the ledger as it is and succeeds. The receipt names the directory
    /// the caller must delete.
    pub fn remove_version(&mut self, app_name: &str, version: &str) -> (r: Result<
        RemoveReceipt,
        VersionError,
    >)
        ensures
            final(self).config == old(self).config,
            r is Err ==> *final(self) == *old(self),
            ({
                let oldls = old(self).ledgers@;
                let had = has_app(oldls, app_name@);
                let li = app_index(oldls, app_name@);
                (r is Ok) <==> (had && oldls[li].versions@.len() > 1 && !{
                    let a = find_active_from(oldls[li].versions@, 0);
                    a >= 0 && oldls[li].versions@[a].version@ == version@
                })
            }),
            match r {
                Err(e) => {
                    let oldls = old(self).ledgers@;
                    let li = app_index(oldls, app_name@);
                    if !has_app(oldls, app_name@) {
                        e is AppNotFound
                    } else if oldls[li].versions@.len() <= 1 {
                        e matches VersionError::InvalidVersion(m) && m@
                            == "Cannot remove the last version"@
                    } else {
                        e matches VersionError::InvalidVersion(m) && m@
                            == "Cannot remove active version"@
                    }
                },
                Ok(rcpt) => {
                    let oldls = old(self).ledgers@;
                    let ls = final(self).ledgers@;
                    let li = app_index(oldls, app_name@);
                    let old_vs = oldls[li].versions@;
                    &&& ls.len() == oldls.len()
                    &&& forall|j: int| 0 <= j < ls.len() && j != li ==> ls[j] == oldls[j]
                    &&& ls[li].name == oldls[li].name
                    &&& if has_version(old_vs, version@) {
                        ls[li].versions@ == old_vs.remove(
                            crate::metadata::find_version_from(old_vs, version@, 0),
                        )
                    } else {
                        ls[li].versions@ == old_vs
                    }
                    &&& rcpt.version_dir@ == old(self).version_dir_spec(app_name@, version@)
                    &&& rcpt.metadata_path@ == old(self).metadata_path_spec(app_name@)
                },
            },
    {
        let idx = match self.find_app(app_name) {
            Some(i) => i,
            None => {
                return Err(VersionError::AppNotFound(app_name.to_owned()));
            },
        };
        if self.ledgers[idx].versions.len() <= 1 {
            return Err(
                VersionError::InvalidVersion("Cannot remove the last version".to_owned()),
            );
        }
        let is_active_target: bool = match self.ledgers[idx].get_active_version() {
            Some(v) => str_eq(v.version.as_str(), version),
            None => false,
        };
        if is_active_target {
            return Err(VersionError::InvalidVersion("Cannot remove active version".to_owned()));
        }
        let mut ledger = self.ledgers.remove(idx);
        let _ = ledger.remove_version(version);
        self.ledgers.insert(idx, ledger);
        proof {
            assert(final(self).ledgers@ =~= old(self).ledgers@.update(
                idx as int,
                final(self).ledgers@[idx as int],
            ));
        }
        let version_dir = self.get_version_dir(app_name, version);
        let metadata_path = self.get_metadata_path(app_name);
        Ok(RemoveReceipt { version_dir, metadata_path })
    }

    /// The recorded versions of an application, in ledger order.
    pub fn list_versions(&self, app_name: &str) -> (r: Result<Vec<VersionInfo>, VersionError>)
        ensures
            (r is Ok) == has_app(self.ledgers@, app_name@),
            match r {
                Ok(v) => v@ == self.ledgers@[app_index(self.ledgers@, app_name@)].versions@,
                Err(e) => e is AppNotFound,
            },
    {
        let idx = match self.find_app(app_name) {
            Some(i) => i,
            None => {
                return Err(VersionError::AppNotFound(app_name.to_owned()));
            },
        };
        let src = &self.ledgers[idx].versions;
        let n = src.len();
        let mut out: Vec<VersionInfo> = Vec::new();
        let mut i: usize = 0;
        while i < n
            invariant
                i <= n,
                n == src@.len(),
                out@ == src@.subrange(0, i as int),
            decreases n - i,
        {
            out.push(src[i].clone());
            proof {
                assert(out@ =~= src@.subrange(0, i + 1));
            }
            i += 1;
        }
        proof {
            assert(src@.subrange(0, n as int) =~= src@);
        }
        Ok(out)
    }

    /// The label of the active version, if the ledger has one.
    pub fn get_current_version(&self, app_name: &str) -> (r: Result<Option<String>, VersionError>)
        ensures
            (r is Ok) == has_app(self.ledgers@, app_name@),
            match r {
                Ok(opt) => {
                    let vs = self.ledgers@[app_index(self.ledgers@, app_name@)].versions@;
                    let a = find_active_from(vs, 0);
                    match opt {
                        Some(s) => a >= 0 && s@ == vs[a].version@,
                        None => a == -1,
                    }
                },
                Err(e) => e is AppNotFound,
            },
    {
        let idx = match self.find_app(app_name) {
            Some(i) => i,
            None => {
                return Err(VersionError::AppNotFound(app_name.to_owned()));
            },
        };
        match self.ledgers[idx].get_active_version() {
            Some(v) => Ok(Some(v.version.clone())),
            None => Ok(None),
        }
    }

    /// Applies retention pruning to one application's ledger; gives back
    /// the labels of the removed versions, whose directories the caller
    /// must delete. Does nothing while automatic cleanup is off or the
    /// ledger is within the retention bound.
    pub fn cleanup_old_versions(&mut self, app_name: &str) -> (r: Result<Vec<String>, VersionError>)
        ensures
            final(self).config == old(self).config,
            (r is Err) <==> (old(self).config.versions.auto_cleanup_enabled && !has_app(
                old(self).ledgers@,
                app_name@,
            )),
            !old(self).config.versions.auto_cleanup_enabled ==> r is Ok && *final(self) == *old(
                self,
            ),
            old(self).config.versions.auto_cleanup_enabled && !has_app(
                old(self).ledgers@,
                app_name@,
            ) ==> *final(self) == *old(self),
            match r {
                Err(e) => e is AppNotFound,
                Ok(removed) => {
                    let oldls = old(self).ledgers@;
                    let ls = final(self).ledgers@;
                    if old(self).config.versions.auto_cleanup_enabled && has_app(
                        oldls,
                        app_name@,
                    ) {
                        let li = app_index(oldls, app_name@);
                        let max = old(self).config.versions.max_versions_per_app as int;
                        if oldls[li].versions@.len() <= max {
                            *final(self) == *old(self) && removed@.len() == 0
                        } else {
                            &&& ls.len() == oldls.len()
                            &&& forall|j: int| 0 <= j < ls.len() && j != li ==> ls[j] == oldls[j]
                            &&& ls[li].name == oldls[li].name
                            &&& rv(ls[li].versions@) == prune_seq(rv(oldls[li].versions@), max)
                            &&& removed.deep_view() == removed_labels(
                                rv(oldls[li].versions@),
                                max,
                            )
                        }
                    } else {
                        removed@.len() == 0
                    }
                },
            },
    {
        if !self.config.versions.auto_cleanup_enabled {
            return Ok(Vec::new());
        }
        let idx = match self.find_app(app_name) {
            Some(i) => i,
            None => {
                return Err(VersionError::AppNotFound(app_name.to_owned()));
            },
        };
        let max = self.config.versions.max_versions_per_app;
        if self.ledgers[idx].versions.len() <= max {
            return Ok(Vec::new());
        }
        let mut ledger = self.ledgers.remove(idx);
        let removed = prune_ledger(&mut ledger, max);
        self.ledgers.insert(idx, ledger);
        proof {
            assert(final(self).ledgers@ =~= old(self).ledgers@.update(
                idx as int,
                final(self).ledgers@[idx as int],
            ));
        }
        Ok(removed)
    }
}

} // verus!
