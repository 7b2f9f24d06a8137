//! The Processor: the decisions that drive a staged bundle through
//! validation, caching, installation and publication.
//!
//! Enumerating the staging directory, hashing files, extracting bundles and
//! writing the published artifacts are the caller's part; every choice the
//! pipeline makes — what to skip, what a cache hit is worth, what to
//! install, what to publish — is decided and described here.
use vstd::prelude::*;

use crate::cache::MetadataCache;
use crate::cache::has_entry;
use crate::cache::entry_index;
use crate::clock::compact_ts_of;
use crate::clock::epoch_now;
use crate::clock::format_compact_ts;
use crate::desktop_entry::DesktopEntry;
use crate::desktop_entry::entry_text_spec;
use crate::metadata::Metadata;
use crate::normalize::is_digit;
use crate::normalize::normalize_spec;
use crate::normalize::normalize_appimage_name;
use crate::normalize::is_digit_exec;
use crate::security::SecurityChecker;
use crate::text::chars_eq;
use crate::text::chars_of;
use crate::text::clone_strings;
use crate::text::concat_str;
use crate::text::lines_spec;
use crate::text::path_join;
use crate::text::split_lines;
use crate::text::string_of;
use crate::text::subvec;
use crate::text::trim_spaces_spec;
use crate::text::trim_spaces_vec;
use crate::version_manager::InstallReceipt;
use crate::version_manager::VersionError;
use crate::version_manager::VersionManager;
use crate::version_manager::active_count;
use crate::version_manager::app_index;
use crate::version_manager::has_app;
use crate::version_manager::install_target_index;
use crate::appimage::is_appimage_path;
use crate::appimage::has_appimage_extension;
use crate::metadata::has_version;
use crate::metadata::rv;

verus! {

/// Why one bundle's pipeline failed; the detail is for the batch report.
#[derive(Debug)]
pub enum ProcessError {
    Io(String),
    AppImage(String),
    ExtractionFailed(String),
    DesktopEntry(String),
    Version(VersionError),
}

/// One successfully registered bundle.
#[derive(Debug, PartialEq)]
pub struct ProcessedApp {
    pub normalized_name: String,
    pub appimage_path: String,
}

impl Clone for ProcessedApp {
    fn clone(&self) -> (r: Self)
        ensures
            r == *self,
    {
        ProcessedApp {
            normalized_name: self.normalized_name.clone(),
            appimage_path: self.appimage_path.clone(),
        }
    }
}

/// The aggregated outcome of one batch.
#[derive(Debug)]
pub struct ProcessReport {
    pub processed: Vec<ProcessedApp>,
    pub failed: Vec<(String, String)>,
    pub skipped: Vec<String>,
    pub processing_time_ms: u64,
    pub cached_hits: usize,
    pub parallel_workers: usize,
}

impl ProcessReport {
    pub fn new() -> (r: Self)
        ensures
            r.processed@ == Seq::<ProcessedApp>::empty(),
            r.failed@ == Seq::<(String, String)>::empty(),
            r.skipped@ == Seq::<String>::empty(),
            r.processing_time_ms == 0,
            r.cached_hits == 0,
            r.parallel_workers == 1,
    {
        ProcessReport {
            processed: Vec::new(),
            failed: Vec::new(),
            skipped: Vec::new(),
            processing_time_ms: 0,
            cached_hits: 0,
            parallel_workers: 1,
        }
    }

    pub fn success_count(&self) -> (r: usize)
        ensures
            r == self.processed@.len(),
    {
        self.processed.len()
    }

    pub fn failure_count(&self) -> (r: usize)
        ensures
            r == self.failed@.len(),
    {
        self.failed.len()
    }
}

/// What the caller observed about one staging-directory entry.
#[derive(Debug)]
pub struct DirEntryFacts {
    pub path: String,
    pub mtime: Option<i64>,
}

/// The incremental-scan filter: skip an entry modified before the last
/// recorded scan, when incremental scanning is on and both times are known.
pub open spec fn skip_incremental_spec(
    incremental: bool,
    last_scan: Option<i64>,
    mtime: Option<i64>,
) -> bool {
    incremental && last_scan is Some && mtime is Some && mtime->0 < last_scan->0
}

/// The bundle paths of `es[i..]` the batch will process.
pub open spec fn selected_from(
    es: Seq<DirEntryFacts>,
    incremental: bool,
    last_scan: Option<i64>,
    i: int,
) -> Seq<Seq<char>>
    decreases es.len() - i,
{
    if i < 0 || i >= es.len() {
        Seq::empty()
    } else if is_appimage_path(es[i].path@) && !skip_incremental_spec(
        incremental,
        last_scan,
        es[i].mtime,
    ) {
        seq![es[i].path@] + selected_from(es, incremental, last_scan, i + 1)
    } else {
        selected_from(es, incremental, last_scan, i + 1)
    }
}

/// The bundle paths of `es[i..]` the batch skips as already seen.
pub open spec fn skipped_from(
    es: Seq<DirEntryFacts>,
    incremental: bool,
    last_scan: Option<i64>,
    i: int,
) -> Seq<Seq<char>>
    decreases es.len() - i,
{
    if i < 0 || i >= es.len() {
        Seq::empty()
    } else if is_appimage_path(es[i].path@) && skip_incremental_spec(
        incremental,
        last_scan,
        es[i].mtime,
    ) {
        seq![es[i].path@] + skipped_from(es, incremental, last_scan, i + 1)
    } else {
        skipped_from(es, incremental, last_scan, i + 1)
    }
}

/// Index of the last `-` strictly before `i`, or minus one.
pub open spec fn last_dash_at(s: Seq<char>, i: int) -> int
    decreases i,
{
    if i <= 0 {
        -1
    } else if s[i - 1] == '-' {
        i - 1
    } else {
        last_dash_at(s, i - 1)
    }
}

/// Every character is a digit or a dot.
pub open spec fn all_digits_dots(s: Seq<char>) -> bool {
    forall|i: int| 0 <= i < s.len() ==> is_digit(#[trigger] s[i]) || s[i] == '.'
}

/// The version label read from a file stem's tail: the text after the last
/// hyphen, less one leading `v` marker, accepted when digits and dots are
/// all it holds.
pub open spec fn parse_version_spec(stem: Seq<char>) -> Option<Seq<char>> {
    let d = last_dash_at(stem, stem.len() as int);
    if d < 0 {
        None
    } else {
        let suffix = stem.skip(d + 1);
        let v = if suffix.len() > 0 && suffix[0] == 'v' {
            suffix.skip(1)
        } else {
            suffix
        };
        if all_digits_dots(v) {
            Some(v)
        } else {
            None
        }
    }
}

proof fn lemma_last_dash_at_bounds(s: Seq<char>, i: int)
    requires
        0 <= i <= s.len(),
    ensures
        -1 <= last_dash_at(s, i) < i,
    decreases i,
{
    if i > 0 && s[i - 1] != '-' {
        lemma_last_dash_at_bounds(s, i - 1);
    }
}

/// The version label parsed from a file stem's tail, if one is there.
pub fn parse_trailing_version(stem: &str) -> (r: Option<String>)
    ensures
        match r {
            Some(v) => parse_version_spec(stem@) == Some(v@),
            None => parse_version_spec(stem@) is None,
        },
{
    let sv = chars_of(stem);
    let n = sv.len();
    let mut i: usize = n;
    while i > 0 && sv[i - 1] != '-'
        invariant
            i <= n,
            n == sv@.len(),
            sv@ == stem@,
            last_dash_at(sv@, n as int) == last_dash_at(sv@, i as int),
        decreases i,
    {
        i -= 1;
    }
    proof {
        lemma_last_dash_at_bounds(sv@, n as int);
    }
    if i == 0 {
        return None;
    }
    proof {
        assert(last_dash_at(sv@, i as int) == i - 1);
        assert(sv@.skip(i as int) =~= sv@.subrange(i as int, n as int));
    }
    let suffix = subvec(&sv, i, n);
    let body: Vec<char> = if suffix.len() > 0 && suffix[0] == 'v' {
        proof {
            assert(suffix@.skip(1) =~= suffix@.subrange(1, suffix@.len() as int));
        }
        subvec(&suffix, 1, suffix.len())
    } else {
        suffix
    };
    proof {
        assert(parse_version_spec(stem@) == if all_digits_dots(body@) {
            Some(body@)
        } else {
            Option::<Seq<char>>::None
        });
    }
    let m = body.len();
    let mut k: usize = 0;
    while k < m
        invariant
            k <= m,
            m == body@.len(),
            parse_version_spec(stem@) == if all_digits_dots(body@) {
                Some(body@)
            } else {
                Option::<Seq<char>>::None
            },
            forall|j: int| 0 <= j < k ==> is_digit(#[trigger] body@[j]) || body@[j] == '.',
        decreases m - k,
    {
        if !(is_digit_exec(body[k]) || body[k] == '.') {
            proof {
                assert(!all_digits_dots(body@));
            }
            return None;
        }
        k += 1;
    }
    proof {
        assert(all_digits_dots(body@));
    }
    Some(string_of(&body))
}

/// The identity under which a bundle is registered: its normalized stem.
/// A name that normalization leaves empty is rejected as a hard failure.
pub fn derive_identity(file_stem: &str) -> (r: Result<String, ProcessError>)
    ensures
        (r is Ok) == (normalize_spec(file_stem@).len() > 0),
        match r {
            Ok(name) => name@ == normalize_spec(file_stem@),
            Err(e) => e matches ProcessError::DesktopEntry(m) && m@ == "Empty normalized name"@,
        },
{
    let name = normalize_appimage_name(file_stem);
    if name.as_str().unicode_len() == 0 {
        return Err(ProcessError::DesktopEntry("Empty normalized name".to_owned()));
    }
    Ok(name)
}

/// The uppercase twin of an ASCII letter; any other character is unchanged.
pub open spec fn upper_char(c: char) -> char {
    if 97 <= c as u32 && c as u32 <= 122 {
        (c as u32 - 32) as char
    } else {
        c
    }
}

/// A name with its first character uppercased.
pub open spec fn capitalized(s: Seq<char>) -> Seq<char> {
    if s.len() == 0 {
        s
    } else {
        seq![upper_char(s[0])] + s.skip(1)
    }
}

/// The display name published when a bundle embeds no descriptor: the
/// identity with its first character uppercased.
pub fn default_display_name(normalized_name: &str) -> (r: String)
    ensures
        r@ == capitalized(normalized_name@),
{
    let v = chars_of(normalized_name);
    if v.len() == 0 {
        return String::new();
    }
    let c = v[0];
    let u = c as u32;
    let first: char = if 97 <= u && u <= 122 {
        ((u - 32) as u8) as char
    } else {
        c
    };
    let mut out: Vec<char> = Vec::new();
    out.push(first);
    let n = v.len();
    let mut i: usize = 1;
    while i < n
        invariant
            1 <= i <= n,
            n == v@.len(),
            n >= 1,
            out@ == seq![upper_char(v@[0])] + v@.subrange(1, i as int),
        decreases n - i,
    {
        out.push(v[i]);
        proof {
            assert((seq![upper_char(v@[0])] + v@.subrange(1, i as int)).push(v@[i as int])
                =~= seq![upper_char(v@[0])] + v@.subrange(1, i + 1));
        }
        i += 1;
    }
    proof {
        assert(v@.skip(1) =~= v@.subrange(1, n as int));
    }
    string_of(&out)
}

/// The launch line a usable cached registration must still publish.
pub open spec fn expected_exec_spec(symlink_dir: Seq<char>, name: Seq<char>) -> Seq<char> {
    "Exec="@ + (symlink_dir + "/"@ + name)
}

/// A cached registration is usable only while the launcher symlink exists
/// and the desktop entry still launches through it.
pub open spec fn cache_usable_spec(
    symlink_dir: Seq<char>,
    name: Seq<char>,
    desktop_content: Option<Seq<char>>,
    symlink_exists: bool,
) -> bool {
    &&& symlink_exists
    &&& match desktop_content {
        Some(c) => exists|i: int|
            0 <= i < lines_spec(c).len() && trim_spaces_spec(#[trigger] lines_spec(c)[i])
                == expected_exec_spec(symlink_dir, name),
        None => false,
    }
}

pub open spec fn opt_string_view(o: Option<String>) -> Option<Seq<char>> {
    match o {
        Some(s) => Some(s@),
        None => None,
    }
}

/// What the caller must write to publish one registration: the desktop
/// entry whose launch command targets the stable launcher path, and the
/// launcher symlink pointing at the installed payload.
pub struct Publication {
    pub desktop_path: String,
    pub desktop_content: String,
    pub symlink_path: String,
    pub symlink_target: String,
}

pub struct Processor {
    pub raw_dir: String,
    pub bin_dir: String,
    pub icon_dir: String,
    pub desktop_dir: String,
    pub symlink_dir: String,
    pub version_manager: VersionManager,
    pub security_checker: SecurityChecker,
    pub dry_run: bool,
    pub cache: Option<MetadataCache>,
    pub parallel_enabled: bool,
    pub incremental_scan: bool,
    pub last_scan_time: Option<i64>,
}

impl Processor {
    pub fn new(
        raw_dir: String,
        bin_dir: String,
        icon_dir: String,
        desktop_dir: String,
        symlink_dir: String,
        version_manager: VersionManager,
        security_checker: SecurityChecker,
    ) -> (r: Self)
        ensures
            r.raw_dir == raw_dir,
            r.bin_dir == bin_dir,
            r.icon_dir == icon_dir,
            r.desktop_dir == desktop_dir,
            r.symlink_dir == symlink_dir,
            r.version_manager == version_manager,
            r.security_checker == security_checker,
            !r.dry_run,
            r.cache is None,
            r.parallel_enabled,
            r.incremental_scan,
            r.last_scan_time is None,
    {
        Processor {
            raw_dir,
            bin_dir,
            icon_dir,
            desktop_dir,
            symlink_dir,
            version_manager,
            security_checker,
            dry_run: false,
            cache: None,
            parallel_enabled: true,
            incremental_scan: true,
            last_scan_time: None,
        }
    }

    pub fn with_performance_config(
        self,
        cache_dir: Option<String>,
        parallel_enabled: bool,
        incremental_scan: bool,
        last_scan_time: Option<i64>,
    ) -> (r: Self)
        ensures
            match cache_dir {
                Some(d) => r.cache matches Some(c) && c.cache_file@ == d@ + "/"@
                    + "metadata_cache.json"@ && c.entries@ == Seq::<(
                    String,
                    crate::cache::CacheEntry,
                )>::empty(),
                None => r.cache == self.cache,
            },
            r.parallel_enabled == parallel_enabled,
            r.incremental_scan == incremental_scan,
            r.last_scan_time == last_scan_time,
            r.raw_dir == self.raw_dir,
            r.bin_dir == self.bin_dir,
            r.icon_dir == self.icon_dir,
            r.desktop_dir == self.desktop_dir,
            r.symlink_dir == self.symlink_dir,
            r.version_manager == self.version_manager,
            r.security_checker == self.security_checker,
            r.dry_run == self.dry_run,
    {
        let mut r = self;
        match cache_dir {
            Some(d) => {
                r.cache = Some(MetadataCache::new(d.as_str()));
            },
            None => {},
        }
        r.parallel_enabled = parallel_enabled;
        r.incremental_scan = incremental_scan;
        r.last_scan_time = last_scan_time;
        r
    }

    pub fn with_dry_run(self, dry_run: bool) -> (r: Self)
        ensures
            r.dry_run == dry_run,
            r.raw_dir == self.raw_dir,
            r.bin_dir == self.bin_dir,
            r.icon_dir == self.icon_dir,
            r.desktop_dir == self.desktop_dir,
            r.symlink_dir == self.symlink_dir,
            r.version_manager == self.version_manager,
            r.security_checker == self.security_checker,
            r.cache == self.cache,
            r.parallel_enabled == self.parallel_enabled,
            r.incremental_scan == self.incremental_scan,
            r.last_scan_time == self.last_scan_time,
    {
        let mut r = self;
        r.dry_run = dry_run;
        r
    }

    /// The incremental-scan filter for one entry's modification time.
    pub fn should_skip_incremental(&self, mtime: Option<i64>) -> (r: bool)
        ensures
            r == skip_incremental_spec(self.incremental_scan, self.last_scan_time, mtime),
    {
        if !self.incremental_scan {
            return false;
        }
        match (self.last_scan_time, mtime) {
            (Some(last), Some(m)) => m < last,
            _ => false,
        }
    }

    /// Sorts the staging directory's entries into the bundles to process
    /// and the ones the incremental filter skips; everything that is not a
    /// bundle is ignored.
    pub fn select_candidates(&self, entries: &Vec<DirEntryFacts>) -> (r: (Vec<String>, Vec<String>))
        ensures
            r.0.deep_view() == selected_from(
                entries@,
                self.incremental_scan,
                self.last_scan_time,
                0,
            ),
            r.1.deep_view() == skipped_from(
                entries@,
                self.incremental_scan,
                self.last_scan_time,
                0,
            ),
    {
        let n = entries.len();
        let mut to_process: Vec<String> = Vec::new();
        let mut skipped: Vec<String> = Vec::new();
        let ghost inc = self.incremental_scan;
        let ghost last = self.last_scan_time;
        proof {
            assert(to_process.deep_view() + selected_from(entries@, inc, last, 0)
                =~= selected_from(entries@, inc, last, 0));
            assert(skipped.deep_view() + skipped_from(entries@, inc, last, 0) =~= skipped_from(
                entries@,
                inc,
                last,
                0,
            ));
        }
        let mut i: usize = 0;
        while i < n
            invariant
                i <= n,
                n == entries@.len(),
                inc == self.incremental_scan,
                last == self.last_scan_time,
                selected_from(entries@, inc, last, 0) == to_process.deep_view() + selected_from(
                    entries@,
                    inc,
                    last,
                    i as int,
                ),
                skipped_from(entries@, inc, last, 0) == skipped.deep_view() + skipped_from(
                    entries@,
                    inc,
                    last,
                    i as int,
                ),
            decreases n - i,
        {
            if has_appimage_extension(entries[i].path.as_str()) {
                if self.should_skip_incremental(entries[i].mtime) {
                    let ghost d0 = skipped.deep_view();
                    skipped.push(entries[i].path.clone());
                    proof {
                        assert(skipped.deep_view() =~~= d0 + seq![entries@[i as int].path@]);
                        assert(d0 + (seq![entries@[i as int].path@] + skipped_from(
                            entries@,
                            inc,
                            last,
                            i + 1,
                        )) =~= (d0 + seq![entries@[i as int].path@]) + skipped_from(
                            entries@,
                            inc,
                            last,
                            i + 1,
                        ));
                    }
                } else {
                    let ghost d0 = to_process.deep_view();
                    to_process.push(entries[i].path.clone());
                    proof {
                        assert(to_process.deep_view() =~~= d0 + seq![entries@[i as int].path@]);
                        assert(d0 + (seq![entries@[i as int].path@] + selected_from(
                            entries@,
                            inc,
                            last,
                            i + 1,
                        )) =~= (d0 + seq![entries@[i as int].path@]) + selected_from(
                            entries@,
                            inc,
                            last,
                            i + 1,
                        ));
                    }
                }
            }
            i += 1;
        }
        proof {
            assert(to_process.deep_view() + selected_from(entries@, inc, last, n as int)
                =~= to_process.deep_view());
            assert(skipped.deep_view() + skipped_from(entries@, inc, last, n as int)
                =~= skipped.deep_view());
        }
        (to_process, skipped)
    }

    /// The version label for an install: the one parsed from the file
    /// stem's tail when it looks like a version, else a label synthesized
    /// from the identity and the compactly rendered current time.
    pub fn extract_version_from_appimage(&self, file_stem: &str, normalized_name: &str) -> (r:
        String)
        ensures
            match parse_version_spec(file_stem@) {
                Some(v) => r@ == v,
                None => exists|t: i64| r@ == normalized_name@ + "-"@ + compact_ts_of(t),
            },
    {
        match parse_trailing_version(file_stem) {
            Some(v) => v,
            None => {
                let now = epoch_now();
                let stamp = format_compact_ts(now);
                let withdash = concat_str(normalized_name, "-");
                let r = concat_str(withdash.as_str(), stamp.as_str());
                proof {
                    assert(r@ == normalized_name@ + "-"@ + compact_ts_of(now));
                }
                r
            },
        }
    }

    /// Whether a cached registration may be reused: the launcher symlink
    /// must exist and the desktop entry (read by the caller) must still
    /// launch through it.
    pub fn cache_entry_is_usable(
        &self,
        normalized_name: &str,
        desktop_content: &Option<String>,
        symlink_exists: bool,
    ) -> (r: bool)
        ensures
            r == cache_usable_spec(
                self.symlink_dir@,
                normalized_name@,
                opt_string_view(*desktop_content),
                symlink_exists,
            ),
    {
        if !symlink_exists {
            return false;
        }
        let content: &String = match desktop_content {
            Some(c) => c,
            None => {
                return false;
            },
        };
        let link = path_join(self.symlink_dir.as_str(), normalized_name);
        let expected = concat_str("Exec=", link.as_str());
        let expected_v = chars_of(expected.as_str());
        let cv = chars_of(content.as_str());
        let lines = split_lines(&cv);
        let n = lines.len();
        proof {
            assert(lines.deep_view().len() == lines@.len());
            assert(expected_v@ == expected_exec_spec(self.symlink_dir@, normalized_name@));
        }
        let mut i: usize = 0;
        while i < n
            invariant
                i <= n,
                n == lines@.len(),
                n == lines.deep_view().len(),
                lines.deep_view() == lines_spec(content@),
                symlink_exists,
                opt_string_view(*desktop_content) == Some(content@),
                expected_v@ == expected_exec_spec(self.symlink_dir@, normalized_name@),
                forall|j: int|
                    0 <= j < i ==> trim_spaces_spec(#[trigger] lines_spec(content@)[j])
                        != expected_exec_spec(self.symlink_dir@, normalized_name@),
            decreases n - i,
        {
            proof {
                assert(lines.deep_view()[i as int] =~= lines@[i as int]@);
            }
            let trimmed = trim_spaces_vec(&lines[i]);
            if chars_eq(&trimmed, &expected_v) {
                proof {
                    let cview = opt_string_view(*desktop_content)->0;
                    assert(cview == content@);
                    assert(0 <= i < lines_spec(cview).len() && trim_spaces_spec(
                        lines_spec(cview)[i as int],
                    ) == expected_exec_spec(self.symlink_dir@, normalized_name@));
                    assert(cache_usable_spec(
                        self.symlink_dir@,
                        normalized_name@,
                        opt_string_view(*desktop_content),
                        symlink_exists,
                    ));
                }
                return true;
            }
            i += 1;
        }
        false
    }

    /// The remembered identity for a bundle whose cache record is both a
    /// checksum hit and still usable; anything else must be reprocessed.
    pub fn cached_identity(
        &self,
        path: &str,
        checksum: &str,
        desktop_content: &Option<String>,
        symlink_exists: bool,
    ) -> (r: Option<String>)
        ensures
            match r {
                Some(name) => {
                    &&& self.cache matches Some(c) && c.is_cached_spec(path@, checksum@)
                        && name@ == c.entries@[entry_index(
                        c.entries@,
                        path@,
                    )].1.normalized_name@
                    &&& cache_usable_spec(
                        self.symlink_dir@,
                        name@,
                        opt_string_view(*desktop_content),
                        symlink_exists,
                    )
                },
                None => match self.cache {
                    Some(c) => !(c.is_cached_spec(path@, checksum@) && cache_usable_spec(
                        self.symlink_dir@,
                        c.entries@[entry_index(c.entries@, path@)].1.normalized_name@,
                        opt_string_view(*desktop_content),
                        symlink_exists,
                    )),
                    None => true,
                },
            },
    {
        let cache = match &self.cache {
            Some(c) => c,
            None => {
                return None;
            },
        };
        if !cache.is_cached(path, checksum) {
            return None;
        }
        let entry = match cache.get_cached_entry(path) {
            Some(e) => e,
            None => {
                return None;
            },
        };
        if self.cache_entry_is_usable(
            entry.normalized_name.as_str(),
            desktop_content,
            symlink_exists,
        ) {
            Some(entry.normalized_name.clone())
        } else {
            None
        }
    }

    /// Remembers a fresh processing outcome in the cache. A dry run
    /// remembers nothing.
    pub fn record_processing(
        &mut self,
        path: &str,
        checksum: String,
        mtime: i64,
        normalized_name: String,
        version: String,
    )
        ensures
            old(self).dry_run || old(self).cache is None ==> *final(self) == *old(self),
            final(self).raw_dir == old(self).raw_dir,
            final(self).bin_dir == old(self).bin_dir,
            final(self).icon_dir == old(self).icon_dir,
            final(self).desktop_dir == old(self).desktop_dir,
            final(self).symlink_dir == old(self).symlink_dir,
            final(self).version_manager == old(self).version_manager,
            final(self).security_checker == old(self).security_checker,
            final(self).dry_run == old(self).dry_run,
            final(self).parallel_enabled == old(self).parallel_enabled,
            final(self).incremental_scan == old(self).incremental_scan,
            final(self).last_scan_time == old(self).last_scan_time,
            (!old(self).dry_run && old(self).cache is Some) ==> (final(self).cache
                matches Some(c1) && c1.cache_file == old(self).cache->0.cache_file
                && has_entry(c1.entries@, path@) && ({
                let at = entry_index(c1.entries@, path@);
                &&& c1.entries@[at].1.checksum == checksum
                &&& c1.entries@[at].1.mtime == mtime
                &&& c1.entries@[at].1.normalized_name == normalized_name
                &&& c1.entries@[at].1.version == version
            })),
    {
        if self.dry_run {
            return ;
        }
        match &mut self.cache {
            Some(c) => {
                c.add_entry(path, checksum, mtime, normalized_name, version);
            },
            None => {
                return ;
            },
        }
        proof {
            let olde = old(self).cache->0.entries@;
            let newe = self.cache->0.entries@;
            let at = if has_entry(olde, path@) {
                entry_index(olde, path@)
            } else {
                olde.len() as int
            };
            crate::cache::lemma_entry_index_props(olde, path@);
            crate::cache::lemma_entry_index_props(newe, path@);
            assert(newe[at].0@ == path@);
            assert(has_entry(newe, path@));
            let k = entry_index(newe, path@);
            assert(forall|j: int| 0 <= j < at ==> newe[j] == olde[j]);
            assert forall|j: int| 0 <= j < at implies #[trigger] newe[j].0@ != path@ by {
                assert(newe[j] == olde[j]);
                assert(olde[j].0@ != path@);
            }
            if k < at {
                assert(newe[k].0@ == path@);
                assert(false);
            }
            if k > at {
                assert(newe[at].0@ != path@);
                assert(false);
            }
            assert(k == at);
        }
    }

    /// What to publish for one registered bundle: the desktop entry whose
    /// launch command targets the stable launcher symlink — never the
    /// version-scoped install path — and the launcher symlink pointing at
    /// the active payload.
    pub fn publication(
        &self,
        metadata: &Metadata,
        icon_path: &Option<String>,
        normalized_name: &str,
    ) -> (r: Publication)
        ensures
            r.symlink_path@ == self.symlink_dir@ + "/"@ + normalized_name@,
            r.symlink_target@ == self.version_manager.launcher_target_spec(normalized_name@),
            r.desktop_path@ == self.desktop_dir@ + "/"@ + (normalized_name@ + ".desktop"@),
            r.desktop_content@ == entry_text_spec(
                metadata.name@,
                self.symlink_dir@ + "/"@ + normalized_name@,
                match *icon_path {
                    Some(p) => p@,
                    None => Seq::<char>::empty(),
                },
                false,
                metadata.categories.deep_view(),
            ),
    {
        let symlink_path = path_join(self.symlink_dir.as_str(), normalized_name);
        let symlink_target = self.version_manager.get_launcher_target(normalized_name);
        let file = concat_str(normalized_name, ".desktop");
        let desktop_path = path_join(self.desktop_dir.as_str(), file.as_str());
        let icon_str: String = match icon_path {
            Some(p) => p.clone(),
            None => String::new(),
        };
        proof {
            assert(match *icon_path {
                Some(p) => icon_str@ == p@,
                None => icon_str@ =~= Seq::<char>::empty(),
            });
        }
        let entry = DesktopEntry::with_categories(
            metadata.name.clone(),
            symlink_path.clone(),
            icon_str,
            clone_strings(&metadata.categories),
        );
        let desktop_content = entry.to_file_content();
        Publication { desktop_path, desktop_content, symlink_path, symlink_target }
    }

    /// Records the install in the version store — unless this is a dry
    /// run, which decides everything but changes nothing.
    pub fn register_bundle(&mut self, normalized_name: &str, version: &str, checksum: String) -> (r:
        Result<Option<InstallReceipt>, ProcessError>)
        ensures
            final(self).raw_dir == old(self).raw_dir,
            final(self).bin_dir == old(self).bin_dir,
            final(self).icon_dir == old(self).icon_dir,
            final(self).desktop_dir == old(self).desktop_dir,
            final(self).symlink_dir == old(self).symlink_dir,
            final(self).security_checker == old(self).security_checker,
            final(self).dry_run == old(self).dry_run,
            final(self).cache == old(self).cache,
            final(self).parallel_enabled == old(self).parallel_enabled,
            final(self).incremental_scan == old(self).incremental_scan,
            final(self).last_scan_time == old(self).last_scan_time,
            old(self).dry_run ==> *final(self) == *old(self),
            old(self).dry_run ==> (r matches Ok(o) && o is None),
            !old(self).dry_run ==> {
                let oldvm = old(self).version_manager;
                &&& ((r is Err) <==> (has_app(oldvm.ledgers@, normalized_name@) && has_version(
                    oldvm.ledgers@[app_index(oldvm.ledgers@, normalized_name@)].versions@,
                    version@,
                )))
                &&& (r is Err ==> *final(self) == *old(self))
                &&& match r {
                    Err(e) => e matches ProcessError::Version(ve) && ve
                        matches VersionError::VersionExists(s) && s@ == version@,
                    Ok(o) => o matches Some(rcpt) && {
                        let ti = install_target_index(oldvm.ledgers@, normalized_name@);
                        let vsv = rv(final(self).version_manager.ledgers@[ti].versions@);
                        &&& active_count(vsv) == 1
                        &&& exists|k: int|
                            0 <= k < vsv.len() && (#[trigger] vsv[k]).is_active && vsv[k].version
                                == version@ && vsv[k].checksum == checksum@
                        &&& rcpt.link_target@ == oldvm.version_dir_spec(normalized_name@, version@)
                        &&& rcpt.target_path@ == oldvm.appimage_path_spec(
                            normalized_name@,
                            version@,
                        )
                        &&& rcpt.current_link@ == oldvm.current_link_spec(normalized_name@)
                        &&& rcpt.metadata_path@ == oldvm.metadata_path_spec(normalized_name@)
                    },
                }
            },
    {
        if self.dry_run {
            return Ok(None);
        }
        match self.version_manager.install_version(normalized_name, version, checksum) {
            Ok(rcpt) => Ok(Some(rcpt)),
            Err(e) => Err(ProcessError::Version(e)),
        }
    }
}

/// The successful outcomes of `rs[i..]`, in batch order.
pub open spec fn oks_of(rs: Seq<Result<ProcessedApp, (String, String)>>, i: int) -> Seq<
    ProcessedApp,
>
    decreases rs.len() - i,
{
    if i < 0 || i >= rs.len() {
        Seq::empty()
    } else {
        match rs[i] {
            Ok(p) => seq![p] + oks_of(rs, i + 1),
            Err(_) => oks_of(rs, i + 1),
        }
    }
}

/// The failed outcomes of `rs[i..]`, in batch order.
pub open spec fn errs_of(rs: Seq<Result<ProcessedApp, (String, String)>>, i: int) -> Seq<
    (String, String),
>
    decreases rs.len() - i,
{
    if i < 0 || i >= rs.len() {
        Seq::empty()
    } else {
        match rs[i] {
            Ok(_) => errs_of(rs, i + 1),
            Err(e) => seq![e] + errs_of(rs, i + 1),
        }
    }
}

/// Failure isolation in the aggregate: every outcome of the batch is
/// counted exactly once, so one bundle's failure neither hides nor doubles
/// another bundle's success.
pub proof fn lemma_outcomes_partition(rs: Seq<Result<ProcessedApp, (String, String)>>, i: int)
    requires
        0 <= i <= rs.len(),
    ensures
        oks_of(rs, i).len() + errs_of(rs, i).len() == rs.len() - i,
    decreases rs.len() - i,
{
    if i < rs.len() {
        lemma_outcomes_partition(rs, i + 1);
    }
}

/// The batch report assembled from the per-bundle outcomes: successes and
/// failures kept apart and in order, with the skip list and the run's
/// figures carried alongside.
pub fn aggregate_results(
    results: &Vec<Result<ProcessedApp, (String, String)>>,
    skipped: Vec<String>,
    processing_time_ms: u64,
    cached_hits: usize,
    parallel_workers: usize,
) -> (r: ProcessReport)
    ensures
        r.processed@ == oks_of(results@, 0),
        r.failed@ == errs_of(results@, 0),
        r.skipped == skipped,
        r.processing_time_ms == processing_time_ms,
        r.cached_hits == cached_hits,
        r.parallel_workers == parallel_workers,
        r.processed@.len() + r.failed@.len() == results@.len(),
{
    let n = results.len();
    let mut processed: Vec<ProcessedApp> = Vec::new();
    let mut failed: Vec<(String, String)> = Vec::new();
    proof {
        assert(processed@ + oks_of(results@, 0) =~= oks_of(results@, 0));
        assert(failed@ + errs_of(results@, 0) =~= errs_of(results@, 0));
    }
    let mut i: usize = 0;
    while i < n
        invariant
            i <= n,
            n == results@.len(),
            oks_of(results@, 0) == processed@ + oks_of(results@, i as int),
            errs_of(results@, 0) == failed@ + errs_of(results@, i as int),
        decreases n - i,
    {
        match &results[i] {
            Ok(p) => {
                let ghost pv = *p;
                let ghost p0 = processed@;
                processed.push(p.clone());
                proof {
                    assert(results@[i as int] == Ok::<ProcessedApp, (String, String)>(pv));
                    assert(p0 + (seq![pv] + oks_of(results@, i + 1)) =~= (p0 + seq![pv]) + oks_of(
                        results@,
                        i + 1,
                    ));
                }
            },
            Err(e) => {
                let ghost ev = *e;
                let ghost f0 = failed@;
                failed.push((e.0.clone(), e.1.clone()));
                proof {
                    assert(results@[i as int] == Err::<ProcessedApp, (String, String)>(ev));
                    assert(failed@ =~= f0.push(ev));
                    assert(f0 + (seq![ev] + errs_of(results@, i + 1)) =~= (f0 + seq![ev])
                        + errs_of(results@, i + 1));
                }
            },
        }
        i += 1;
    }
    proof {
        assert(processed@ + oks_of(results@, n as int) =~= processed@);
        assert(failed@ + errs_of(results@, n as int) =~= failed@);
        lemma_outcomes_partition(results@, 0);
    }
    ProcessReport {
        processed,
        failed,
        skipped,
        processing_time_ms,
        cached_hits,
        parallel_workers,
    }
}

} // verus!
