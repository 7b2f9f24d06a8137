//! The Metadata Cache: a checksum-keyed table that lets repeated scans skip
//! bundles already processed.
//!
//! Reading and writing the cache file is the caller's part; the table and
//! its lookup rules live here.
use vstd::prelude::*;

use crate::clock::epoch_now;
use crate::text::path_join;
use crate::text::str_eq;

verus! {

/// Why a cache operation failed; the detail string is for the operator.
#[derive(Debug)]
pub enum CacheError {
    Io(String),
    Serde(String),
    InvalidEntry,
}

/// The remembered outcome of one bundle's last successful processing.
#[derive(Debug, PartialEq)]
pub struct CacheEntry {
    pub checksum: String,
    pub mtime: i64,
    pub processed_at: i64,
    pub normalized_name: String,
    pub version: String,
}

impl Clone for CacheEntry {
    fn clone(&self) -> (r: Self)
        ensures
            r == *self,
    {
        CacheEntry {
            checksum: self.checksum.clone(),
            mtime: self.mtime,
            processed_at: self.processed_at,
            normalized_name: self.normalized_name.clone(),
            version: self.version.clone(),
        }
    }
}

/// Index of the first entry keyed by `path`, or minus one.
pub open spec fn entry_index_from(s: Seq<(String, CacheEntry)>, path: Seq<char>, i: int) -> int
    decreases s.len() - i,
{
    if i < 0 || i >= s.len() {
        -1
    } else if s[i].0@ == path {
        i
    } else {
        entry_index_from(s, path, i + 1)
    }
}

pub open spec fn entry_index(s: Seq<(String, CacheEntry)>, path: Seq<char>) -> int {
    entry_index_from(s, path, 0)
}

/// Some entry is keyed by `path`.
pub open spec fn has_entry(s: Seq<(String, CacheEntry)>, path: Seq<char>) -> bool {
    exists|i: int| 0 <= i < s.len() && #[trigger] s[i].0@ == path
}

proof fn lemma_entry_index(s: Seq<(String, CacheEntry)>, path: Seq<char>, i: int)
    requires
        0 <= i <= s.len(),
        forall|j: int| 0 <= j < i ==> s[j].0@ != path,
    ensures
        has_entry(s, path) <==> 0 <= entry_index_from(s, path, i),
        entry_index(s, path) == entry_index_from(s, path, i),
        0 <= entry_index_from(s, path, i) ==> entry_index_from(s, path, i) < s.len() && s[
            entry_index_from(s, path, i)
        ].0@ == path,
    decreases s.len() - i,
{
    lemma_entry_index_prefix(s, path, 0, i);
    if i < s.len() && s[i].0@ != path {
        lemma_entry_index(s, path, i + 1);
    }
}

proof fn lemma_entry_index_prefix(s: Seq<(String, CacheEntry)>, path: Seq<char>, a: int, b: int)
    requires
        0 <= a <= b <= s.len(),
        forall|j: int| a <= j < b ==> s[j].0@ != path,
    ensures
        entry_index_from(s, path, a) == entry_index_from(s, path, b),
    decreases b - a,
{
    if a < b {
        lemma_entry_index_prefix(s, path, a + 1, b);
    }
}

/// `entry_index` finds the first entry with the given key: in range
/// exactly when one exists, keyed as asked, with no earlier match.
pub proof fn lemma_entry_index_props(s: Seq<(String, CacheEntry)>, path: Seq<char>)
    ensures
        has_entry(s, path) <==> 0 <= entry_index(s, path) < s.len(),
        0 <= entry_index(s, path) < s.len() ==> s[entry_index(s, path)].0@ == path,
        forall|j: int| 0 <= j < entry_index(s, path) ==> s[j].0@ != path,
{
    lemma_eif_props(s, path, 0);
}

proof fn lemma_eif_props(s: Seq<(String, CacheEntry)>, path: Seq<char>, i: int)
    requires
        0 <= i <= s.len(),
    ensures
        ({
            let k = entry_index_from(s, path, i);
            if k == -1 {
                forall|j: int| i <= j < s.len() ==> s[j].0@ != path
            } else {
                i <= k < s.len() && s[k].0@ == path && (forall|j: int|
                    i <= j < k ==> s[j].0@ != path)
            }
        }),
        (exists|j: int| i <= j < s.len() && #[trigger] s[j].0@ == path) <==> entry_index_from(
            s,
            path,
            i,
        ) != -1,
    decreases s.len() - i,
{
    if i < s.len() && s[i].0@ != path {
        lemma_eif_props(s, path, i + 1);
    }
}

/// The cache table, keyed by a bundle's source path in the staging
/// directory.
#[derive(Debug)]
pub struct MetadataCache {
    pub cache_file: String,
    pub entries: Vec<(String, CacheEntry)>,
}

impl MetadataCache {
    /// An empty cache whose backing file lives under the given directory.
    /// The caller loads any persisted entries with `restore_entry`.
    pub fn new(cache_dir: &str) -> (r: Self)
        ensures
            r.cache_file@ == cache_dir@ + "/"@ + "metadata_cache.json"@,
            r.entries@ == Seq::<(String, CacheEntry)>::empty(),
    {
        MetadataCache {
            cache_file: path_join(cache_dir, "metadata_cache.json"),
            entries: Vec::new(),
        }
    }

    /// The stored record for `path` carries exactly the given checksum.
    pub open spec fn is_cached_spec(&self, path: Seq<char>, checksum: Seq<char>) -> bool {
        has_entry(self.entries@, path) && self.entries@[entry_index(
            self.entries@,
            path,
        )].1.checksum@ == checksum
    }

    pub fn is_cached(&self, path: &str, checksum: &str) -> (r: bool)
        ensures
            r == self.is_cached_spec(path@, checksum@),
    {
        match self.get_cached_entry(path) {
            Some(e) => str_eq(e.checksum.as_str(), checksum),
            None => false,
        }
    }

    /// Position of the record keyed by `path`.
    fn find_key(&self, path: &str) -> (r: Option<usize>)
        ensures
            (r is Some) == has_entry(self.entries@, path@),
            match r {
                Some(i) => 0 <= i < self.entries@.len() && i as int == entry_index(
                    self.entries@,
                    path@,
                ) && self.entries@[i as int].0@ == path@,
                None => true,
            },
    {
        let n = self.entries.len();
        let mut i: usize = 0;
        while i < n
            invariant
                i <= n,
                n == self.entries@.len(),
                forall|j: int| 0 <= j < i ==> self.entries@[j].0@ != path@,
            decreases n - i,
        {
            if str_eq(self.entries[i].0.as_str(), path) {
                proof {
                    lemma_entry_index(self.entries@, path@, i as int);
                }
                return Some(i);
            }
            i += 1;
        }
        proof {
            lemma_entry_index(self.entries@, path@, n as int);
        }
        None
    }

    /// The stored record for `path`, if any.
    pub fn get_cached_entry(&self, path: &str) -> (r: Option<&CacheEntry>)
        ensures
            (r is Some) == has_entry(self.entries@, path@),
            match r {
                Some(e) => {
                    let k = entry_index(self.entries@, path@);
                    0 <= k < self.entries@.len() && *e == self.entries@[k].1
                },
                None => true,
            },
    {
        match self.find_key(path) {
            Some(i) => Some(&self.entries[i].1),
            None => None,
        }
    }

    /// Upserts the record for `path` with a fresh processing timestamp.
    pub fn add_entry(
        &mut self,
        path: &str,
        checksum: String,
        mtime: i64,
        normalized_name: String,
        version: String,
    )
        ensures
            final(self).cache_file == old(self).cache_file,
            ({
                let k = entry_index(old(self).entries@, path@);
                let at = if has_entry(old(self).entries@, path@) {
                    k
                } else {
                    old(self).entries@.len() as int
                };
                &&& final(self).entries@.len() as int == if has_entry(old(self).entries@, path@) {
                    old(self).entries@.len() as int
                } else {
                    old(self).entries@.len() as int + 1
                }
                &&& forall|j: int|
                    0 <= j < final(self).entries@.len() && j != at ==> final(self).entries@[j]
                        == old(self).entries@[j]
                &&& final(self).entries@[at].0@ == path@
                &&& final(self).entries@[at].1.checksum == checksum
                &&& final(self).entries@[at].1.mtime == mtime
                &&& final(self).entries@[at].1.normalized_name == normalized_name
                &&& final(self).entries@[at].1.version == version
            }),
    {
        let processed_at = epoch_now();
        let entry = CacheEntry { checksum, mtime, processed_at, normalized_name, version };
        match self.find_key(path) {
            Some(i) => {
                self.entries.set(i, (path.to_owned(), entry));
            },
            None => {
                self.entries.push((path.to_owned(), entry));
            },
        }
    }

    /// Puts back one persisted record exactly as it was stored.
    pub fn restore_entry(&mut self, path: String, entry: CacheEntry)
        ensures
            final(self).cache_file == old(self).cache_file,
            ({
                let k = entry_index(old(self).entries@, path@);
                if has_entry(old(self).entries@, path@) {
                    final(self).entries@ == old(self).entries@.update(k, (path, entry))
                } else {
                    final(self).entries@ == old(self).entries@.push((path, entry))
                }
            }),
    {
        match self.find_key(path.as_str()) {
            Some(i) => {
                self.entries.set(i, (path, entry));
            },
            None => {
                self.entries.push((path, entry));
            },
        }
    }

    /// The source paths of all stored records, for the caller to test
    /// against the staging directory.
    pub fn keys(&self) -> (r: Vec<String>)
        ensures
            r.deep_view() == self.entries@.map_values(|e: (String, CacheEntry)| e.0@),
    {
        let n = self.entries.len();
        let mut out: Vec<String> = Vec::new();
        proof {
            assert(out.deep_view() =~= self.entries@.map_values(
                |e: (String, CacheEntry)| e.0@,
            ).subrange(0, 0));
        }
        let mut i: usize = 0;
        while i < n
            invariant
                i <= n,
                n == self.entries@.len(),
                out.deep_view() == self.entries@.map_values(
                    |e: (String, CacheEntry)| e.0@,
                ).subrange(0, i as int),
            decreases n - i,
        {
            let ghost d0 = out.deep_view();
            out.push(self.entries[i].0.clone());
            proof {
                assert(out.deep_view() =~~= d0 + seq![self.entries@[i as int].0@]);
                assert(d0 + seq![self.entries@[i as int].0@] =~= self.entries@.map_values(
                    |e: (String, CacheEntry)| e.0@,
                ).subrange(0, i + 1));
            }
            i += 1;
        }
        proof {
            let full = self.entries@.map_values(|e: (String, CacheEntry)| e.0@);
            assert(full.subrange(0, full.len() as int) =~= full);
        }
        out
    }

    /// One of the given keys names this entry.
    pub open spec fn key_listed(dead: Seq<Seq<char>>, k: Seq<char>) -> bool {
        exists|j: int| 0 <= j < dead.len() && dead[j] == k
    }

    /// The entries of `s[i..]` whose keys are not listed in `dead`.
    pub open spec fn retained_from(
        s: Seq<(String, CacheEntry)>,
        dead: Seq<Seq<char>>,
        i: int,
    ) -> Seq<(String, CacheEntry)>
        decreases s.len() - i,
    {
        if i < 0 || i >= s.len() {
            Seq::empty()
        } else if Self::key_listed(dead, s[i].0@) {
            Self::retained_from(s, dead, i + 1)
        } else {
            seq![s[i]] + Self::retained_from(s, dead, i + 1)
        }
    }

    /// Drops every record whose source path is among `missing_paths` — the
    /// paths the caller found gone from the staging directory.
    pub fn cleanup_stale_entries(&mut self, missing_paths: &Vec<String>)
        ensures
            final(self).cache_file == old(self).cache_file,
            final(self).entries@ == Self::retained_from(
                old(self).entries@,
                missing_paths.deep_view(),
                0,
            ),
    {
        let n = self.entries.len();
        let ghost dead = missing_paths.deep_view();
        let mut kept: Vec<(String, CacheEntry)> = Vec::new();
        proof {
            assert(kept@ + Self::retained_from(self.entries@, dead, 0) =~= Self::retained_from(
                self.entries@,
                dead,
                0,
            ));
        }
        let mut i: usize = 0;
        while i < n
            invariant
                i <= n,
                n == self.entries@.len(),
                *self == *old(self),
                dead == missing_paths.deep_view(),
                Self::retained_from(self.entries@, dead, 0) == kept@ + Self::retained_from(
                    self.entries@,
                    dead,
                    i as int,
                ),
            decreases n - i,
        {
            let mut listed = false;
            let m = missing_paths.len();
            let mut j: usize = 0;
            while j < m
                invariant
                    j <= m,
                    m == missing_paths@.len(),
                    m == dead.len(),
                    dead == missing_paths.deep_view(),
                    i < n,
                    n == self.entries@.len(),
                    listed == exists|q: int|
                        0 <= q < j && #[trigger] dead[q] == self.entries@[i as int].0@,
                decreases m - j,
            {
                if str_eq(missing_paths[j].as_str(), self.entries[i].0.as_str()) {
                    proof {
                        assert(dead[j as int] == self.entries@[i as int].0@);
                    }
                    listed = true;
                }
                j += 1;
            }
            proof {
                assert(listed == Self::key_listed(dead, self.entries@[i as int].0@));
            }
            if !listed {
                let ghost k0 = kept@;
                kept.push((self.entries[i].0.clone(), self.entries[i].1.clone()));
                proof {
                    assert(kept@ =~= k0.push(self.entries@[i as int]));
                    assert(k0 + (seq![self.entries@[i as int]] + Self::retained_from(
                        self.entries@,
                        dead,
                        i + 1,
                    )) =~= k0.push(self.entries@[i as int]) + Self::retained_from(
                        self.entries@,
                        dead,
                        i + 1,
                    ));
                }
            }
            i += 1;
        }
        proof {
            assert(kept@ + Self::retained_from(self.entries@, dead, n as int) =~= kept@);
        }
        self.entries = kept;
    }

    pub fn clear(&mut self)
        ensures
            final(self).cache_file == old(self).cache_file,
            final(self).entries@ == Seq::<(String, CacheEntry)>::empty(),
    {
        self.entries.clear();
    }

    pub fn len(&self) -> (r: usize)
        ensures
            r == self.entries@.len(),
    {
        self.entries.len()
    }
}

} // verus!
