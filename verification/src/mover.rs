//! The Mover and Scanner: where discovered bundles land in the staging
//! directory, and which user areas the scan may not enter.
//!
//! Walking the file tree and renaming files is the caller's part; the
//! destination, exclusion and collision rules are decided here.
use vstd::prelude::*;

use crate::text::chars_of;
use crate::text::ext_spec;
use crate::text::file_name_of;
use crate::text::file_name_spec;
use crate::text::last_slash_end;
use crate::text::matches_at;
use crate::text::matches_at_exec;
use crate::text::stem_spec;
use crate::text::string_of;
use crate::text::subvec;
use crate::text::ext_of;
use crate::text::stem_of;
use crate::text::path_join;

verus! {

/// Why a move failed; the detail strings are for the batch report.
#[derive(Debug)]
pub enum MoveError {
    Io(String),
    Scan(String),
    CollisionFailed { path: String, reason: String },
}

/// Why no collision-free name could be produced.
#[derive(Debug)]
pub enum CollisionError {
    Io(String),
    NoUniqueName { base: String },
}

/// Why scanning the user areas failed.
#[derive(Debug)]
pub enum ScanError {
    Io(String),
    Walk(String),
    HomeDirNotFound(String),
}

/// The outcome of one ingest batch.
#[derive(Debug)]
pub struct MoveReport {
    pub moved: Vec<String>,
    pub skipped: Vec<String>,
    pub errors: Vec<(String, String)>,
}

impl MoveReport {
    pub fn new() -> (r: Self)
        ensures
            r.moved@ == Seq::<String>::empty(),
            r.skipped@ == Seq::<String>::empty(),
            r.errors@ == Seq::<(String, String)>::empty(),
    {
        MoveReport { moved: Vec::new(), skipped: Vec::new(), errors: Vec::new() }
    }

    pub fn success_count(&self) -> (r: usize)
        ensures
            r == self.moved@.len(),
    {
        self.moved.len()
    }

    pub fn error_count(&self) -> (r: usize)
        ensures
            r == self.errors@.len(),
    {
        self.errors.len()
    }

    pub fn has_errors(&self) -> (r: bool)
        ensures
            r == (self.errors@.len() > 0),
    {
        self.errors.len() > 0
    }
}

/// Moves bundles from the user areas into the staging directory.
#[derive(Debug)]
pub struct Mover {
    pub source_dir: String,
    pub dest_dir: String,
    pub dry_run: bool,
}

impl Mover {
    pub fn new(source_dir: String, dest_dir: String) -> (r: Self)
        ensures
            r.source_dir == source_dir,
            r.dest_dir == dest_dir,
            !r.dry_run,
    {
        Mover { source_dir, dest_dir, dry_run: false }
    }

    pub fn with_dry_run(self, dry_run: bool) -> (r: Self)
        ensures
            r.source_dir == self.source_dir,
            r.dest_dir == self.dest_dir,
            r.dry_run == dry_run,
    {
        let mut r = self;
        r.dry_run = dry_run;
        r
    }

    /// Where a bundle lands in the staging directory: its own file name
    /// under the destination root.
    pub fn determine_destination(&self, path: &str) -> (r: Result<String, MoveError>)
        ensures
            (r is Ok) == (file_name_spec(path@).len() > 0),
            match r {
                Ok(d) => d@ == self.dest_dir@ + "/"@ + file_name_spec(path@),
                Err(e) => e is Io,
            },
    {
        let name = file_name_of(path);
        if name.len() == 0 {
            return Err(MoveError::Io("Invalid filename".to_owned()));
        }
        Ok(path_join(self.dest_dir.as_str(), string_of(&name).as_str()))
    }
}

/// The decimal digits of `n`, most significant first.
pub open spec fn dec_spec(n: u64) -> Seq<char>
    decreases n,
{
    if n < 10 {
        seq![(48 + n) as char]
    } else {
        dec_spec(n / 10) + seq![(48 + n % 10) as char]
    }
}

/// The decimal rendering of a counter.
pub fn u64_to_dec(n: u64) -> (r: Vec<char>)
    ensures
        r@ == dec_spec(n),
{
    let mut r: Vec<char> = Vec::new();
    push_dec(n, &mut r);
    proof {
        assert(Seq::<char>::empty() + dec_spec(n) =~= dec_spec(n));
    }
    r
}

fn push_dec(n: u64, out: &mut Vec<char>)
    ensures
        final(out)@ == old(out)@ + dec_spec(n),
    decreases n,
{
    if n < 10 {
        out.push(((48 + n) as u8) as char);
        proof {
            assert(final(out)@ =~= old(out)@ + dec_spec(n));
        }
    } else {
        push_dec(n / 10, out);
        let d = n % 10;
        out.push(((48 + d) as u8) as char);
        proof {
            assert((old(out)@ + dec_spec(n / 10)).push((48 + n % 10) as char) =~= old(out)@ + (
            dec_spec(n / 10) + seq![(48 + n % 10) as char]));
        }
    }
}

/// A file name with its extension replaced, as the platform's path API
/// replaces it: the stem keeps everything before the last dot, and an
/// empty extension leaves the bare stem.
pub open spec fn with_ext_spec(name: Seq<char>, ext: Option<Seq<char>>) -> Seq<char> {
    match ext {
        Some(e) => if e.len() == 0 {
            stem_spec(name)
        } else {
            stem_spec(name) + seq!['.'] + e
        },
        None => stem_spec(name),
    }
}

/// The renamed destination tried for collision number `counter`: the
/// original stem, a hyphen and the counter, carrying the original
/// extension, in the destination's own directory.
pub open spec fn collision_candidate_spec(dest: Seq<char>, counter: u64) -> Seq<char> {
    let name = file_name_spec(dest);
    let base = stem_spec(name) + seq!['-'] + dec_spec(counter);
    dest.take(last_slash_end(dest, dest.len() as int)) + with_ext_spec(base, ext_spec(name))
}

/// The collision-free name to try next for an occupied destination.
pub fn collision_candidate(dest: &str, counter: u64) -> (r: Result<String, CollisionError>)
    ensures
        (r is Ok) == (file_name_spec(dest@).len() > 0),
        match r {
            Ok(c) => c@ == collision_candidate_spec(dest@, counter),
            Err(e) => e is NoUniqueName,
        },
{
    let name = file_name_of(dest);
    if name.len() == 0 {
        return Err(CollisionError::NoUniqueName { base: dest.to_owned() });
    }
    let dv = chars_of(dest);
    let n = dv.len();
    let mut i: usize = n;
    while i > 0 && dv[i - 1] != '/'
        invariant
            i <= n,
            n == dv@.len(),
            dv@ == dest@,
            last_slash_end(dv@, n as int) == last_slash_end(dv@, i as int),
        decreases i,
    {
        i -= 1;
    }
    proof {
        assert(dv@.subrange(0, i as int) =~= dest@.take(
            last_slash_end(dest@, dest@.len() as int),
        ));
    }
    let mut out = subvec(&dv, 0, i);
    let stem = stem_of(&name);
    let mut base = stem;
    base.push('-');
    let digits = u64_to_dec(counter);
    let mut k: usize = 0;
    while k < digits.len()
        invariant
            k <= digits@.len(),
            base@ == stem_spec(file_name_spec(dest@)) + seq!['-'] + digits@.subrange(0, k as int),
            digits@ == dec_spec(counter),
        decreases digits@.len() - k,
    {
        base.push(digits[k]);
        proof {
            assert((stem_spec(file_name_spec(dest@)) + seq!['-'] + digits@.subrange(
                0,
                k as int,
            )).push(digits@[k as int]) =~= stem_spec(file_name_spec(dest@)) + seq!['-']
                + digits@.subrange(0, k + 1));
        }
        k += 1;
    }
    proof {
        assert(digits@.subrange(0, digits@.len() as int) =~= digits@);
        assert(stem_spec(file_name_spec(dest@)) + seq!['-'] =~= (stem_spec(file_name_spec(dest@))
            + seq!['-']) + digits@.subrange(0, 0));
    }
    let ghost base_v = base@;
    let renamed: Vec<char> = match ext_of(&name) {
        Some(e) => {
            if e.len() == 0 {
                stem_of(&base)
            } else {
                let mut w = stem_of(&base);
                w.push('.');
                let mut j: usize = 0;
                while j < e.len()
                    invariant
                        j <= e@.len(),
                        w@ == stem_spec(base_v) + seq!['.'] + e@.subrange(0, j as int),
                    decreases e@.len() - j,
                {
                    w.push(e[j]);
                    proof {
                        assert((stem_spec(base_v) + seq!['.'] + e@.subrange(0, j as int)).push(
                            e@[j as int],
                        ) =~= stem_spec(base_v) + seq!['.'] + e@.subrange(0, j + 1));
                    }
                    j += 1;
                }
                proof {
                    assert(e@.subrange(0, e@.len() as int) =~= e@);
                    assert(stem_spec(base_v) + seq!['.'] =~= (stem_spec(base_v) + seq!['.'])
                        + e@.subrange(0, 0));
                }
                w
            }
        },
        None => stem_of(&base),
    };
    let mut full = out;
    let m = renamed.len();
    let ghost out0 = full@;
    let mut q: usize = 0;
    while q < m
        invariant
            q <= m,
            m == renamed@.len(),
            full@ == out0 + renamed@.subrange(0, q as int),
        decreases m - q,
    {
        full.push(renamed[q]);
        proof {
            assert((out0 + renamed@.subrange(0, q as int)).push(renamed@[q as int]) =~= out0
                + renamed@.subrange(0, q + 1));
        }
        q += 1;
    }
    proof {
        assert(renamed@.subrange(0, renamed@.len() as int) =~= renamed@);
        assert(out0 =~= out0 + renamed@.subrange(0, 0));
    }
    Ok(string_of(&full))
}

/// Finds bundles in the user home areas, leaving the excluded trees alone.
#[derive(Debug)]
pub struct Scanner {
    pub home_root: String,
    pub exclude_dirs: Vec<String>,
}

/// `path` lies inside the directory `prefix`: the text matches up to the
/// prefix's end, where the path either stops or descends.
pub open spec fn path_under(path: Seq<char>, prefix: Seq<char>) -> bool {
    matches_at(path, 0, prefix) && (path.len() == prefix.len() || path[prefix.len() as int]
        == '/')
}

impl Scanner {
    /// A scanner over the given root, leaving its cache and local-share
    /// trees alone.
    pub fn new(home_root: String) -> (r: Self)
        ensures
            r.home_root == home_root,
            r.exclude_dirs.deep_view() =~= seq![
                home_root@ + "/"@ + ".cache"@,
                home_root@ + "/"@ + ".local/share"@,
            ],
    {
        let mut exclude_dirs: Vec<String> = Vec::new();
        exclude_dirs.push(path_join(home_root.as_str(), ".cache"));
        exclude_dirs.push(path_join(home_root.as_str(), ".local/share"));
        proof {
            assert(exclude_dirs.deep_view() =~~= seq![
                home_root@ + "/"@ + ".cache"@,
                home_root@ + "/"@ + ".local/share"@,
            ]);
        }
        Scanner { home_root, exclude_dirs }
    }

    pub fn with_excludes(home_root: String, exclude_dirs: Vec<String>) -> (r: Self)
        ensures
            r.home_root == home_root,
            r.exclude_dirs == exclude_dirs,
    {
        Scanner { home_root, exclude_dirs }
    }

    /// Whether the entry lies under one of the excluded trees.
    pub fn is_excluded(&self, path: &str) -> (r: bool)
        ensures
            r == exists|i: int|
                0 <= i < self.exclude_dirs@.len() && path_under(
                    path@,
                    #[trigger] self.exclude_dirs@[i]@,
                ),
    {
        let pv = chars_of(path);
        let n = self.exclude_dirs.len();
        let mut i: usize = 0;
        while i < n
            invariant
                i <= n,
                n == self.exclude_dirs@.len(),
                pv@ == path@,
                forall|j: int|
                    0 <= j < i ==> !path_under(path@, #[trigger] self.exclude_dirs@[j]@),
            decreases n - i,
        {
            let ex = chars_of(self.exclude_dirs[i].as_str());
            if ex.len() <= pv.len() && matches_at_exec(&pv, 0, &ex) {
                if pv.len() == ex.len() {
                    return true;
                }
                if pv[ex.len()] == '/' {
                    return true;
                }
            }
            i += 1;
        }
        false
    }
}

} // verus!
