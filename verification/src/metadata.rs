//! Extracted bundle metadata and the per-application ledger records.
use vstd::prelude::*;

use crate::clock::epoch_now;
use crate::text::chars_of;
use crate::text::lines_spec;
use crate::text::split_at_char;
use crate::text::split_lines;
use crate::text::split_spec;
use crate::text::starts_with;
use crate::text::string_of;
use crate::text::str_eq;
use crate::text::strip_prefix_exec;
use crate::text::trim_spaces_spec;
use crate::text::trim_spaces_vec;

verus! {

/// Why metadata handling failed; the detail string is for the operator.
#[derive(Debug)]
pub enum MetadataError {
    ParseError(String),
    JsonError(String),
    Io(String),
}

/// One installed version of an application, as the ledger records it.
#[derive(Debug, PartialEq)]
pub struct VersionInfo {
    pub version: String,
    pub checksum: String,
    pub installed_at: i64,
    pub is_active: bool,
}

/// The mathematical content of a `VersionInfo`.
pub struct VersionRecordView {
    pub version: Seq<char>,
    pub checksum: Seq<char>,
    pub installed_at: i64,
    pub is_active: bool,
}

impl View for VersionInfo {
    type V = VersionRecordView;

    open spec fn view(&self) -> VersionRecordView {
        VersionRecordView {
            version: self.version@,
            checksum: self.checksum@,
            installed_at: self.installed_at,
            is_active: self.is_active,
        }
    }
}

/// The record views of a whole ledger sequence.
pub open spec fn rv(s: Seq<VersionInfo>) -> Seq<VersionRecordView> {
    s.map_values(|r: VersionInfo| r@)
}

impl Clone for VersionInfo {
    fn clone(&self) -> (r: Self)
        ensures
            r == *self,
    {
        VersionInfo {
            version: self.version.clone(),
            checksum: self.checksum.clone(),
            installed_at: self.installed_at,
            is_active: self.is_active,
        }
    }
}

/// At most one record of `s` is active.
pub open spec fn unique_active(s: Seq<VersionInfo>) -> bool {
    forall|i: int, j: int|
        0 <= i < s.len() && 0 <= j < s.len() && s[i].is_active && s[j].is_active ==> i == j
}

/// Some record of `s` carries the given version label.
pub open spec fn has_version(s: Seq<VersionInfo>, v: Seq<char>) -> bool {
    exists|i: int| 0 <= i < s.len() && s[i].version@ == v
}

/// Index of the first active record at or after `i`, or minus one.
pub open spec fn find_active_from(s: Seq<VersionInfo>, i: int) -> int
    decreases s.len() - i,
{
    if i < 0 || i >= s.len() {
        -1
    } else if s[i].is_active {
        i
    } else {
        find_active_from(s, i + 1)
    }
}

/// Index of the first record at or after `i` with version label `v`, or minus one.
pub open spec fn find_version_from(s: Seq<VersionInfo>, v: Seq<char>, i: int) -> int
    decreases s.len() - i,
{
    if i < 0 || i >= s.len() {
        -1
    } else if s[i].version@ == v {
        i
    } else {
        find_version_from(s, v, i + 1)
    }
}

/// The per-application ledger: every installed version and which one is
/// active. It is the single source of truth for both.
#[derive(Debug, PartialEq)]
pub struct AppMetadata {
    pub name: String,
    pub display_name: String,
    pub categories: Vec<String>,
    pub icon_path: Option<String>,
    pub versions: Vec<VersionInfo>,
    pub created_at: i64,
    pub updated_at: i64,
}

impl Clone for AppMetadata {
    fn clone(&self) -> (r: Self)
        ensures
            r.name == self.name,
            r.display_name == self.display_name,
            r.categories.deep_view() == self.categories.deep_view(),
            r.icon_path == self.icon_path,
            r.versions@ == self.versions@,
            r.created_at == self.created_at,
            r.updated_at == self.updated_at,
    {
        let mut categories: Vec<String> = Vec::new();
        proof {
            assert(categories.deep_view() =~= self.categories.deep_view().subrange(0, 0));
        }
        let mut i: usize = 0;
        while i < self.categories.len()
            invariant
                i <= self.categories@.len(),
                categories.deep_view() == self.categories.deep_view().subrange(0, i as int),
            decreases self.categories@.len() - i,
        {
            let ghost d0 = categories.deep_view();
            categories.push(self.categories[i].clone());
            proof {
                assert(categories.deep_view() =~~= d0 + seq![self.categories@[i as int]@]);
                assert(self.categories.deep_view()[i as int] == self.categories@[i as int]@);
                assert(d0 + seq![self.categories@[i as int]@] =~= self.categories.deep_view()
                    .subrange(0, i + 1));
            }
            i += 1;
        }
        proof {
            assert(self.categories.deep_view().subrange(
                0,
                self.categories.deep_view().len() as int,
            ) =~= self.categories.deep_view());
        }
        let mut versions: Vec<VersionInfo> = Vec::new();
        let mut j: usize = 0;
        while j < self.versions.len()
            invariant
                j <= self.versions@.len(),
                versions@ == self.versions@.subrange(0, j as int),
            decreases self.versions@.len() - j,
        {
            versions.push(self.versions[j].clone());
            proof {
                assert(versions@ =~= self.versions@.subrange(0, j + 1));
            }
            j += 1;
        }
        proof {
            assert(self.versions@.subrange(0, self.versions@.len() as int) =~= self.versions@);
        }
        let icon_path = match &self.icon_path {
            Some(p) => Some(p.clone()),
            None => None,
        };
        AppMetadata {
            name: self.name.clone(),
            display_name: self.display_name.clone(),
            categories,
            icon_path,
            versions,
            created_at: self.created_at,
            updated_at: self.updated_at,
        }
    }
}

pub open spec fn lit_utility() -> Seq<char> {
    seq!['U', 't', 'i', 'l', 'i', 't', 'y']
}

pub open spec fn lit_unknown() -> Seq<char> {
    seq!['U', 'n', 'k', 'n', 'o', 'w', 'n']
}

fn utility_categories() -> (r: Vec<String>)
    ensures
        r.deep_view() =~= seq![lit_utility()],
{
    let mut r: Vec<String> = Vec::new();
    let mut c: Vec<char> = Vec::new();
    c.push('U');
    c.push('t');
    c.push('i');
    c.push('l');
    c.push('i');
    c.push('t');
    c.push('y');
    proof {
        assert(c@ =~= lit_utility());
    }
    r.push(string_of(&c));
    r
}

impl AppMetadata {
    /// A fresh ledger with no versions yet.
    pub fn new(display_name: String, normalized_name: String) -> (r: Self)
        ensures
            r.name == normalized_name,
            r.display_name == display_name,
            r.categories.deep_view() == seq![lit_utility()],
            r.icon_path is None,
            r.versions@ == Seq::<VersionInfo>::empty(),
    {
        let now = epoch_now();
        AppMetadata {
            name: normalized_name,
            display_name,
            categories: utility_categories(),
            icon_path: None,
            versions: Vec::new(),
            created_at: now,
            updated_at: now,
        }
    }

    /// Appends a new active record and deactivates every other one.
    pub fn add_version(&mut self, version: String, checksum: String)
        ensures
            final(self).versions@.len() == old(self).versions@.len() + 1,
            forall|i: int|
                0 <= i < old(self).versions@.len() ==> {
                    let o = old(self).versions@[i];
                    let n = #[trigger] final(self).versions@[i];
                    n.version == o.version && n.checksum == o.checksum && n.installed_at
                        == o.installed_at && !n.is_active
                },
            final(self).versions@.last().version == version,
            final(self).versions@.last().checksum == checksum,
            final(self).versions@.last().is_active,
            unique_active(final(self).versions@),
            final(self).name == old(self).name,
            final(self).display_name == old(self).display_name,
            final(self).categories == old(self).categories,
            final(self).icon_path == old(self).icon_path,
            final(self).created_at == old(self).created_at,
    {
        let n = self.versions.len();
        let mut i: usize = 0;
        while i < n
            invariant
                i <= n,
                n == self.versions@.len(),
                n == old(self).versions@.len(),
                forall|j: int|
                    0 <= j < i ==> {
                        let o = old(self).versions@[j];
                        let c = #[trigger] self.versions@[j];
                        c.version == o.version && c.checksum == o.checksum && c.installed_at
                            == o.installed_at && !c.is_active
                    },
                forall|j: int|
                    i <= j < n ==> #[trigger] self.versions@[j] == old(self).versions@[j],
                self.name == old(self).name,
                self.display_name == old(self).display_name,
                self.categories == old(self).categories,
                self.icon_path == old(self).icon_path,
                self.created_at == old(self).created_at,
                self.updated_at == old(self).updated_at,
            decreases n - i,
        {
            let mut rec = self.versions[i].clone();
            rec.is_active = false;
            self.versions.set(i, rec);
            i += 1;
        }
        let now = epoch_now();
        let rec = VersionInfo { version, checksum, installed_at: now, is_active: true };
        self.versions.push(rec);
        self.updated_at = epoch_now();
    }

    /// The first active record, if any.
    pub fn get_active_version(&self) -> (r: Option<&VersionInfo>)
        ensures
            match r {
                Some(v) => {
                    let k = find_active_from(self.versions@, 0);
                    0 <= k < self.versions@.len() && *v == self.versions@[k]
                },
                None => find_active_from(self.versions@, 0) == -1,
            },
    {
        let n = self.versions.len();
        let mut i: usize = 0;
        while i < n
            invariant
                i <= n,
                n == self.versions@.len(),
                find_active_from(self.versions@, 0) == find_active_from(self.versions@, i as int),
            decreases n - i,
        {
            if self.versions[i].is_active {
                return Some(&self.versions[i]);
            }
            i += 1;
        }
        None
    }

    /// Flips activity so that exactly the records labelled `version` are
    /// active; reports whether any was found.
    pub fn set_active_version(&mut self, version: &str) -> (found: bool)
        ensures
            found == has_version(old(self).versions@, version@),
            final(self).versions@.len() == old(self).versions@.len(),
            forall|i: int|
                0 <= i < old(self).versions@.len() ==> {
                    let o = old(self).versions@[i];
                    let n = #[trigger] final(self).versions@[i];
                    n.version == o.version && n.checksum == o.checksum && n.installed_at
                        == o.installed_at && n.is_active == (o.version@ == version@)
                },
            final(self).name == old(self).name,
            final(self).display_name == old(self).display_name,
            final(self).categories == old(self).categories,
            final(self).icon_path == old(self).icon_path,
            final(self).created_at == old(self).created_at,
            !found ==> final(self).updated_at == old(self).updated_at,
    {
        let n = self.versions.len();
        let mut found = false;
        let mut i: usize = 0;
        while i < n
            invariant
                i <= n,
                n == self.versions@.len(),
                n == old(self).versions@.len(),
                found == exists|j: int|
                    0 <= j < i && old(self).versions@[j].version@ == version@,
                forall|j: int|
                    0 <= j < i ==> {
                        let o = old(self).versions@[j];
                        let c = #[trigger] self.versions@[j];
                        c.version == o.version && c.checksum == o.checksum && c.installed_at
                            == o.installed_at && c.is_active == (o.version@ == version@)
                    },
                forall|j: int|
                    i <= j < n ==> #[trigger] self.versions@[j] == old(self).versions@[j],
                self.name == old(self).name,
                self.display_name == old(self).display_name,
                self.categories == old(self).categories,
                self.icon_path == old(self).icon_path,
                self.created_at == old(self).created_at,
                self.updated_at == old(self).updated_at,
            decreases n - i,
        {
            let mut rec = self.versions[i].clone();
            let is_match = str_eq(rec.version.as_str(), version);
            rec.is_active = is_match;
            if is_match {
                found = true;
            }
            self.versions.set(i, rec);
            proof {
                assert(is_match == (old(self).versions@[i as int].version@ == version@));
                if is_match {
                    assert(0 <= i < n && old(self).versions@[i as int].version@ == version@);
                }
            }
            i += 1;
        }
        proof {
            if found {
                let j = choose|j: int|
                    0 <= j < n && old(self).versions@[j].version@ == version@;
                assert(0 <= j < old(self).versions@.len() && old(self).versions@[j].version@
                    == version@);
                assert(has_version(old(self).versions@, version@));
            }
            if has_version(old(self).versions@, version@) {
                let j = choose|j: int|
                    0 <= j < old(self).versions@.len() && old(self).versions@[j].version@
                        == version@;
                assert(0 <= j < n && old(self).versions@[j].version@ == version@);
            }
        }
        if found {
            self.updated_at = epoch_now();
        }
        found
    }

    /// The first record labelled `version`, if any.
    pub fn get_version(&self, version: &str) -> (r: Option<&VersionInfo>)
        ensures
            match r {
                Some(v) => {
                    let k = find_version_from(self.versions@, version@, 0);
                    0 <= k < self.versions@.len() && *v == self.versions@[k]
                },
                None => !has_version(self.versions@, version@),
            },
            (r is Some) == has_version(self.versions@, version@),
    {
        let n = self.versions.len();
        let mut i: usize = 0;
        while i < n
            invariant
                i <= n,
                n == self.versions@.len(),
                find_version_from(self.versions@, version@, 0) == find_version_from(
                    self.versions@,
                    version@,
                    i as int,
                ),
                forall|j: int| 0 <= j < i ==> self.versions@[j].version@ != version@,
            decreases n - i,
        {
            if str_eq(self.versions[i].version.as_str(), version) {
                return Some(&self.versions[i]);
            }
            i += 1;
        }
        None
    }

    /// Removes the first record labelled `version`; reports whether one was
    /// found. The rest of the ledger is unchanged.
    pub fn remove_version(&mut self, version: &str) -> (found: bool)
        ensures
            found == has_version(old(self).versions@, version@),
            found ==> {
                let k = find_version_from(old(self).versions@, version@, 0);
                final(self).versions@ == old(self).versions@.remove(k)
            },
            !found ==> final(self).versions@ == old(self).versions@ && final(self).updated_at
                == old(self).updated_at,
            final(self).name == old(self).name,
            final(self).display_name == old(self).display_name,
            final(self).categories == old(self).categories,
            final(self).icon_path == old(self).icon_path,
            final(self).created_at == old(self).created_at,
    {
        let n = self.versions.len();
        let mut i: usize = 0;
        while i < n
            invariant
                i <= n,
                n == self.versions@.len(),
                *self == *old(self),
                find_version_from(self.versions@, version@, 0) == find_version_from(
                    self.versions@,
                    version@,
                    i as int,
                ),
                forall|j: int| 0 <= j < i ==> self.versions@[j].version@ != version@,
            decreases n - i,
        {
            if str_eq(self.versions[i].version.as_str(), version) {
                proof {
                    assert(0 <= i < self.versions@.len() && self.versions@[i as int].version@
                        == version@);
                    assert(has_version(old(self).versions@, version@));
                    assert(find_version_from(self.versions@, version@, i as int) == i);
                }
                let _ = self.versions.remove(i);
                self.updated_at = epoch_now();
                return true;
            }
            i += 1;
        }
        proof {
            if has_version(old(self).versions@, version@) {
                let j = choose|j: int|
                    0 <= j < old(self).versions@.len() && old(self).versions@[j].version@
                        == version@;
                assert(false);
            }
        }
        false
    }
}

pub open spec fn lit_name_eq() -> Seq<char> {
    seq!['N', 'a', 'm', 'e', '=']
}

pub open spec fn lit_categories_eq() -> Seq<char> {
    seq!['C', 'a', 't', 'e', 'g', 'o', 'r', 'i', 'e', 's', '=']
}

pub open spec fn lit_icon_eq() -> Seq<char> {
    seq!['I', 'c', 'o', 'n', '=']
}

/// The category segments as the parser keeps them: raw empty segments
/// dropped, the rest trimmed of whitespace.
pub open spec fn cats_acc(segs: Seq<Seq<char>>, i: int) -> Seq<Seq<char>>
    decreases segs.len() - i,
{
    if i < 0 || i >= segs.len() {
        Seq::empty()
    } else if segs[i].len() > 0 {
        seq![trim_spaces_spec(segs[i])] + cats_acc(segs, i + 1)
    } else {
        cats_acc(segs, i + 1)
    }
}

pub open spec fn parse_categories_spec(rest: Seq<char>) -> Seq<Seq<char>> {
    cats_acc(split_spec(rest, ';'), 0)
}

fn parse_categories(rest: &Vec<char>) -> (r: Vec<String>)
    ensures
        r.deep_view() == parse_categories_spec(rest@),
{
    let segs = split_at_char(rest, ';');
    let n = segs.len();
    let mut out: Vec<String> = Vec::new();
    proof {
        assert(segs.deep_view().len() == segs@.len());
        assert(out.deep_view() + cats_acc(segs.deep_view(), 0) =~= cats_acc(
            segs.deep_view(),
            0,
        ));
    }
    let mut i: usize = 0;
    while i < n
        invariant
            i <= n,
            n == segs@.len(),
            n == segs.deep_view().len(),
            cats_acc(segs.deep_view(), 0) == out.deep_view() + cats_acc(
                segs.deep_view(),
                i as int,
            ),
        decreases n - i,
    {
        proof {
            assert(segs.deep_view()[i as int] =~= segs@[i as int]@);
        }
        if segs[i].len() > 0 {
            let t = trim_spaces_vec(&segs[i]);
            let ghost d0 = out.deep_view();
            out.push(string_of(&t));
            proof {
                assert(out.deep_view() =~~= d0 + seq![t@]);
                assert(t@ == trim_spaces_spec(segs.deep_view()[i as int]));
                assert(d0 + (seq![t@] + cats_acc(segs.deep_view(), i + 1)) =~= (d0 + seq![t@])
                    + cats_acc(segs.deep_view(), i + 1));
            }
        }
        i += 1;
    }
    proof {
        assert(out.deep_view() + cats_acc(segs.deep_view(), n as int) =~= out.deep_view());
    }
    out
}

/// One desktop-entry line applied to the (name, categories, icon) fields
/// gathered so far: a recognized key replaces its field, any other line is
/// ignored.
pub open spec fn apply_desktop_line(
    st: (Seq<char>, Seq<Seq<char>>, Option<Seq<char>>),
    line: Seq<char>,
) -> (Seq<char>, Seq<Seq<char>>, Option<Seq<char>>) {
    if starts_with(line, lit_name_eq()) {
        (trim_spaces_spec(line.skip(5)), st.1, st.2)
    } else if starts_with(line, lit_categories_eq()) {
        (st.0, parse_categories_spec(line.skip(11)), st.2)
    } else if starts_with(line, lit_icon_eq()) {
        (st.0, st.1, Some(trim_spaces_spec(line.skip(5))))
    } else {
        st
    }
}

pub open spec fn parse_desktop_from(
    ls: Seq<Seq<char>>,
    i: int,
    st: (Seq<char>, Seq<Seq<char>>, Option<Seq<char>>),
) -> (Seq<char>, Seq<Seq<char>>, Option<Seq<char>>)
    decreases ls.len() - i,
{
    if i < 0 || i >= ls.len() {
        st
    } else {
        parse_desktop_from(ls, i + 1, apply_desktop_line(st, ls[i]))
    }
}

/// The (name, categories, icon) fields read from the text of a desktop
/// entry, starting from the parser's defaults.
pub open spec fn parse_desktop_spec(content: Seq<char>) -> (
    Seq<char>,
    Seq<Seq<char>>,
    Option<Seq<char>>,
) {
    parse_desktop_from(lines_spec(content), 0, (lit_unknown(), seq![lit_utility()], None))
}

pub open spec fn opt_chars_view(o: Option<Vec<char>>) -> Option<Seq<char>> {
    match o {
        Some(v) => Some(v@),
        None => None,
    }
}

pub open spec fn opt_chars_view_of_strings(o: Option<String>) -> Option<Seq<char>> {
    match o {
        Some(v) => Some(v@),
        None => None,
    }
}

fn unknown_chars() -> (r: Vec<char>)
    ensures
        r@ =~= lit_unknown(),
{
    let mut r: Vec<char> = Vec::new();
    r.push('U');
    r.push('n');
    r.push('k');
    r.push('n');
    r.push('o');
    r.push('w');
    r.push('n');
    r
}

fn pat_name_eq() -> (r: Vec<char>)
    ensures
        r@ =~= lit_name_eq(),
{
    let mut r: Vec<char> = Vec::new();
    r.push('N');
    r.push('a');
    r.push('m');
    r.push('e');
    r.push('=');
    r
}

fn pat_categories_eq() -> (r: Vec<char>)
    ensures
        r@ =~= lit_categories_eq(),
{
    let mut r: Vec<char> = Vec::new();
    r.push('C');
    r.push('a');
    r.push('t');
    r.push('e');
    r.push('g');
    r.push('o');
    r.push('r');
    r.push('i');
    r.push('e');
    r.push('s');
    r.push('=');
    r
}

fn pat_icon_eq() -> (r: Vec<char>)
    ensures
        r@ =~= lit_icon_eq(),
{
    let mut r: Vec<char> = Vec::new();
    r.push('I');
    r.push('c');
    r.push('o');
    r.push('n');
    r.push('=');
    r
}

/// Metadata extracted from one bundle, for publication in the desktop entry.
#[derive(Debug, PartialEq)]
pub struct Metadata {
    pub name: String,
    pub version: Option<String>,
    pub categories: Vec<String>,
    pub icon_path: Option<String>,
    pub extracted_at: i64,
    pub checksum: String,
}

impl Clone for Metadata {
    fn clone(&self) -> (r: Self)
        ensures
            r.name == self.name,
            r.version == self.version,
            r.categories.deep_view() == self.categories.deep_view(),
            r.icon_path == self.icon_path,
            r.extracted_at == self.extracted_at,
            r.checksum == self.checksum,
    {
        let mut categories: Vec<String> = Vec::new();
        proof {
            assert(categories.deep_view() =~= self.categories.deep_view().subrange(0, 0));
        }
        let mut i: usize = 0;
        while i < self.categories.len()
            invariant
                i <= self.categories@.len(),
                categories.deep_view() == self.categories.deep_view().subrange(0, i as int),
            decreases self.categories@.len() - i,
        {
            let ghost d0 = categories.deep_view();
            categories.push(self.categories[i].clone());
            proof {
                assert(categories.deep_view() =~~= d0 + seq![self.categories@[i as int]@]);
                assert(self.categories.deep_view()[i as int] == self.categories@[i as int]@);
                assert(d0 + seq![self.categories@[i as int]@] =~= self.categories.deep_view()
                    .subrange(0, i + 1));
            }
            i += 1;
        }
        proof {
            assert(self.categories.deep_view().subrange(
                0,
                self.categories.deep_view().len() as int,
            ) =~= self.categories.deep_view());
        }
        Metadata {
            name: self.name.clone(),
            version: match &self.version {
                Some(v) => Some(v.clone()),
                None => None,
            },
            categories,
            icon_path: match &self.icon_path {
                Some(p) => Some(p.clone()),
                None => None,
            },
            extracted_at: self.extracted_at,
            checksum: self.checksum.clone(),
        }
    }
}

impl Metadata {
    /// Fresh metadata with the default single category.
    pub fn new(name: String, checksum: String) -> (r: Self)
        ensures
            r.name == name,
            r.version is None,
            r.categories.deep_view() == seq![lit_utility()],
            r.icon_path is None,
            r.checksum == checksum,
    {
        Metadata {
            name,
            version: None,
            categories: utility_categories(),
            icon_path: None,
            extracted_at: epoch_now(),
            checksum,
        }
    }

    /// The fields parsed from the text of an embedded desktop entry, with
    /// the defaults of `Metadata::new` where a key never occurs. The
    /// checksum is left empty for the caller to fill in.
    pub fn from_desktop_content(content: &str) -> (r: Metadata)
        ensures
            r.name@ == parse_desktop_spec(content@).0,
            r.categories.deep_view() == parse_desktop_spec(content@).1,
            opt_chars_view_of_strings(r.icon_path) == parse_desktop_spec(content@).2,
            r.version is None,
            r.checksum@ == Seq::<char>::empty(),
    {
        let cv = chars_of(content);
        let lines = split_lines(&cv);
        let n = lines.len();
        let pname = pat_name_eq();
        let pcats = pat_categories_eq();
        let picon = pat_icon_eq();
        let mut name: Vec<char> = unknown_chars();
        let mut cats: Vec<String> = utility_categories();
        let mut icon: Option<Vec<char>> = None;
        let ghost init = (lit_unknown(), seq![lit_utility()], Option::<Seq<char>>::None);
        proof {
            assert(lines.deep_view().len() == lines@.len());
        }
        let mut i: usize = 0;
        while i < n
            invariant
                i <= n,
                n == lines@.len(),
                n == lines.deep_view().len(),
                pname@ == lit_name_eq(),
                pcats@ == lit_categories_eq(),
                picon@ == lit_icon_eq(),
                init == (lit_unknown(), seq![lit_utility()], Option::<Seq<char>>::None),
                parse_desktop_from(lines.deep_view(), 0, init) == parse_desktop_from(
                    lines.deep_view(),
                    i as int,
                    (name@, cats.deep_view(), opt_chars_view(icon)),
                ),
            decreases n - i,
        {
            let ghost lv = lines.deep_view()[i as int];
            proof {
                assert(lv =~= lines@[i as int]@);
            }
            if let Some(rest) = strip_prefix_exec(&lines[i], &pname) {
                name = trim_spaces_vec(&rest);
                proof {
                    assert(rest@ =~= lv.skip(5));
                }
            } else if let Some(rest) = strip_prefix_exec(&lines[i], &pcats) {
                cats = parse_categories(&rest);
                proof {
                    assert(rest@ =~= lv.skip(11));
                }
            } else if let Some(rest) = strip_prefix_exec(&lines[i], &picon) {
                icon = Some(trim_spaces_vec(&rest));
                proof {
                    assert(rest@ =~= lv.skip(5));
                }
            }
            i += 1;
        }
        let icon_path = match icon {
            Some(v) => Some(string_of(&v)),
            None => None,
        };
        Metadata {
            name: string_of(&name),
            version: None,
            categories: cats,
            icon_path,
            extracted_at: epoch_now(),
            checksum: String::new(),
        }
    }

    pub fn set_version(&mut self, version: String)
        ensures
            final(self).version == Some(version),
            final(self).name == old(self).name,
            final(self).categories == old(self).categories,
            final(self).icon_path == old(self).icon_path,
            final(self).extracted_at == old(self).extracted_at,
            final(self).checksum == old(self).checksum,
    {
        self.version = Some(version);
    }

    pub fn set_icon_path(&mut self, path: String)
        ensures
            final(self).icon_path == Some(path),
            final(self).name == old(self).name,
            final(self).version == old(self).version,
            final(self).categories == old(self).categories,
            final(self).extracted_at == old(self).extracted_at,
            final(self).checksum == old(self).checksum,
    {
        self.icon_path = Some(path);
    }

    pub fn set_name(&mut self, name: String)
        ensures
            final(self).name == name,
            final(self).version == old(self).version,
            final(self).categories == old(self).categories,
            final(self).icon_path == old(self).icon_path,
            final(self).extracted_at == old(self).extracted_at,
            final(self).checksum == old(self).checksum,
    {
        self.name = name;
    }
}

} // verus!
