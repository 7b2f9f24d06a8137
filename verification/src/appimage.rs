//! One candidate bundle: its validation rules, identity and checksum.
//!
//! The file facts — existence, file kind, mode bits, content bytes — are
//! gathered by the caller; the rules applied to them live here.
use vstd::prelude::*;

use crate::checksum::checksum_of;
use crate::checksum::compute_checksum;
use crate::metadata::Metadata;
use crate::normalize::normalize_spec;
use crate::normalize::normalize_appimage_name;
use crate::text::ext_of;
use crate::text::ext_spec;
use crate::text::file_name_of;
use crate::text::file_name_spec;
use crate::text::lower_seq;
use crate::text::stem_of;
use crate::text::stem_spec;
use crate::text::string_of;
use crate::text::to_lower_vec;
use crate::text::chars_eq;

verus! {

/// Why a bundle was rejected; the detail string is for the operator.
#[derive(Debug)]
pub enum AppImageError {
    NotFound(String),
    InvalidFormat(String),
    ExtractFailed(String),
    Io(String),
}

/// Why a bundle's self-extraction failed.
#[derive(Debug)]
pub enum ExtractError {
    ExtractionFailed(String),
    TempDirFailed(String),
    ExecutionFailed(String),
}

pub open spec fn lit_appimage_lower() -> Seq<char> {
    seq!['a', 'p', 'p', 'i', 'm', 'a', 'g', 'e']
}

/// The path names a bundle: its extension is `AppImage` in any casing.
pub open spec fn is_appimage_path(path: Seq<char>) -> bool {
    match ext_spec(file_name_spec(path)) {
        Some(e) => lower_seq(e) == lit_appimage_lower(),
        None => false,
    }
}

/// Whether the path carries the bundle extension, compared without regard
/// to ASCII case.
pub fn has_appimage_extension(path: &str) -> (r: bool)
    ensures
        r == is_appimage_path(path@),
{
    let name = file_name_of(path);
    match ext_of(&name) {
        Some(e) => {
            let lowered = to_lower_vec(&e);
            let mut pat: Vec<char> = Vec::new();
            pat.push('a');
            pat.push('p');
            pat.push('p');
            pat.push('i');
            pat.push('m');
            pat.push('a');
            pat.push('g');
            pat.push('e');
            proof {
                assert(pat@ =~= lit_appimage_lower());
            }
            chars_eq(&lowered, &pat)
        },
        None => false,
    }
}

/// One candidate application bundle.
#[derive(Debug)]
pub struct AppImage {
    pub path: String,
    pub metadata: Option<Metadata>,
}

impl AppImage {
    /// Accepts a path as a bundle: it must exist (as the caller observed)
    /// and carry the bundle extension.
    pub fn new(path: String, exists: bool) -> (r: Result<AppImage, AppImageError>)
        ensures
            (r is Ok) == (exists && is_appimage_path(path@)),
            match r {
                Ok(a) => a.path == path && a.metadata is None,
                Err(e) => {
                    if !exists {
                        e matches AppImageError::NotFound(p) && p == path
                    } else {
                        e is InvalidFormat
                    }
                },
            },
    {
        if !exists {
            return Err(AppImageError::NotFound(path));
        }
        if !has_appimage_extension(path.as_str()) {
            return Err(AppImageError::InvalidFormat("Invalid extension".to_owned()));
        }
        Ok(AppImage { path, metadata: None })
    }

    /// A bundle is processable only while it still exists as a regular file.
    pub fn validate(&self, exists: bool, is_file: bool) -> (r: Result<(), AppImageError>)
        ensures
            (r is Ok) == (exists && is_file),
            match r {
                Ok(_) => true,
                Err(e) => {
                    if !exists {
                        e matches AppImageError::NotFound(p) && p == self.path
                    } else {
                        e matches AppImageError::InvalidFormat(m) && m@ == "Not a regular file"@
                    }
                },
            },
    {
        if !exists {
            return Err(AppImageError::NotFound(self.path.clone()));
        }
        if !is_file {
            return Err(AppImageError::InvalidFormat("Not a regular file".to_owned()));
        }
        Ok(())
    }

    /// The bundle's canonical identity, derived from its file stem.
    pub fn normalize_name(&self) -> (r: String)
        ensures
            r@ == normalize_spec(stem_spec(file_name_spec(self.path@))),
    {
        let name = file_name_of(self.path.as_str());
        let stem = stem_of(&name);
        normalize_appimage_name(string_of(&stem).as_str())
    }

    /// Whether the observed permission bits carry any execute bit.
    pub fn is_executable(&self, mode: u32) -> (r: bool)
        ensures
            r == (mode & 0o111 != 0),
    {
        mode & 0o111 != 0
    }

    /// The SHA-256 checksum of the bundle's content bytes, in lowercase hex.
    pub fn get_checksum(&self, contents: &[u8]) -> (r: String)
        ensures
            r@ == checksum_of(contents@),
            r@.len() == 64,
    {
        compute_checksum(contents)
    }
}

} // verus!
