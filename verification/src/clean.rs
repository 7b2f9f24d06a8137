//! The legacy-artifact rules: which leftover files the cleanup removes.
//!
//! Walking the directories and deleting is the caller's part; whether a
//! name or a published entry counts as a legacy artifact is decided here.
use vstd::prelude::*;

use crate::text::contains_seq;
use crate::text::contains_exec;
use crate::text::chars_of;

verus! {

/// Whether `text` matches the regular expression `pattern`: a function of
/// the two alone. An unparsable pattern matches nothing.
pub uninterp spec fn regex_match(pattern: Seq<char>, text: Seq<char>) -> bool;

/// Relies on regex's `Regex::new` and `is_match`: whether the text
/// matches the pattern; a pattern that does not compile matches nothing.
#[verifier::external_body]
fn regex_is_match(pattern: &str, text: &str) -> (r: bool)
    ensures
        r == regex_match(pattern@, text@),
{
    match regex::Regex::new(pattern) {
        Ok(re) => re.is_match(text),
        Err(_) => false,
    }
}

/// The pattern naming legacy artifacts: a trailing version marker, or an
/// architecture or platform token, in any casing.
pub open spec fn legacy_pattern() -> Seq<char> {
    "(?i)(-v[\\d\\.]+|[-_.]?(x86_64|amd64|linux|i386|setup))"@
}

/// Whether a file name still carries a legacy version or architecture
/// token and should be removed by the cleanup.
pub fn is_legacy_artifact(name: &str) -> (r: bool)
    ensures
        r == regex_match(legacy_pattern(), name@),
{
    regex_is_match("(?i)(-v[\\d\\.]+|[-_.]?(x86_64|amd64|linux|i386|setup))", name)
}

/// Whether a published desktop entry is a legacy one: it launches out of
/// the bin root and still carries a legacy token.
pub fn legacy_desktop_entry(content: &str, bin_dir: &str) -> (r: bool)
    ensures
        r == (contains_seq(content@, bin_dir@) && regex_match(legacy_pattern(), content@)),
{
    let cv = chars_of(content);
    let bv = chars_of(bin_dir);
    contains_exec(&cv, &bv) && is_legacy_artifact(content)
}

} // verus!
