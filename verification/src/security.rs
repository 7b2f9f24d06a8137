//! The Security Assessor: integrity, signature and sandboxing verdicts.
//!
//! Gathering the facts — hashing the file, looking for a detached
//! signature, invoking the verifier, extracting the bundle — is outside
//! work; the verdict composed from those facts is decided here.
use vstd::prelude::*;

use crate::text::concat_str;
use crate::text::contains_seq;
use crate::text::lines_spec;
use crate::text::matches_at_exec;
use crate::text::split_lines;
use crate::text::starts_with;
use crate::text::chars_of;
use crate::text::contains_exec;

verus! {

/// Why a security check failed; the detail string is for the operator.
#[derive(Debug)]
pub enum SecurityError {
    Io(String),
    AppImage(String),
    CheckFailed(String),
}

#[derive(Debug, Clone, PartialEq)]
pub enum SecurityStatus {
    Secure,
    Warning(String),
    Error(String),
}

/// The mathematical content of a `SecurityStatus`.
pub enum SecurityStatusView {
    Secure,
    Warning(Seq<char>),
    Error(Seq<char>),
}

impl View for SecurityStatus {
    type V = SecurityStatusView;

    open spec fn view(&self) -> SecurityStatusView {
        match self {
            SecurityStatus::Secure => SecurityStatusView::Secure,
            SecurityStatus::Warning(m) => SecurityStatusView::Warning(m@),
            SecurityStatus::Error(m) => SecurityStatusView::Error(m@),
        }
    }
}

#[derive(Debug, Clone)]
pub struct SecurityReport {
    pub checksum_verified: bool,
    pub signature_present: bool,
    pub signature_verified: Option<bool>,
    pub sandboxing_detected: bool,
    pub overall_status: SecurityStatus,
}

impl SecurityReport {
    pub fn new() -> (r: Self)
        ensures
            !r.checksum_verified,
            !r.signature_present,
            r.signature_verified is None,
            !r.sandboxing_detected,
            r.overall_status@ is Secure,
    {
        SecurityReport {
            checksum_verified: false,
            signature_present: false,
            signature_verified: None,
            sandboxing_detected: false,
            overall_status: SecurityStatus::Secure,
        }
    }

    pub fn with_warning(self, message: String) -> (r: Self)
        ensures
            r.overall_status@ == SecurityStatusView::Warning(message@),
            r.checksum_verified == self.checksum_verified,
            r.signature_present == self.signature_present,
            r.signature_verified == self.signature_verified,
            r.sandboxing_detected == self.sandboxing_detected,
    {
        let mut r = self;
        r.overall_status = SecurityStatus::Warning(message);
        r
    }

    pub fn with_error(self, message: String) -> (r: Self)
        ensures
            r.overall_status@ == SecurityStatusView::Error(message@),
            r.checksum_verified == self.checksum_verified,
            r.signature_present == self.signature_present,
            r.signature_verified == self.signature_verified,
            r.sandboxing_detected == self.sandboxing_detected,
    {
        let mut r = self;
        r.overall_status = SecurityStatus::Error(message);
        r
    }

    pub fn is_secure(&self) -> (r: bool)
        ensures
            r == (self.overall_status@ is Secure),
    {
        match &self.overall_status {
            SecurityStatus::Secure => true,
            SecurityStatus::Warning(_) => false,
            SecurityStatus::Error(_) => false,
        }
    }
}

#[derive(Debug, Clone, Copy, PartialEq, Eq, Structural)]
pub struct SecurityChecker {
    pub verify_signatures: bool,
    pub require_signatures: bool,
    pub warn_unsigned: bool,
    pub detect_sandboxing: bool,
}

impl Default for SecurityChecker {
    fn default() -> (r: Self)
        ensures
            !r.verify_signatures,
            !r.require_signatures,
            r.warn_unsigned,
            r.detect_sandboxing,
    {
        SecurityChecker {
            verify_signatures: false,
            require_signatures: false,
            warn_unsigned: true,
            detect_sandboxing: true,
        }
    }
}

/// The warning sentence for the report: each applicable warning in order,
/// separated by a semicolon and a space.
pub open spec fn warnings_text(unsigned_warn: bool, sandbox_warn: bool) -> Seq<char> {
    if unsigned_warn && sandbox_warn {
        "No signature found - cannot verify authenticity"@ + "; "@
            + "No sandboxing detected - AppImage runs without security isolation"@
    } else if unsigned_warn {
        "No signature found - cannot verify authenticity"@
    } else {
        "No sandboxing detected - AppImage runs without security isolation"@
    }
}

/// The overall verdict for a report under the checker's policy. A checksum
/// failure is an error before everything else; then a failed signature
/// verification; then the warnings; else secure.
pub open spec fn assess_spec(
    checker: SecurityChecker,
    checksum_verified: bool,
    signature_present: bool,
    signature_verified: Option<bool>,
    sandboxing_detected: bool,
) -> SecurityStatusView {
    if !checksum_verified {
        SecurityStatusView::Error("Checksum verification failed - file may be corrupted"@)
    } else if signature_verified == Some(false) {
        SecurityStatusView::Error("Signature verification failed"@)
    } else {
        let unsigned_warn = checker.warn_unsigned && !signature_present;
        let sandbox_warn = checker.detect_sandboxing && !sandboxing_detected;
        if unsigned_warn || sandbox_warn {
            SecurityStatusView::Warning(warnings_text(unsigned_warn, sandbox_warn))
        } else {
            SecurityStatusView::Secure
        }
    }
}

/// A bundle whose checksum cannot be computed is always an error verdict,
/// whatever the signature and sandboxing facts say.
pub proof fn lemma_checksum_failure_is_error(
    checker: SecurityChecker,
    signature_present: bool,
    signature_verified: Option<bool>,
    sandboxing_detected: bool,
)
    ensures
        assess_spec(
            checker,
            false,
            signature_present,
            signature_verified,
            sandboxing_detected,
        ) is Error,
{
}

impl SecurityChecker {
    pub fn new() -> (r: Self)
        ensures
            !r.verify_signatures,
            !r.require_signatures,
            r.warn_unsigned,
            r.detect_sandboxing,
    {
        SecurityChecker::default()
    }

    /// Whether the detached signature is to be verified: only when one is
    /// present and verification is enabled.
    pub fn should_verify_signature(&self, signature_present: bool) -> (r: bool)
        ensures
            r == (signature_present && self.verify_signatures),
    {
        signature_present && self.verify_signatures
    }

    /// The verdict for one report under this checker's policy.
    pub fn assess_overall_security(&self, report: &SecurityReport) -> (r: SecurityStatus)
        ensures
            r@ == assess_spec(
                *self,
                report.checksum_verified,
                report.signature_present,
                report.signature_verified,
                report.sandboxing_detected,
            ),
    {
        if !report.checksum_verified {
            return SecurityStatus::Error(
                "Checksum verification failed - file may be corrupted".to_owned(),
            );
        }
        if let Some(verified) = report.signature_verified {
            if !verified {
                return SecurityStatus::Error("Signature verification failed".to_owned());
            }
        }
        let unsigned_warn = self.warn_unsigned && !report.signature_present;
        let sandbox_warn = self.detect_sandboxing && !report.sandboxing_detected;
        if unsigned_warn && sandbox_warn {
            let msg = concat_str(
                "No signature found - cannot verify authenticity",
                "; ",
            );
            let msg = concat_str(
                msg.as_str(),
                "No sandboxing detected - AppImage runs without security isolation",
            );
            SecurityStatus::Warning(msg)
        } else if unsigned_warn {
            SecurityStatus::Warning("No signature found - cannot verify authenticity".to_owned())
        } else if sandbox_warn {
            SecurityStatus::Warning(
                "No sandboxing detected - AppImage runs without security isolation".to_owned(),
            )
        } else {
            SecurityStatus::Secure
        }
    }

    /// The report assembled from externally gathered facts, with the
    /// verdict already assessed.
    pub fn compose_report(
        &self,
        checksum_verified: bool,
        signature_present: bool,
        signature_verified: Option<bool>,
        sandboxing_detected: bool,
    ) -> (r: SecurityReport)
        ensures
            r.checksum_verified == checksum_verified,
            r.signature_present == signature_present,
            r.signature_verified == signature_verified,
            r.sandboxing_detected == sandboxing_detected,
            r.overall_status@ == assess_spec(
                *self,
                checksum_verified,
                signature_present,
                signature_verified,
                sandboxing_detected,
            ),
            !checksum_verified ==> r.overall_status@ is Error,
    {
        let mut report = SecurityReport::new();
        report.checksum_verified = checksum_verified;
        report.signature_present = signature_present;
        report.signature_verified = signature_verified;
        report.sandboxing_detected = sandboxing_detected;
        report.overall_status = self.assess_overall_security(&report);
        report
    }
}

pub open spec fn lit_exec_eq() -> Seq<char> {
    seq!['E', 'x', 'e', 'c', '=']
}

pub open spec fn lit_firejail() -> Seq<char> {
    seq!['f', 'i', 'r', 'e', 'j', 'a', 'i', 'l']
}

pub open spec fn lit_bwrap() -> Seq<char> {
    seq!['b', 'w', 'r', 'a', 'p']
}

/// The first line of `ls[i..]` that begins with `Exec=`, or the empty line.
pub open spec fn first_exec_line(ls: Seq<Seq<char>>, i: int) -> Seq<char>
    decreases ls.len() - i,
{
    if i < 0 || i >= ls.len() {
        Seq::empty()
    } else if starts_with(ls[i], lit_exec_eq()) {
        ls[i]
    } else {
        first_exec_line(ls, i + 1)
    }
}

/// A desktop entry's launch line names a sandboxing tool.
pub open spec fn desktop_uses_sandboxing_spec(content: Seq<char>) -> bool {
    let line = first_exec_line(lines_spec(content), 0);
    contains_seq(line, lit_firejail()) || contains_seq(line, lit_bwrap())
}

/// Whether the first `Exec=` line of the given desktop-entry text names a
/// sandboxing tool.
pub fn desktop_file_uses_sandboxing(content: &str) -> (r: bool)
    ensures
        r == desktop_uses_sandboxing_spec(content@),
{
    let cv = chars_of(content);
    let lines = split_lines(&cv);
    let n = lines.len();
    let mut pexec: Vec<char> = Vec::new();
    pexec.push('E');
    pexec.push('x');
    pexec.push('e');
    pexec.push('c');
    pexec.push('=');
    proof {
        assert(pexec@ =~= lit_exec_eq());
        assert(lines.deep_view().len() == lines@.len());
    }
    let mut pfire: Vec<char> = Vec::new();
    pfire.push('f');
    pfire.push('i');
    pfire.push('r');
    pfire.push('e');
    pfire.push('j');
    pfire.push('a');
    pfire.push('i');
    pfire.push('l');
    let mut pbwrap: Vec<char> = Vec::new();
    pbwrap.push('b');
    pbwrap.push('w');
    pbwrap.push('r');
    pbwrap.push('a');
    pbwrap.push('p');
    proof {
        assert(pfire@ =~= lit_firejail());
        assert(pbwrap@ =~= lit_bwrap());
    }
    let mut i: usize = 0;
    while i < n
        invariant
            i <= n,
            n == lines@.len(),
            n == lines.deep_view().len(),
            lines.deep_view() == lines_spec(content@),
            pexec@ == lit_exec_eq(),
            pfire@ == lit_firejail(),
            pbwrap@ == lit_bwrap(),
            first_exec_line(lines.deep_view(), 0) == first_exec_line(
                lines.deep_view(),
                i as int,
            ),
        decreases n - i,
    {
        proof {
            assert(lines.deep_view()[i as int] =~= lines@[i as int]@);
        }
        proof {
            assert(lines.deep_view()[i as int] =~= lines@[i as int]@);
        }
        let is_exec = if lines[i].len() >= 5 {
            matches_at_exec(&lines[i], 0, &pexec)
        } else {
            false
        };
        if is_exec {
            let f1 = contains_exec(&lines[i], &pfire);
            let f2 = contains_exec(&lines[i], &pbwrap);
            proof {
                assert(first_exec_line(lines.deep_view(), i as int) == lines.deep_view()[i as int]);
                assert(lines.deep_view() == lines_spec(content@));
                assert(first_exec_line(lines_spec(content@), 0) == lines@[i as int]@);
                assert(f1 == contains_seq(lines@[i as int]@, lit_firejail()));
                assert(f2 == contains_seq(lines@[i as int]@, lit_bwrap()));
                assert((f1 || f2) == desktop_uses_sandboxing_spec(content@));
            }
            return f1 || f2;
        }
        i += 1;
    }
    proof {
        let line = first_exec_line(lines.deep_view(), n as int);
        assert(line =~= Seq::<char>::empty());
        assert(!contains_seq(line, lit_firejail())) by {
            if contains_seq(line, lit_firejail()) {
                let k = choose|k: int| crate::text::matches_at(line, k, lit_firejail());
                assert(false);
            }
        }
        assert(!contains_seq(line, lit_bwrap())) by {
            if contains_seq(line, lit_bwrap()) {
                let k = choose|k: int| crate::text::matches_at(line, k, lit_bwrap());
                assert(false);
            }
        }
    }
    false
}

/// Whether the extracted tree's facts indicate sandboxing: a profile file,
/// a wrapper binary, or any contained desktop entry whose launch line names
/// a sandboxing tool.
pub fn sandboxing_indicated(
    profile_exists: bool,
    wrapper_exists: bool,
    desktop_contents: &Vec<String>,
) -> (r: bool)
    ensures
        r == (profile_exists || wrapper_exists || exists|i: int|
            0 <= i < desktop_contents@.len() && desktop_uses_sandboxing_spec(
                #[trigger] desktop_contents@[i]@,
            )),
{
    let n = desktop_contents.len();
    let mut any = false;
    let mut i: usize = 0;
    while i < n
        invariant
            i <= n,
            n == desktop_contents@.len(),
            any == exists|j: int|
                0 <= j < i && desktop_uses_sandboxing_spec(#[trigger] desktop_contents@[j]@),
        decreases n - i,
    {
        if desktop_file_uses_sandboxing(desktop_contents[i].as_str()) {
            proof {
                assert(desktop_uses_sandboxing_spec(desktop_contents@[i as int]@));
            }
            any = true;
        }
        i += 1;
    }
    profile_exists || wrapper_exists || any
}

} // verus!
