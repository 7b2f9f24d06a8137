//! Derivation of an application's canonical identity from a bundle file name.
//!
//! The name is lowercased; the bundle-extension spellings, architecture and
//! platform tokens, and version-number tokens are removed; runs of separator
//! characters collapse to a single hyphen; and leading/trailing separators are
//! trimmed.
use vstd::prelude::*;

use crate::text::chars_of;
use crate::text::is_space;
use crate::text::lower_char;
use crate::text::lower_seq;
use crate::text::matches_at;
use crate::text::matches_at_exec;
use crate::text::string_of;
use crate::text::to_lower_vec;
use crate::text::trim_ends;
use crate::text::trim_ends_spec;
use crate::text::trim_spec;
use crate::text::scan_while;
use crate::text::scan_back_while;
use crate::text::dash_pred;
use crate::text::space_pred;

verus! {

pub open spec fn is_digit(c: char) -> bool {
    48 <= c as u32 && c as u32 <= 57
}

pub fn is_digit_exec(c: char) -> (r: bool)
    ensures
        r == is_digit(c),
{
    let u = c as u32;
    48 <= u && u <= 57
}

/// Separator characters that collapse to a single hyphen.
pub open spec fn is_sep(c: char) -> bool {
    c == '-' || c == '_' || c == '.'
}

pub fn is_sep_exec(c: char) -> (r: bool)
    ensures
        r == is_sep(c),
{
    c == '-' || c == '_' || c == '.'
}

pub open spec fn lit_dot_appimage() -> Seq<char> {
    seq!['.', 'a', 'p', 'p', 'i', 'm', 'a', 'g', 'e']
}

pub open spec fn lit_us_appimage() -> Seq<char> {
    seq!['_', 'a', 'p', 'p', 'i', 'm', 'a', 'g', 'e']
}

pub open spec fn lit_x86_64() -> Seq<char> {
    seq!['x', '8', '6', '_', '6', '4']
}

pub open spec fn lit_amd64() -> Seq<char> {
    seq!['a', 'm', 'd', '6', '4']
}

pub open spec fn lit_i386() -> Seq<char> {
    seq!['i', '3', '8', '6']
}

pub open spec fn lit_linux() -> Seq<char> {
    seq!['l', 'i', 'n', 'u', 'x']
}

pub open spec fn lit_setup() -> Seq<char> {
    seq!['s', 'e', 't', 'u', 'p']
}

/// All occurrences of `pat` removed from `s[i..]`, scanning left to right
/// over non-overlapping occurrences.
pub open spec fn remove_lit_from(s: Seq<char>, pat: Seq<char>, i: int) -> Seq<char>
    decreases s.len() - i,
{
    if i < 0 || i >= s.len() {
        Seq::empty()
    } else if pat.len() > 0 && matches_at(s, i, pat) {
        remove_lit_from(s, pat, i + pat.len())
    } else {
        seq![s[i]] + remove_lit_from(s, pat, i + 1)
    }
}

fn remove_lit(v: &Vec<char>, pat: &Vec<char>) -> (r: Vec<char>)
    requires
        pat@.len() > 0,
    ensures
        r@ == remove_lit_from(v@, pat@, 0),
{
    let n = v.len();
    let mut r: Vec<char> = Vec::new();
    let mut i: usize = 0;
    while i < n
        invariant
            i <= n,
            n == v@.len(),
            pat@.len() > 0,
            remove_lit_from(v@, pat@, 0) == r@ + remove_lit_from(v@, pat@, i as int),
        decreases n - i,
    {
        if pat.len() <= n - i && matches_at_exec(v, i, pat) {
            i += pat.len();
        } else {
            let ghost r0 = r@;
            r.push(v[i]);
            proof {
                assert(r0 + (seq![v@[i as int]] + remove_lit_from(v@, pat@, i + 1)) =~= (r0
                    + seq![v@[i as int]]) + remove_lit_from(v@, pat@, i + 1));
            }
            i += 1;
        }
    }
    proof {
        assert(r@ + remove_lit_from(v@, pat@, n as int) =~= r@);
    }
    r
}

/// Length of the architecture/platform token starting at `i`, or zero.
pub open spec fn arch_len_at(s: Seq<char>, i: int) -> int {
    if matches_at(s, i, lit_x86_64()) {
        6
    } else if matches_at(s, i, lit_amd64()) {
        5
    } else if matches_at(s, i, lit_i386()) {
        4
    } else if matches_at(s, i, lit_linux()) {
        5
    } else if matches_at(s, i, lit_setup()) {
        5
    } else {
        0
    }
}

/// All architecture/platform tokens removed from `s[i..]`.
pub open spec fn remove_arch_from(s: Seq<char>, i: int) -> Seq<char>
    decreases s.len() - i,
{
    if i < 0 || i >= s.len() {
        Seq::empty()
    } else if arch_len_at(s, i) > 0 {
        remove_arch_from(s, i + arch_len_at(s, i))
    } else {
        seq![s[i]] + remove_arch_from(s, i + 1)
    }
}

fn pat_of_9(c0: char, c1: char, c2: char, c3: char, c4: char, c5: char, c6: char, c7: char, c8: char) -> (r: Vec<char>)
    ensures
        r@ =~= seq![c0, c1, c2, c3, c4, c5, c6, c7, c8],
{
    let mut r: Vec<char> = Vec::new();
    r.push(c0);
    r.push(c1);
    r.push(c2);
    r.push(c3);
    r.push(c4);
    r.push(c5);
    r.push(c6);
    r.push(c7);
    r.push(c8);
    r
}

fn remove_arch(v: &Vec<char>) -> (r: Vec<char>)
    ensures
        r@ == remove_arch_from(v@, 0),
{
    let mut px86: Vec<char> = Vec::new();
    px86.push('x');
    px86.push('8');
    px86.push('6');
    px86.push('_');
    px86.push('6');
    px86.push('4');
    let mut pamd: Vec<char> = Vec::new();
    pamd.push('a');
    pamd.push('m');
    pamd.push('d');
    pamd.push('6');
    pamd.push('4');
    let mut pi386: Vec<char> = Vec::new();
    pi386.push('i');
    pi386.push('3');
    pi386.push('8');
    pi386.push('6');
    let mut plinux: Vec<char> = Vec::new();
    plinux.push('l');
    plinux.push('i');
    plinux.push('n');
    plinux.push('u');
    plinux.push('x');
    let mut psetup: Vec<char> = Vec::new();
    psetup.push('s');
    psetup.push('e');
    psetup.push('t');
    psetup.push('u');
    psetup.push('p');
    proof {
        assert(px86@ =~= lit_x86_64());
        assert(pamd@ =~= lit_amd64());
        assert(pi386@ =~= lit_i386());
        assert(plinux@ =~= lit_linux());
        assert(psetup@ =~= lit_setup());
    }
    let n = v.len();
    let mut r: Vec<char> = Vec::new();
    let mut i: usize = 0;
    while i < n
        invariant
            i <= n,
            n == v@.len(),
            px86@ == lit_x86_64(),
            pamd@ == lit_amd64(),
            pi386@ == lit_i386(),
            plinux@ == lit_linux(),
            psetup@ == lit_setup(),
            remove_arch_from(v@, 0) == r@ + remove_arch_from(v@, i as int),
        decreases n - i,
    {
        let l: usize = if 6 <= n - i && matches_at_exec(v, i, &px86) {
            6
        } else if 5 <= n - i && matches_at_exec(v, i, &pamd) {
            5
        } else if 4 <= n - i && matches_at_exec(v, i, &pi386) {
            4
        } else if 5 <= n - i && matches_at_exec(v, i, &plinux) {
            5
        } else if 5 <= n - i && matches_at_exec(v, i, &psetup) {
            5
        } else {
            0
        };
        proof {
            assert(l as int == arch_len_at(v@, i as int));
        }
        if l > 0 {
            i += l;
        } else {
            let ghost r0 = r@;
            r.push(v[i]);
            proof {
                assert(r0 + (seq![v@[i as int]] + remove_arch_from(v@, i + 1)) =~= (r0
                    + seq![v@[i as int]]) + remove_arch_from(v@, i + 1));
            }
            i += 1;
        }
    }
    proof {
        assert(r@ + remove_arch_from(v@, n as int) =~= r@);
    }
    r
}

/// All version-number tokens (an optional hyphen, an optional `v` marker, a
/// digit run, then dot-separated digit runs) removed from `s[i..]`.
/// `in_num` records that the previous character was a removed digit, so a
/// following `.digit` group also belongs to the token.
pub open spec fn remove_versions_from(s: Seq<char>, i: int, in_num: bool) -> Seq<char>
    decreases s.len() - i,
{
    if i < 0 || i >= s.len() {
        Seq::empty()
    } else if is_digit(s[i]) {
        remove_versions_from(s, i + 1, true)
    } else if in_num && s[i] == '.' && i + 1 < s.len() && is_digit(s[i + 1]) {
        remove_versions_from(s, i + 1, true)
    } else if s[i] == 'v' && i + 1 < s.len() && is_digit(s[i + 1]) {
        remove_versions_from(s, i + 1, false)
    } else if s[i] == '-' && ((i + 1 < s.len() && is_digit(s[i + 1])) || (i + 2 < s.len() && s[i
        + 1] == 'v' && is_digit(s[i + 2]))) {
        remove_versions_from(s, i + 1, false)
    } else {
        seq![s[i]] + remove_versions_from(s, i + 1, false)
    }
}

fn remove_versions(v: &Vec<char>) -> (r: Vec<char>)
    ensures
        r@ == remove_versions_from(v@, 0, false),
{
    let n = v.len();
    let mut r: Vec<char> = Vec::new();
    let mut i: usize = 0;
    let mut in_num = false;
    while i < n
        invariant
            i <= n,
            n == v@.len(),
            remove_versions_from(v@, 0, false) == r@ + remove_versions_from(v@, i as int, in_num),
        decreases n - i,
    {
        let c = v[i];
        if is_digit_exec(c) {
            in_num = true;
            i += 1;
        } else if in_num && c == '.' && n - i > 1 && is_digit_exec(v[i + 1]) {
            in_num = true;
            i += 1;
        } else if c == 'v' && n - i > 1 && is_digit_exec(v[i + 1]) {
            in_num = false;
            i += 1;
        } else if c == '-' && ((n - i > 1 && is_digit_exec(v[i + 1])) || (n - i > 2 && v[i + 1]
            == 'v' && is_digit_exec(v[i + 2]))) {
            in_num = false;
            i += 1;
        } else {
            let ghost r0 = r@;
            r.push(c);
            proof {
                assert(r0 + (seq![v@[i as int]] + remove_versions_from(v@, i + 1, false)) =~= (r0
                    + seq![v@[i as int]]) + remove_versions_from(v@, i + 1, false));
            }
            in_num = false;
            i += 1;
        }
    }
    proof {
        assert(r@ + remove_versions_from(v@, n as int, in_num) =~= r@);
    }
    r
}

/// Runs of separator characters collapsed to a single hyphen. `prev_sep`
/// records that the previous character belonged to a separator run.
pub open spec fn collapse_seps_from(s: Seq<char>, i: int, prev_sep: bool) -> Seq<char>
    decreases s.len() - i,
{
    if i < 0 || i >= s.len() {
        Seq::empty()
    } else if is_sep(s[i]) && prev_sep {
        collapse_seps_from(s, i + 1, true)
    } else if is_sep(s[i]) {
        seq!['-'] + collapse_seps_from(s, i + 1, true)
    } else {
        seq![s[i]] + collapse_seps_from(s, i + 1, false)
    }
}

fn collapse_seps(v: &Vec<char>) -> (r: Vec<char>)
    ensures
        r@ == collapse_seps_from(v@, 0, false),
{
    let n = v.len();
    let mut r: Vec<char> = Vec::new();
    let mut i: usize = 0;
    let mut prev_sep = false;
    while i < n
        invariant
            i <= n,
            n == v@.len(),
            collapse_seps_from(v@, 0, false) == r@ + collapse_seps_from(v@, i as int, prev_sep),
        decreases n - i,
    {
        let c = v[i];
        if is_sep_exec(c) {
            if !prev_sep {
                let ghost r0 = r@;
                r.push('-');
                proof {
                    assert(r0 + (seq!['-'] + collapse_seps_from(v@, i + 1, true)) =~= (r0
                        + seq!['-']) + collapse_seps_from(v@, i + 1, true));
                }
            }
            prev_sep = true;
        } else {
            let ghost r0 = r@;
            r.push(c);
            proof {
                assert(r0 + (seq![v@[i as int]] + collapse_seps_from(v@, i + 1, false)) =~= (r0
                    + seq![v@[i as int]]) + collapse_seps_from(v@, i + 1, false));
            }
            prev_sep = false;
        }
        i += 1;
    }
    proof {
        assert(r@ + collapse_seps_from(v@, n as int, prev_sep) =~= r@);
    }
    r
}

/// The canonical identity of a bundle file name: lowercased, with the
/// bundle-extension spellings, architecture tokens and version tokens
/// removed, separator runs collapsed to hyphens, and the ends trimmed.
pub open spec fn normalize_spec(s: Seq<char>) -> Seq<char> {
    let lowered = lower_seq(s);
    let no_ext = remove_lit_from(remove_lit_from(lowered, lit_dot_appimage(), 0), lit_us_appimage(), 0);
    let no_arch = remove_arch_from(no_ext, 0);
    let no_ver = remove_versions_from(no_arch, 0, false);
    let collapsed = collapse_seps_from(no_ver, 0, false);
    trim_ends_spec(collapsed)
}

/// ASCII uppercase letters.
pub open spec fn is_ascii_upper(c: char) -> bool {
    65 <= c as u32 && c as u32 <= 90
}

pub open spec fn upper_pred() -> spec_fn(char) -> bool {
    |c: char| is_ascii_upper(c)
}

/// No character of `s` is a digit, an underscore, or a dot.
pub open spec fn token_free(s: Seq<char>) -> bool {
    forall|i: int| 0 <= i < s.len() ==> !is_digit(#[trigger] s[i]) && s[i] != '_' && s[i] != '.'
}

/// No character of `s` satisfies `p`.
pub open spec fn char_free(s: Seq<char>, p: spec_fn(char) -> bool) -> bool {
    forall|j: int| 0 <= j < s.len() ==> !p(#[trigger] s[j])
}

pub open spec fn digit_pred() -> spec_fn(char) -> bool {
    |c: char| is_digit(c)
}

pub open spec fn usdot_pred() -> spec_fn(char) -> bool {
    |c: char| c == '_' || c == '.'
}

proof fn lemma_remove_versions_no_digit(s: Seq<char>, i: int, in_num: bool)
    ensures
        char_free(remove_versions_from(s, i, in_num), digit_pred()),
    decreases s.len() - i,
{
    if i < 0 || i >= s.len() {
    } else if is_digit(s[i]) {
        lemma_remove_versions_no_digit(s, i + 1, true);
    } else if in_num && s[i] == '.' && i + 1 < s.len() && is_digit(s[i + 1]) {
        lemma_remove_versions_no_digit(s, i + 1, true);
    } else if s[i] == 'v' && i + 1 < s.len() && is_digit(s[i + 1]) {
        lemma_remove_versions_no_digit(s, i + 1, false);
    } else if s[i] == '-' && ((i + 1 < s.len() && is_digit(s[i + 1])) || (i + 2 < s.len() && s[i
        + 1] == 'v' && is_digit(s[i + 2]))) {
        lemma_remove_versions_no_digit(s, i + 1, false);
    } else {
        lemma_remove_versions_no_digit(s, i + 1, false);
        let out = remove_versions_from(s, i, in_num);
        let rest = remove_versions_from(s, i + 1, false);
        assert forall|j: int| 0 <= j < out.len() implies !digit_pred()(#[trigger] out[j]) by {
            if j > 0 {
                assert(out[j] == rest[j - 1]);
            }
        }
    }
}

proof fn lemma_collapse_no_us_dot(s: Seq<char>, i: int, ps: bool)
    ensures
        char_free(collapse_seps_from(s, i, ps), usdot_pred()),
    decreases s.len() - i,
{
    if i < 0 || i >= s.len() {
    } else if is_sep(s[i]) && ps {
        lemma_collapse_no_us_dot(s, i + 1, true);
    } else if is_sep(s[i]) {
        lemma_collapse_no_us_dot(s, i + 1, true);
        let out = collapse_seps_from(s, i, ps);
        let rest = collapse_seps_from(s, i + 1, true);
        assert forall|j: int| 0 <= j < out.len() implies !usdot_pred()(#[trigger] out[j]) by {
            if j > 0 {
                assert(out[j] == rest[j - 1]);
            }
        }
    } else {
        lemma_collapse_no_us_dot(s, i + 1, false);
        let out = collapse_seps_from(s, i, ps);
        let rest = collapse_seps_from(s, i + 1, false);
        assert forall|j: int| 0 <= j < out.len() implies !usdot_pred()(#[trigger] out[j]) by {
            if j > 0 {
                assert(out[j] == rest[j - 1]);
            }
        }
    }
}

/// Collapsing keeps a character-level exclusion, provided the hyphen it
/// emits is itself excluded.
proof fn lemma_collapse_preserves(s: Seq<char>, i: int, ps: bool, p: spec_fn(char) -> bool)
    requires
        !p('-'),
        char_free(s, p),
    ensures
        char_free(collapse_seps_from(s, i, ps), p),
    decreases s.len() - i,
{
    if i < 0 || i >= s.len() {
    } else if is_sep(s[i]) && ps {
        lemma_collapse_preserves(s, i + 1, true, p);
    } else if is_sep(s[i]) {
        lemma_collapse_preserves(s, i + 1, true, p);
        let out = collapse_seps_from(s, i, ps);
        let rest = collapse_seps_from(s, i + 1, true);
        assert forall|j: int| 0 <= j < out.len() implies !p(#[trigger] out[j]) by {
            if j > 0 {
                assert(out[j] == rest[j - 1]);
            }
        }
    } else {
        lemma_collapse_preserves(s, i + 1, false, p);
        let out = collapse_seps_from(s, i, ps);
        let rest = collapse_seps_from(s, i + 1, false);
        assert forall|j: int| 0 <= j < out.len() implies !p(#[trigger] out[j]) by {
            if j > 0 {
                assert(out[j] == rest[j - 1]);
            } else {
                assert(out[0] == s[i]);
            }
        }
    }
}

proof fn lemma_remove_lit_preserves(s: Seq<char>, pat: Seq<char>, i: int, p: spec_fn(char) -> bool)
    requires
        char_free(s, p),
    ensures
        char_free(remove_lit_from(s, pat, i), p),
    decreases s.len() - i,
{
    if i < 0 || i >= s.len() {
    } else if pat.len() > 0 && matches_at(s, i, pat) {
        lemma_remove_lit_preserves(s, pat, i + pat.len() as int, p);
    } else {
        lemma_remove_lit_preserves(s, pat, i + 1, p);
        let out = remove_lit_from(s, pat, i);
        let rest = remove_lit_from(s, pat, i + 1);
        assert forall|j: int| 0 <= j < out.len() implies !p(#[trigger] out[j]) by {
            if j > 0 {
                assert(out[j] == rest[j - 1]);
            } else {
                assert(out[0] == s[i]);
            }
        }
    }
}

proof fn lemma_remove_arch_preserves(s: Seq<char>, i: int, p: spec_fn(char) -> bool)
    requires
        char_free(s, p),
    ensures
        char_free(remove_arch_from(s, i), p),
    decreases s.len() - i,
{
    if i < 0 || i >= s.len() {
    } else if arch_len_at(s, i) > 0 {
        lemma_remove_arch_preserves(s, i + arch_len_at(s, i), p);
    } else {
        lemma_remove_arch_preserves(s, i + 1, p);
        let out = remove_arch_from(s, i);
        let rest = remove_arch_from(s, i + 1);
        assert forall|j: int| 0 <= j < out.len() implies !p(#[trigger] out[j]) by {
            if j > 0 {
                assert(out[j] == rest[j - 1]);
            } else {
                assert(out[0] == s[i]);
            }
        }
    }
}

proof fn lemma_remove_versions_preserves(
    s: Seq<char>,
    i: int,
    in_num: bool,
    p: spec_fn(char) -> bool,
)
    requires
        char_free(s, p),
    ensures
        char_free(remove_versions_from(s, i, in_num), p),
    decreases s.len() - i,
{
    if i < 0 || i >= s.len() {
    } else if is_digit(s[i]) {
        lemma_remove_versions_preserves(s, i + 1, true, p);
    } else if in_num && s[i] == '.' && i + 1 < s.len() && is_digit(s[i + 1]) {
        lemma_remove_versions_preserves(s, i + 1, true, p);
    } else if s[i] == 'v' && i + 1 < s.len() && is_digit(s[i + 1]) {
        lemma_remove_versions_preserves(s, i + 1, false, p);
    } else if s[i] == '-' && ((i + 1 < s.len() && is_digit(s[i + 1])) || (i + 2 < s.len() && s[i
        + 1] == 'v' && is_digit(s[i + 2]))) {
        lemma_remove_versions_preserves(s, i + 1, false, p);
    } else {
        lemma_remove_versions_preserves(s, i + 1, false, p);
        let out = remove_versions_from(s, i, in_num);
        let rest = remove_versions_from(s, i + 1, false);
        assert forall|j: int| 0 <= j < out.len() implies !p(#[trigger] out[j]) by {
            if j > 0 {
                assert(out[j] == rest[j - 1]);
            } else {
                assert(out[0] == s[i]);
            }
        }
    }
}

proof fn lemma_scan_while_stop(s: Seq<char>, p: spec_fn(char) -> bool, i: int)
    requires
        0 <= i <= s.len(),
    ensures
        i <= scan_while(s, p, i) <= s.len(),
        scan_while(s, p, i) == s.len() || !p(s[scan_while(s, p, i)]),
    decreases s.len() - i,
{
    if i < s.len() && p(s[i]) {
        lemma_scan_while_stop(s, p, i + 1);
    }
}

proof fn lemma_scan_back_while_stop(s: Seq<char>, p: spec_fn(char) -> bool, i: int)
    requires
        0 <= i <= s.len(),
    ensures
        0 <= scan_back_while(s, p, i) <= i,
        scan_back_while(s, p, i) == 0 || !p(s[scan_back_while(s, p, i) - 1]),
    decreases i,
{
    if 0 < i && p(s[i - 1]) {
        lemma_scan_back_while_stop(s, p, i - 1);
    }
}

/// A trimmed sequence neither starts nor ends with a trimmed character.
proof fn lemma_trim_clean(s: Seq<char>, p: spec_fn(char) -> bool)
    ensures
        trim_spec(s, p).len() > 0 ==> !p(trim_spec(s, p)[0]) && !p(
            trim_spec(s, p)[trim_spec(s, p).len() - 1],
        ),
{
    lemma_scan_while_stop(s, p, 0);
    lemma_scan_back_while_stop(s, p, s.len() as int);
}

/// Trimming keeps a character-level exclusion.
proof fn lemma_trim_preserves(s: Seq<char>, p: spec_fn(char) -> bool, q: spec_fn(char) -> bool)
    requires
        char_free(s, q),
    ensures
        char_free(trim_spec(s, p), q),
{
    lemma_scan_while_stop(s, p, 0);
    lemma_scan_back_while_stop(s, p, s.len() as int);
    let lo = scan_while(s, p, 0);
    let hi = scan_back_while(s, p, s.len() as int);
    let out = trim_spec(s, p);
    assert forall|j: int| 0 <= j < out.len() implies !q(#[trigger] out[j]) by {
        if lo < hi {
            assert(out[j] == s[lo + j]);
        }
    }
}

/// Trimming whitespace from a whitespace-free sequence changes nothing.
proof fn lemma_trim_spaces_noop(s: Seq<char>)
    requires
        char_free(s, space_pred()),
    ensures
        trim_spec(s, space_pred()) == s,
{
    lemma_scan_while_stop(s, space_pred(), 0);
    lemma_scan_back_while_stop(s, space_pred(), s.len() as int);
    if s.len() == 0 {
        assert(trim_spec(s, space_pred()) =~= s);
    } else {
        assert(!space_pred()(s[0]));
        assert(scan_while(s, space_pred(), 0) == 0);
        assert(!space_pred()(s[s.len() - 1]));
        assert(scan_back_while(s, space_pred(), s.len() as int) == s.len());
        assert(trim_spec(s, space_pred()) =~= s);
    }
}

/// For every input, the normalized name holds no digit — so no
/// version-number token survives or arises — no underscore or dot — so no
/// architecture token that carries one, and no separator but the hyphen —
/// and no ASCII uppercase letter: the name is lowercase.
pub proof fn lemma_normalized_token_free(s: Seq<char>)
    ensures
        token_free(normalize_spec(s)),
        char_free(normalize_spec(s), upper_pred()),
{
    let lowered = lower_seq(s);
    let no_ext = remove_lit_from(
        remove_lit_from(lowered, lit_dot_appimage(), 0),
        lit_us_appimage(),
        0,
    );
    let no_arch = remove_arch_from(no_ext, 0);
    let no_ver = remove_versions_from(no_arch, 0, false);
    let collapsed = collapse_seps_from(no_ver, 0, false);
    let t1 = trim_spec(collapsed, dash_pred());
    let out = normalize_spec(s);
    lemma_remove_versions_no_digit(no_arch, 0, false);
    lemma_collapse_preserves(no_ver, 0, false, digit_pred());
    lemma_collapse_no_us_dot(no_ver, 0, false);
    lemma_trim_preserves(collapsed, dash_pred(), digit_pred());
    lemma_trim_preserves(collapsed, dash_pred(), usdot_pred());
    lemma_trim_preserves(t1, space_pred(), digit_pred());
    lemma_trim_preserves(t1, space_pred(), usdot_pred());
    assert forall|i: int| 0 <= i < lowered.len() implies !upper_pred()(#[trigger] lowered[i]) by {
        assert(lowered[i] == lower_char(s[i]));
    }
    lemma_remove_lit_preserves(lowered, lit_dot_appimage(), 0, upper_pred());
    lemma_remove_lit_preserves(
        remove_lit_from(lowered, lit_dot_appimage(), 0),
        lit_us_appimage(),
        0,
        upper_pred(),
    );
    lemma_remove_arch_preserves(no_ext, 0, upper_pred());
    lemma_remove_versions_preserves(no_arch, 0, false, upper_pred());
    lemma_collapse_preserves(no_ver, 0, false, upper_pred());
    lemma_trim_preserves(collapsed, dash_pred(), upper_pred());
    lemma_trim_preserves(t1, space_pred(), upper_pred());
    assert forall|i: int| 0 <= i < out.len() implies !is_digit(#[trigger] out[i]) && out[i] != '_'
        && out[i] != '.' by {
        assert(!digit_pred()(out[i]));
        assert(!usdot_pred()(out[i]));
    }
}

/// For a whitespace-free input, the normalized name is trimmed: it neither
/// starts nor ends with a hyphen or whitespace. (A name holding whitespace
/// next to a separator can defeat the trim, as the trim passes run in a
/// fixed order; such inputs are excluded here.)
pub proof fn lemma_normalized_trimmed(s: Seq<char>)
    requires
        char_free(s, space_pred()),
    ensures
        normalize_spec(s).len() > 0 ==> {
            let out = normalize_spec(s);
            out[0] != '-' && out[out.len() - 1] != '-' && !is_space(out[0]) && !is_space(
                out[out.len() - 1],
            )
        },
{
    let lowered = lower_seq(s);
    let no_ext = remove_lit_from(
        remove_lit_from(lowered, lit_dot_appimage(), 0),
        lit_us_appimage(),
        0,
    );
    let no_arch = remove_arch_from(no_ext, 0);
    let no_ver = remove_versions_from(no_arch, 0, false);
    let collapsed = collapse_seps_from(no_ver, 0, false);
    let t1 = trim_spec(collapsed, dash_pred());
    assert forall|i: int| 0 <= i < lowered.len() implies !space_pred()(#[trigger] lowered[i]) by {
        assert(lowered[i] == lower_char(s[i]));
        assert(!space_pred()(s[i]));
    }
    lemma_remove_lit_preserves(lowered, lit_dot_appimage(), 0, space_pred());
    lemma_remove_lit_preserves(
        remove_lit_from(lowered, lit_dot_appimage(), 0),
        lit_us_appimage(),
        0,
        space_pred(),
    );
    lemma_remove_arch_preserves(no_ext, 0, space_pred());
    lemma_remove_versions_preserves(no_arch, 0, false, space_pred());
    lemma_collapse_preserves(no_ver, 0, false, space_pred());
    lemma_trim_preserves(collapsed, dash_pred(), space_pred());
    lemma_trim_clean(collapsed, dash_pred());
    lemma_trim_spaces_noop(t1);
    assert(normalize_spec(s) == t1);
}

pub fn normalize_appimage_name(name: &str) -> (r: String)
    ensures
        r@ == normalize_spec(name@),
{
    let v = chars_of(name);
    let lowered = to_lower_vec(&v);
    let p1 = pat_of_9('.', 'a', 'p', 'p', 'i', 'm', 'a', 'g', 'e');
    let p2 = pat_of_9('_', 'a', 'p', 'p', 'i', 'm', 'a', 'g', 'e');
    proof {
        assert(p1@ =~= lit_dot_appimage());
        assert(p2@ =~= lit_us_appimage());
    }
    let a = remove_lit(&lowered, &p1);
    let b = remove_lit(&a, &p2);
    let c = remove_arch(&b);
    let d = remove_versions(&c);
    let e = collapse_seps(&d);
    let f = trim_ends(&e);
    string_of(&f)
}

} // verus!
