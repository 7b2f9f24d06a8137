use vstd::prelude::*;

verus! {

/// Lowercases an ASCII letter; any other character is unchanged.
pub open spec fn lower_char(c: char) -> char {
    if 65 <= c as u32 && c as u32 <= 90 {
        (c as u32 + 32) as char
    } else {
        c
    }
}

/// ASCII-lowercase of a whole character sequence.
pub open spec fn lower_seq(s: Seq<char>) -> Seq<char> {
    s.map_values(|c: char| lower_char(c))
}

pub fn to_lower_char(c: char) -> (r: char)
    ensures
        r == lower_char(c),
{
    let u = c as u32;
    if 65 <= u && u <= 90 {
        ((u + 32) as u8) as char
    } else {
        c
    }
}

pub fn to_lower_vec(v: &Vec<char>) -> (r: Vec<char>)
    ensures
        r@ == lower_seq(v@),
{
    let mut r: Vec<char> = Vec::new();
    let mut i: usize = 0;
    while i < v.len()
        invariant
            i <= v@.len(),
            r@ == lower_seq(v@.subrange(0, i as int)),
        decreases v@.len() - i,
    {
        r.push(to_lower_char(v[i]));
        proof {
            assert(lower_seq(v@.subrange(0, i + 1)) =~= lower_seq(v@.subrange(0, i as int)).push(
                lower_char(v@[i as int]),
            ));
        }
        i += 1;
    }
    proof {
        assert(v@.subrange(0, v@.len() as int) =~= v@);
    }
    r
}

/// The characters of a string slice, in order.
pub fn chars_of(s: &str) -> (r: Vec<char>)
    ensures
        r@ == s@,
{
    let n = s.unicode_len();
    let mut r: Vec<char> = Vec::new();
    let mut i: usize = 0;
    while i < n
        invariant
            i <= n,
            n == s@.len(),
            r@ == s@.subrange(0, i as int),
        decreases n - i,
    {
        r.push(s.get_char(i));
        i += 1;
    }
    proof {
        assert(s@.subrange(0, n as int) =~= s@);
    }
    r
}

/// Relies on std's `String::push`: appends the given character to the end of the string.
#[verifier::external_body]
pub(crate) fn push_char(s: &mut String, c: char)
    ensures
        final(s)@ == old(s)@.push(c),
{
    s.push(c);
}

/// A `String` holding exactly the given characters.
pub fn string_of(v: &Vec<char>) -> (r: String)
    ensures
        r@ == v@,
{
    let mut s = String::new();
    let mut i: usize = 0;
    while i < v.len()
        invariant
            i <= v@.len(),
            s@ == v@.subrange(0, i as int),
        decreases v@.len() - i,
    {
        push_char(&mut s, v[i]);
        proof {
            assert(v@.subrange(0, i as int).push(v@[i as int]) =~= v@.subrange(0, i + 1));
        }
        i += 1;
    }
    proof {
        assert(v@.subrange(0, v@.len() as int) =~= v@);
    }
    s
}

/// The pattern `pat` occurs in `s` starting at index `i`.
pub open spec fn matches_at(s: Seq<char>, i: int, pat: Seq<char>) -> bool {
    &&& 0 <= i
    &&& i + pat.len() <= s.len()
    &&& forall|k: int| 0 <= k < pat.len() ==> s[i + k] == pat[k]
}

/// The pattern `pat` occurs somewhere in `s`.
pub open spec fn contains_seq(s: Seq<char>, pat: Seq<char>) -> bool {
    exists|i: int| matches_at(s, i, pat)
}

pub fn matches_at_exec(v: &Vec<char>, i: usize, pat: &Vec<char>) -> (r: bool)
    requires
        i + pat@.len() <= v@.len(),
    ensures
        r == matches_at(v@, i as int, pat@),
{
    let n = v.len();
    let mut k: usize = 0;
    while k < pat.len()
        invariant
            k <= pat@.len(),
            i + pat@.len() <= n,
            n == v@.len(),
            forall|j: int| 0 <= j < k ==> v@[i + j] == pat@[j],
        decreases pat@.len() - k,
    {
        if v[i + k] != pat[k] {
            return false;
        }
        k += 1;
    }
    true
}

pub fn contains_exec(v: &Vec<char>, pat: &Vec<char>) -> (r: bool)
    ensures
        r == contains_seq(v@, pat@),
{
    if pat.len() == 0 {
        proof {
            assert(matches_at(v@, 0, pat@));
        }
        return true;
    }
    if pat.len() > v.len() {
        return false;
    }
    let end = v.len() - pat.len();
    let mut i: usize = 0;
    while i <= end
        invariant
            i <= end + 1,
            end < usize::MAX,
            end + pat@.len() == v@.len(),
            pat@.len() >= 1,
            forall|j: int| 0 <= j < i ==> !matches_at(v@, j, pat@),
        decreases end + 1 - i,
    {
        if matches_at_exec(v, i, pat) {
            return true;
        }
        i += 1;
    }
    false
}

/// The characters of `v` from `a` (inclusive) to `b` (exclusive).
pub fn subvec(v: &Vec<char>, a: usize, b: usize) -> (r: Vec<char>)
    requires
        a <= b <= v@.len(),
    ensures
        r@ == v@.subrange(a as int, b as int),
{
    let mut r: Vec<char> = Vec::new();
    let mut i: usize = a;
    while i < b
        invariant
            a <= i <= b <= v@.len(),
            r@ == v@.subrange(a as int, i as int),
        decreases b - i,
    {
        r.push(v[i]);
        proof {
            assert(v@.subrange(a as int, i as int).push(v@[i as int]) =~= v@.subrange(
                a as int,
                i + 1,
            ));
        }
        i += 1;
    }
    r
}

/// The two strings joined around a single path separator.
pub fn path_join(a: &str, b: &str) -> (r: String)
    ensures
        r@ == a@ + "/"@ + b@,
{
    let s = a.to_owned();
    let s = s.concat("/");
    s.concat(b)
}

/// The two strings joined end to end.
pub fn concat_str(a: &str, b: &str) -> (r: String)
    ensures
        r@ == a@ + b@,
{
    a.to_owned().concat(b)
}

/// An element-wise copy of a vector of strings.
pub fn clone_strings(v: &Vec<String>) -> (r: Vec<String>)
    ensures
        r.deep_view() == v.deep_view(),
{
    let mut r: Vec<String> = Vec::new();
    proof {
        assert(r.deep_view() =~= v.deep_view().subrange(0, 0));
    }
    let mut i: usize = 0;
    while i < v.len()
        invariant
            i <= v@.len(),
            r.deep_view() == v.deep_view().subrange(0, i as int),
        decreases v@.len() - i,
    {
        let ghost d0 = r.deep_view();
        r.push(v[i].clone());
        proof {
            assert(r.deep_view() =~~= d0 + seq![v@[i as int]@]);
            assert(v.deep_view()[i as int] == v@[i as int]@);
            assert(d0 + seq![v@[i as int]@] =~= v.deep_view().subrange(0, i + 1));
        }
        i += 1;
    }
    proof {
        assert(v.deep_view().subrange(0, v.deep_view().len() as int) =~= v.deep_view());
    }
    r
}

pub fn str_eq(a: &str, b: &str) -> (r: bool)
    ensures
        r == (a@ == b@),
{
    let x = chars_of(a);
    let y = chars_of(b);
    chars_eq(&x, &y)
}

pub fn chars_eq(a: &Vec<char>, b: &Vec<char>) -> (r: bool)
    ensures
        r == (a@ == b@),
{
    if a.len() != b.len() {
        return false;
    }
    let mut i: usize = 0;
    while i < a.len()
        invariant
            i <= a@.len(),
            a@.len() == b@.len(),
            forall|j: int| 0 <= j < i ==> a@[j] == b@[j],
        decreases a@.len() - i,
    {
        if a[i] != b[i] {
            return false;
        }
        i += 1;
    }
    proof {
        assert(a@ =~= b@);
    }
    true
}

/// Whitespace, as trimmed from the ends of identifiers: the ASCII spacing characters.
pub open spec fn is_space(c: char) -> bool {
    c == ' ' || c == '\t' || c == '\n' || c == '\r' || c == '\u{b}' || c == '\u{c}'
}

pub fn is_space_exec(c: char) -> (r: bool)
    ensures
        r == is_space(c),
{
    c == ' ' || c == '\t' || c == '\n' || c == '\r' || c == '\u{b}' || c == '\u{c}'
}

/// Index of the first character at or after `i` that fails `p`, or the length.
pub open spec fn scan_while(s: Seq<char>, p: spec_fn(char) -> bool, i: int) -> int
    decreases s.len() - i,
{
    if 0 <= i < s.len() && p(s[i]) {
        scan_while(s, p, i + 1)
    } else {
        i
    }
}

/// Index after the last character before `i` that fails `p`, or zero.
pub open spec fn scan_back_while(s: Seq<char>, p: spec_fn(char) -> bool, i: int) -> int
    decreases i,
{
    if 0 < i <= s.len() && p(s[i - 1]) {
        scan_back_while(s, p, i - 1)
    } else {
        i
    }
}

/// The predicate trimmed by `trim_matches('-')`.
pub open spec fn dash_pred() -> spec_fn(char) -> bool {
    |c: char| c == '-'
}

/// The predicate trimmed by whitespace trimming.
pub open spec fn space_pred() -> spec_fn(char) -> bool {
    |c: char| is_space(c)
}

/// `s` with leading and trailing characters satisfying `p` removed.
pub open spec fn trim_spec(s: Seq<char>, p: spec_fn(char) -> bool) -> Seq<char> {
    let lo = scan_while(s, p, 0);
    let hi = scan_back_while(s, p, s.len() as int);
    if lo >= hi {
        Seq::empty()
    } else {
        s.subrange(lo, hi)
    }
}

proof fn lemma_scan_while_bounds(s: Seq<char>, p: spec_fn(char) -> bool, i: int)
    requires
        0 <= i <= s.len(),
    ensures
        i <= scan_while(s, p, i) <= s.len(),
    decreases s.len() - i,
{
    if i < s.len() && p(s[i]) {
        lemma_scan_while_bounds(s, p, i + 1);
    }
}

proof fn lemma_scan_back_while_bounds(s: Seq<char>, p: spec_fn(char) -> bool, i: int)
    requires
        0 <= i <= s.len(),
    ensures
        0 <= scan_back_while(s, p, i) <= i,
    decreases i,
{
    if 0 < i && p(s[i - 1]) {
        lemma_scan_back_while_bounds(s, p, i - 1);
    }
}

fn trim_dashes(v: &Vec<char>) -> (r: Vec<char>)
    ensures
        r@ == trim_spec(v@, dash_pred()),
{
    let mut lo: usize = 0;
    while lo < v.len() && v[lo] == '-'
        invariant
            0 <= lo <= v@.len(),
            scan_while(v@, dash_pred(), 0) == scan_while(v@, dash_pred(), lo as int),
        decreases v@.len() - lo,
    {
        lo += 1;
    }
    let mut hi: usize = v.len();
    while hi > lo && v[hi - 1] == '-'
        invariant
            lo <= hi <= v@.len(),
            scan_back_while(v@, dash_pred(), v@.len() as int) == scan_back_while(
                v@,
                dash_pred(),
                hi as int,
            ),
        decreases hi,
    {
        hi -= 1;
    }
    proof {
        lemma_scan_back_while_bounds(v@, dash_pred(), hi as int);
    }
    if lo >= hi {
        Vec::new()
    } else {
        subvec(v, lo, hi)
    }
}

fn trim_spaces(v: &Vec<char>) -> (r: Vec<char>)
    ensures
        r@ == trim_spec(v@, space_pred()),
{
    let mut lo: usize = 0;
    while lo < v.len() && is_space_exec(v[lo])
        invariant
            0 <= lo <= v@.len(),
            scan_while(v@, space_pred(), 0) == scan_while(v@, space_pred(), lo as int),
        decreases v@.len() - lo,
    {
        lo += 1;
    }
    let mut hi: usize = v.len();
    while hi > lo && is_space_exec(v[hi - 1])
        invariant
            lo <= hi <= v@.len(),
            scan_back_while(v@, space_pred(), v@.len() as int) == scan_back_while(
                v@,
                space_pred(),
                hi as int,
            ),
        decreases hi,
    {
        hi -= 1;
    }
    proof {
        lemma_scan_back_while_bounds(v@, space_pred(), hi as int);
    }
    if lo >= hi {
        Vec::new()
    } else {
        subvec(v, lo, hi)
    }
}

/// Leading and trailing `'-'` removed, then leading and trailing whitespace removed.
pub open spec fn trim_ends_spec(s: Seq<char>) -> Seq<char> {
    trim_spec(trim_spec(s, dash_pred()), space_pred())
}

/// Leading and trailing whitespace removed, as `str::trim` does for ASCII text.
pub open spec fn trim_spaces_spec(s: Seq<char>) -> Seq<char> {
    trim_spec(s, space_pred())
}

pub fn trim_spaces_vec(v: &Vec<char>) -> (r: Vec<char>)
    ensures
        r@ == trim_spaces_spec(v@),
{
    trim_spaces(v)
}

/// A line as `str::lines` yields it: one trailing carriage return removed.
pub open spec fn strip_cr(l: Seq<char>) -> Seq<char> {
    if l.len() > 0 && l[l.len() - 1] == '\r' {
        l.drop_last()
    } else {
        l
    }
}

/// The lines of `s[i..]` given the current partial line `cur`, split at
/// newlines as `str::lines` splits them: each completed line loses a
/// trailing carriage return, and a final unterminated line is kept as is.
pub open spec fn lines_acc(s: Seq<char>, i: int, cur: Seq<char>) -> Seq<Seq<char>>
    decreases s.len() - i,
{
    if i < 0 || i >= s.len() {
        if cur.len() > 0 {
            seq![cur]
        } else {
            Seq::empty()
        }
    } else if s[i] == '\n' {
        seq![strip_cr(cur)] + lines_acc(s, i + 1, Seq::empty())
    } else {
        lines_acc(s, i + 1, cur.push(s[i]))
    }
}

/// The lines of `s`, as `str::lines` yields them.
pub open spec fn lines_spec(s: Seq<char>) -> Seq<Seq<char>> {
    lines_acc(s, 0, Seq::empty())
}

fn strip_cr_exec(l: Vec<char>) -> (r: Vec<char>)
    ensures
        r@ == strip_cr(l@),
{
    let mut l = l;
    if l.len() > 0 && l[l.len() - 1] == '\r' {
        let _ = l.pop();
    }
    l
}

pub fn split_lines(v: &Vec<char>) -> (r: Vec<Vec<char>>)
    ensures
        r.deep_view() == lines_spec(v@),
{
    let n = v.len();
    let mut out: Vec<Vec<char>> = Vec::new();
    let mut cur: Vec<char> = Vec::new();
    let mut i: usize = 0;
    while i < n
        invariant
            i <= n,
            n == v@.len(),
            lines_spec(v@) == out.deep_view() + lines_acc(v@, i as int, cur@),
        decreases n - i,
    {
        if v[i] == '\n' {
            let ghost o0 = out.deep_view();
            let ghost c0 = cur@;
            let done = strip_cr_exec(cur);
            out.push(done);
            cur = Vec::new();
            proof {
                assert(out.deep_view() =~~= o0 + seq![strip_cr(c0)]);
                assert(o0 + (seq![strip_cr(c0)] + lines_acc(v@, i + 1, Seq::empty())) =~= (o0
                    + seq![strip_cr(c0)]) + lines_acc(v@, i + 1, Seq::empty()));
            }
        } else {
            cur.push(v[i]);
        }
        i += 1;
    }
    if cur.len() > 0 {
        let ghost o0 = out.deep_view();
        let ghost c0 = cur@;
        out.push(cur);
        proof {
            assert(out.deep_view() =~~= o0 + seq![c0]);
            assert((o0 + seq![c0]) =~= o0 + lines_acc(v@, n as int, c0));
        }
    } else {
        proof {
            assert(out.deep_view() + lines_acc(v@, n as int, cur@) =~~= out.deep_view());
        }
    }
    out
}

/// The segments of `s[i..]` around `sep`, given the current partial
/// segment `cur`: the splitting of `str::split`, which always yields one
/// more segment than there are separators.
pub open spec fn split_acc(s: Seq<char>, sep: char, i: int, cur: Seq<char>) -> Seq<Seq<char>>
    decreases s.len() - i,
{
    if i < 0 || i >= s.len() {
        seq![cur]
    } else if s[i] == sep {
        seq![cur] + split_acc(s, sep, i + 1, Seq::empty())
    } else {
        split_acc(s, sep, i + 1, cur.push(s[i]))
    }
}

pub open spec fn split_spec(s: Seq<char>, sep: char) -> Seq<Seq<char>> {
    split_acc(s, sep, 0, Seq::empty())
}

pub fn split_at_char(v: &Vec<char>, sep: char) -> (r: Vec<Vec<char>>)
    ensures
        r.deep_view() == split_spec(v@, sep),
{
    let n = v.len();
    let mut out: Vec<Vec<char>> = Vec::new();
    let mut cur: Vec<char> = Vec::new();
    let mut i: usize = 0;
    while i < n
        invariant
            i <= n,
            n == v@.len(),
            split_spec(v@, sep) == out.deep_view() + split_acc(v@, sep, i as int, cur@),
        decreases n - i,
    {
        if v[i] == sep {
            let ghost o0 = out.deep_view();
            let ghost c0 = cur@;
            out.push(cur);
            cur = Vec::new();
            proof {
                assert(out.deep_view() =~~= o0 + seq![c0]);
                assert(o0 + (seq![c0] + split_acc(v@, sep, i + 1, Seq::empty())) =~= (o0
                    + seq![c0]) + split_acc(v@, sep, i + 1, Seq::empty()));
            }
        } else {
            cur.push(v[i]);
        }
        i += 1;
    }
    let ghost o0 = out.deep_view();
    let ghost c0 = cur@;
    out.push(cur);
    proof {
        assert(out.deep_view() =~~= o0 + seq![c0]);
    }
    out
}

/// Index just after the last `/` at or before `i`, or zero.
pub open spec fn last_slash_end(s: Seq<char>, i: int) -> int
    decreases i,
{
    if i <= 0 {
        0
    } else if s[i - 1] == '/' {
        i
    } else {
        last_slash_end(s, i - 1)
    }
}

/// The final path component: everything after the last separator.
pub open spec fn file_name_spec(path: Seq<char>) -> Seq<char> {
    path.skip(last_slash_end(path, path.len() as int))
}

proof fn lemma_last_slash_end_bounds(s: Seq<char>, i: int)
    requires
        0 <= i <= s.len(),
    ensures
        0 <= last_slash_end(s, i) <= i,
    decreases i,
{
    if i > 0 && s[i - 1] != '/' {
        lemma_last_slash_end_bounds(s, i - 1);
    }
}

pub fn file_name_of(path: &str) -> (r: Vec<char>)
    ensures
        r@ == file_name_spec(path@),
{
    let v = chars_of(path);
    let n = v.len();
    let mut i: usize = n;
    while i > 0 && v[i - 1] != '/'
        invariant
            i <= n,
            n == v@.len(),
            v@ == path@,
            last_slash_end(v@, n as int) == last_slash_end(v@, i as int),
        decreases i,
    {
        i -= 1;
    }
    proof {
        lemma_last_slash_end_bounds(v@, n as int);
        assert(v@.skip(i as int) =~= v@.subrange(i as int, n as int));
    }
    subvec(&v, i, n)
}

/// Index of the last `.` strictly before `i`, or minus one.
pub open spec fn last_dot_at(s: Seq<char>, i: int) -> int
    decreases i,
{
    if i <= 0 {
        -1
    } else if s[i - 1] == '.' {
        i - 1
    } else {
        last_dot_at(s, i - 1)
    }
}

/// The extension of a file name, as the platform's path API yields it:
/// the text after the last dot, none when there is no dot or the only dot
/// leads a hidden name.
pub open spec fn ext_spec(name: Seq<char>) -> Option<Seq<char>> {
    let d = last_dot_at(name, name.len() as int);
    if d <= 0 {
        None
    } else {
        Some(name.skip(d + 1))
    }
}

/// The stem of a file name: everything before its extension.
pub open spec fn stem_spec(name: Seq<char>) -> Seq<char> {
    let d = last_dot_at(name, name.len() as int);
    if d <= 0 {
        name
    } else {
        name.take(d)
    }
}

proof fn lemma_last_dot_at_bounds(s: Seq<char>, i: int)
    requires
        0 <= i <= s.len(),
    ensures
        -1 <= last_dot_at(s, i) < i,
    decreases i,
{
    if i > 0 && s[i - 1] != '.' {
        lemma_last_dot_at_bounds(s, i - 1);
    }
}

/// The extension of the file name held in `v`, if it has one.
pub fn ext_of(v: &Vec<char>) -> (r: Option<Vec<char>>)
    ensures
        match r {
            Some(e) => ext_spec(v@) == Some(e@),
            None => ext_spec(v@) is None,
        },
{
    let n = v.len();
    let mut i: usize = n;
    while i > 0 && v[i - 1] != '.'
        invariant
            i <= n,
            n == v@.len(),
            last_dot_at(v@, n as int) == last_dot_at(v@, i as int),
        decreases i,
    {
        i -= 1;
    }
    proof {
        lemma_last_dot_at_bounds(v@, n as int);
    }
    if i <= 1 {
        proof {
            if i == 1 {
                assert(last_dot_at(v@, 1int) == 0);
            }
        }
        None
    } else {
        proof {
            assert(last_dot_at(v@, i as int) == i - 1);
            assert(v@.skip(i as int) =~= v@.subrange(i as int, n as int));
        }
        Some(subvec(v, i, n))
    }
}

/// The stem of the file name held in `v`.
pub fn stem_of(v: &Vec<char>) -> (r: Vec<char>)
    ensures
        r@ == stem_spec(v@),
{
    let n = v.len();
    let mut i: usize = n;
    while i > 0 && v[i - 1] != '.'
        invariant
            i <= n,
            n == v@.len(),
            last_dot_at(v@, n as int) == last_dot_at(v@, i as int),
        decreases i,
    {
        i -= 1;
    }
    proof {
        lemma_last_dot_at_bounds(v@, n as int);
    }
    if i <= 1 {
        proof {
            if i == 1 {
                assert(last_dot_at(v@, 1int) == 0);
            }
            assert(v@.subrange(0, n as int) =~= v@);
        }
        subvec(v, 0, n)
    } else {
        proof {
            assert(last_dot_at(v@, i as int) == i - 1);
            assert(v@.take(i - 1) =~= v@.subrange(0, i - 1));
        }
        subvec(v, 0, i - 1)
    }
}

/// `s` begins with `pat`.
pub open spec fn starts_with(s: Seq<char>, pat: Seq<char>) -> bool {
    matches_at(s, 0, pat)
}

pub fn starts_with_exec(v: &Vec<char>, pat: &Vec<char>) -> (r: bool)
    ensures
        r == starts_with(v@, pat@),
{
    if pat.len() > v.len() {
        return false;
    }
    matches_at_exec(v, 0, pat)
}

/// The remainder of `v` after the prefix `pat`, when `v` begins with it.
pub fn strip_prefix_exec(v: &Vec<char>, pat: &Vec<char>) -> (r: Option<Vec<char>>)
    ensures
        match r {
            Some(rest) => starts_with(v@, pat@) && rest@ == v@.subrange(
                pat@.len() as int,
                v@.len() as int,
            ),
            None => !starts_with(v@, pat@),
        },
{
    if starts_with_exec(v, pat) {
        Some(subvec(v, pat.len(), v.len()))
    } else {
        None
    }
}

pub fn trim_ends(v: &Vec<char>) -> (r: Vec<char>)
    ensures
        r@ == trim_ends_spec(v@),
{
    let d = trim_dashes(v);
    trim_spaces(&d)
}

} // verus!
