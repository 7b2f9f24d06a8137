//! Icon selection: which file of an extracted tree becomes the
//! application's icon, and where it is published.
//!
//! Listing the tree and copying the file is the caller's part.
use vstd::prelude::*;

use crate::text::chars_of;
use crate::text::concat_str;
use crate::text::ext_of;
use crate::text::ext_spec;
use crate::text::lower_seq;
use crate::text::path_join;
use crate::text::string_of;
use crate::text::to_lower_vec;

verus! {

/// Why icon extraction failed; the detail is for the operator.
#[derive(Debug)]
pub enum IconExtractError {
    Io(String),
    NotFound { path: String },
}

pub open spec fn lit_png() -> Seq<char> {
    seq!['p', 'n', 'g']
}

pub open spec fn lit_svg() -> Seq<char> {
    seq!['s', 'v', 'g']
}

/// A file name usable as an icon: a png or svg extension, in any ASCII
/// casing.
pub open spec fn is_icon_name(name: Seq<char>) -> bool {
    match ext_spec(name) {
        Some(e) => lower_seq(e) == lit_png() || lower_seq(e) == lit_svg(),
        None => false,
    }
}

/// Index of the first usable icon at or after `i`, or minus one.
pub open spec fn icon_pick_from(names: Seq<Seq<char>>, i: int) -> int
    decreases names.len() - i,
{
    if i < 0 || i >= names.len() {
        -1
    } else if is_icon_name(names[i]) {
        i
    } else {
        icon_pick_from(names, i + 1)
    }
}

fn is_icon_name_exec(name: &str) -> (r: bool)
    ensures
        r == is_icon_name(name@),
{
    let nv = chars_of(name);
    match ext_of(&nv) {
        Some(e) => {
            let lowered = to_lower_vec(&e);
            let mut png: Vec<char> = Vec::new();
            png.push('p');
            png.push('n');
            png.push('g');
            let mut svg: Vec<char> = Vec::new();
            svg.push('s');
            svg.push('v');
            svg.push('g');
            proof {
                assert(png@ =~= lit_png());
                assert(svg@ =~= lit_svg());
            }
            crate::text::chars_eq(&lowered, &png) || crate::text::chars_eq(&lowered, &svg)
        },
        None => false,
    }
}

/// The first file of the listing that can serve as the icon, if any.
pub fn pick_icon(names: &Vec<String>) -> (r: Option<usize>)
    ensures
        match r {
            Some(i) => 0 <= i < names@.len() && i as int == icon_pick_from(
                names.deep_view(),
                0,
            ) && is_icon_name(names@[i as int]@),
            None => icon_pick_from(names.deep_view(), 0) == -1,
        },
{
    let n = names.len();
    proof {
        assert(names.deep_view().len() == names@.len());
    }
    let mut i: usize = 0;
    while i < n
        invariant
            i <= n,
            n == names@.len(),
            n == names.deep_view().len(),
            icon_pick_from(names.deep_view(), 0) == icon_pick_from(names.deep_view(), i as int),
            forall|j: int| 0 <= j < i ==> !is_icon_name(#[trigger] names.deep_view()[j]),
        decreases n - i,
    {
        proof {
            assert(names.deep_view()[i as int] =~= names@[i as int]@);
        }
        if is_icon_name_exec(names[i].as_str()) {
            proof {
                assert(icon_pick_from(names.deep_view(), i as int) == i);
            }
            return Some(i);
        }
        i += 1;
    }
    None
}

/// Where the icon is published: the application's identity carrying the
/// source's extension — or `png` when the source has none — under the
/// icon root.
pub fn icon_destination(icon_dir: &str, normalized_name: &str, source_name: &str) -> (r: String)
    ensures
        r@ == icon_dir@ + "/"@ + (normalized_name@ + "."@ + (match ext_spec(source_name@) {
            Some(e) => e,
            None => "png"@,
        })),
{
    let sv = chars_of(source_name);
    let file = match ext_of(&sv) {
        Some(e) => {
            let dotted = concat_str(normalized_name, ".");
            concat_str(dotted.as_str(), string_of(&e).as_str())
        },
        None => {
            let dotted = concat_str(normalized_name, ".");
            concat_str(dotted.as_str(), "png")
        },
    };
    path_join(icon_dir, file.as_str())
}

} // verus!
