//! Where on the screen the overlay is anchored.

use vstd::prelude::*;
use crate::text::{lowercase, has_substring, str_contains, to_lowercase};

verus! {

/// The screen edges the overlay is anchored to.
#[derive(Debug, Clone, Copy, PartialEq, Eq, Structural)]
pub struct AnchorSides {
    pub top: bool,
    pub bottom: bool,
    pub left: bool,
    pub right: bool,
}

/// The edges named in a (lower-case) placement: each of `bottom`, `top`,
/// `left`, `right` that occurs in it; bottom-right when none does.
pub open spec fn anchor_for(place: Seq<char>) -> AnchorSides {
    let named = AnchorSides {
        top: has_substring(place, "top"@),
        bottom: has_substring(place, "bottom"@),
        left: has_substring(place, "left"@),
        right: has_substring(place, "right"@),
    };
    if !named.top && !named.bottom && !named.left && !named.right {
        AnchorSides { top: false, bottom: true, left: false, right: true }
    } else {
        named
    }
}

/// The edges a placement such as `bottom-right` or `top-left` names,
/// without regard to letter case; bottom-right when it names none.
pub fn parse_anchor(place: &str) -> (r: AnchorSides)
    ensures
        r == anchor_for(lowercase(place@)),
        r.top || r.bottom || r.left || r.right,
{
    let lower = to_lowercase(place);
    let p = lower.as_str();
    let mut anchor = AnchorSides { top: false, bottom: false, left: false, right: false };
    if str_contains(p, "bottom") {
        anchor.bottom = true;
    }
    if str_contains(p, "top") {
        anchor.top = true;
    }
    if str_contains(p, "left") {
        anchor.left = true;
    }
    if str_contains(p, "right") {
        anchor.right = true;
    }
    if !anchor.top && !anchor.bottom && !anchor.left && !anchor.right {
        anchor = AnchorSides { top: false, bottom: true, left: false, right: true };
    }
    anchor
}

/// A placement is anchored to exactly the edges it names: when it names at
/// least one of `top`, `bottom`, `left`, `right`, each edge is anchored
/// exactly when its name occurs in the placement; only a placement naming
/// none is anchored bottom-right.
pub proof fn lemma_anchor_is_the_named_edges(place: Seq<char>)
    ensures
        ({
            let r = anchor_for(place);
            let names_one = has_substring(place, "top"@) || has_substring(place, "bottom"@)
                || has_substring(place, "left"@) || has_substring(place, "right"@);
            &&& names_one ==> r.top == has_substring(place, "top"@)
            &&& names_one ==> r.bottom == has_substring(place, "bottom"@)
            &&& names_one ==> r.left == has_substring(place, "left"@)
            &&& names_one ==> r.right == has_substring(place, "right"@)
            &&& !names_one ==> (r.bottom && r.right && !r.top && !r.left)
        }),
{
}

} // verus!
