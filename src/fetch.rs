//! The decisions of the paginated tree fetch; the requests themselves are
//! made by the caller.
use vstd::prelude::*;

verus! {

/// After a page of children: the cursor to ask with next, or `None` when the
/// listing is exhausted (no more pages, or no cursor to continue from).
pub fn next_cursor(has_more: bool, cursor: Option<String>) -> (r: Option<String>)
    ensures
        r == if has_more { cursor } else { None },
{
    if has_more {
        cursor
    } else {
        None
    }
}

/// Whether a block's children are to be fetched: only when it says it has
/// some and has an id to ask with.
pub fn should_fetch_children(has_children: Option<bool>, has_id: bool) -> (r: bool)
    ensures
        r == (has_children == Some(true) && has_id),
{
    match has_children {
        Some(true) => has_id,
        _ => false,
    }
}

} // verus!
