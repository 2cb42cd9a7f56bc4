//! Pages of hits: how many hits to ask of the engine, and which of them to
//! hand out.

use crate::engine::{collectable, Hit};
use vstd::prelude::*;

verus! {

/// The smaller of two numbers.
pub open spec fn least(a: int, b: int) -> int {
    if a <= b {
        a
    } else {
        b
    }
}

/// The number of hits to ask of the engine for a page: the page and all
/// that stands before it, but no more than the index holds records. To ask
/// for more hits than there are records changes no answer; the engine takes
/// no request for 0 hits, so an empty index is asked for one.
pub open spec fn spec_window(limit: usize, offset: usize, count: u64) -> int {
    least(limit + offset, if count == 0 { 1 } else { count as int })
}

/// Computes the number of hits to ask of the engine for a page. Gives
/// nothing where that is more than the engine can be asked for.
pub fn window(limit: usize, offset: usize, count: u64) -> (hits: Option<usize>)
    requires
        1 <= limit,
    ensures
        match hits {
            Some(wanted) => wanted == spec_window(limit, offset, count) && collectable(
                wanted as int,
            ),
            None => !collectable(spec_window(limit, offset, count)),
        },
{
    let most: usize = usize::MAX / 48;
    let count: u64 = if count == 0 {
        1
    } else {
        count
    };
    let wanted: u64 = match limit.checked_add(offset) {
        Some(sum) => if (sum as u64) < count {
            sum as u64
        } else {
            count
        },
        None => count,
    };
    if wanted <= most as u64 {
        Some(wanted as usize)
    } else {
        None
    }
}

/// Whether a page lies deeper in an index of `total` records than the
/// engine can be asked to reach.
pub open spec fn too_deep(limit: usize, offset: usize, total: nat) -> bool {
    !collectable(least(limit + offset, if total == 0 { 1 } else { total as int }))
}

/// The number of items on a page of `total` items: what is left of them
/// once `offset` are skipped, but no more than `limit`.
pub open spec fn rest_len(limit: int, offset: int, total: int) -> int {
    if offset >= total {
        0
    } else {
        least(limit, total - offset)
    }
}

/// The page of a list: what is left once `offset` items are skipped, cut
/// after `limit` items.
pub open spec fn page<T>(items: Seq<T>, offset: int, limit: int) -> Seq<T> {
    let start = least(offset, items.len() as int);
    let end = least(start + limit, items.len() as int);
    items.subrange(start, end)
}

/// The number of items of a page.
pub open spec fn page_len(len: int, offset: int, limit: int) -> int {
    let start = least(offset, len);
    least(start + limit, len) - start
}

/// Cuts the page out of the hits of the engine: skips `offset` of them and
/// takes up to `limit` of the rest.
pub fn paginate(hits: &Vec<Hit>, offset: usize, limit: usize) -> (shown: Vec<Hit>)
    ensures
        shown@ == page(hits@, offset as int, limit as int),
        shown@.len() == page_len(hits@.len() as int, offset as int, limit as int),
{
    let len = hits.len();
    let start = if offset < len {
        offset
    } else {
        len
    };
    let end = if limit < len - start {
        start + limit
    } else {
        len
    };
    let mut shown: Vec<Hit> = Vec::new();
    let mut i: usize = start;
    while i < end
        invariant
            start <= i <= end <= hits.len(),
            shown@ == hits@.subrange(start as int, i as int),
        decreases end - i,
    {
        shown.push(hits[i]);
        proof {
            assert(hits@.subrange(start as int, i as int + 1) =~= hits@.subrange(
                start as int,
                i as int,
            ).push(hits@[i as int]));
        }
        i = i + 1;
    }
    shown
}

} // verus!
