//! Deterministic offset/limit windowing over a materialized result list.
//!
//! Pagination is a pure windowing function: for any `(offset, limit)` pair
//! the page equals the corresponding slice of the full list, and an offset
//! past the end or a zero limit yields an empty page, never an error.

use vstd::prelude::*;

verus! {

/// The window that `paginate` cuts out of a list of the given length.
pub open spec fn spec_window(len: int, offset: int, limit: int) -> (int, int) {
    if offset >= len || limit == 0 {
        (0, 0)
    } else {
        (offset, if offset + limit <= len { offset + limit } else { len })
    }
}

/// Returns the `[offset, offset + limit)` window of `values`, clipped to the
/// list. An offset at or past the end, or a zero limit, yields an empty list.
pub fn paginate<T>(values: Vec<T>, offset: usize, limit: usize) -> (r: Vec<T>)
    ensures
        r@ == values@.subrange(
            spec_window(values@.len() as int, offset as int, limit as int).0,
            spec_window(values@.len() as int, offset as int, limit as int).1,
        ),
        r@.len() <= limit,
{
    let ghost orig = values@;
    let mut values = values;
    if offset >= values.len() || limit == 0 {
        proof {
            assert(orig.subrange(0, 0) =~= Seq::<T>::empty());
        }
        return Vec::new();
    }
    let mut tail = values.split_off(offset);
    tail.truncate(limit);
    tail
}

/// Whether a further page exists after the window at `offset` of size
/// `limit`, out of `total` records.
pub fn has_more(offset: usize, limit: usize, total: usize) -> (r: bool)
    ensures
        r == (limit > 0 && offset + limit < total),
{
    limit > 0 && offset <= usize::MAX - limit && offset + limit < total
}

/// The offset of the previous page: one step of `max(limit, 1)` back,
/// clipped at zero.
pub fn prev_offset(offset: usize, limit: usize) -> (r: usize)
    ensures
        r == if offset >= spec_step(limit as int) {
            offset - spec_step(limit as int)
        } else {
            0
        },
{
    let step = if limit > 0 { limit } else { 1 };
    if offset >= step {
        offset - step
    } else {
        0
    }
}

/// The page step: the limit, or one when the limit is zero.
pub open spec fn spec_step(limit: int) -> int {
    if limit > 0 { limit } else { 1 }
}

/// The starting offset of the last non-empty page of `total` records under
/// the given limit. Used as a recovery pointer when a requested offset lands
/// past the end of a shrunken result set.
pub fn last_page_offset(total: usize, limit: usize) -> (r: usize)
    requires
        total > 0,
    ensures
        r == ((total - 1) as int / spec_step(limit as int)) * spec_step(limit as int),
        r < total,
    {
    let step = if limit > 0 { limit } else { 1 };
    proof {
        let t = (total - 1) as int;
        let s = step as int;
        assert((t / s) * s <= t) by (nonlinear_arith)
            requires
                s > 0 && t >= 0,
        ;
    }
    ((total - 1) / step) * step
}

} // verus!
