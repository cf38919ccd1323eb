//! The selection cursor of a listing: an index into the visible rows, unset
//! when nothing is visible.
use vstd::prelude::*;

verus! {

/// `c` is a valid cursor over `n` visible rows.
pub open spec fn cursor_ok(c: Option<usize>, n: nat) -> bool {
    match c {
        Some(i) => i < n,
        None => true,
    }
}

/// The cursor `c` re-clamped to `n` visible rows: unset when there are none,
/// else its index (0 when unset) capped at the last row.
pub open spec fn clamped(c: Option<usize>, n: nat) -> Option<usize> {
    if n == 0 {
        None
    } else {
        match c {
            Some(i) => if i < n { Some(i) } else { Some((n - 1) as usize) },
            None => Some(0),
        }
    }
}

/// The cursor `c` moved by `delta` over `n` visible rows: unchanged when there
/// are none, else its index (0 when unset) plus `delta`, kept within the rows.
pub open spec fn moved(c: Option<usize>, delta: int, n: nat) -> Option<usize> {
    if n == 0 {
        c
    } else {
        let from = match c {
            Some(i) => i as int,
            None => 0,
        };
        let to = from + delta;
        if to < 0 {
            Some(0)
        } else if to >= n {
            Some((n - 1) as usize)
        } else {
            Some(to as usize)
        }
    }
}

/// The cursor after the moves `deltas`, in order.
pub open spec fn moved_by_all(c: Option<usize>, deltas: Seq<int>, n: nat) -> Option<usize>
    decreases deltas.len(),
{
    if deltas.len() == 0 {
        c
    } else {
        moved(moved_by_all(c, deltas.drop_last(), n), deltas.last(), n)
    }
}

/// Re-clamps the cursor `c` after its listing changed to `len` visible rows.
pub fn clamp_selection(c: Option<usize>, len: usize) -> (r: Option<usize>)
    ensures
        r == clamped(c, len as nat),
        cursor_ok(r, len as nat),
{
    if len == 0 {
        None
    } else {
        let idx = match c {
            Some(i) => i,
            None => 0,
        };
        if idx < len {
            Some(idx)
        } else {
            Some(len - 1)
        }
    }
}

/// Moves the cursor `c` by `delta` over `len` visible rows.
pub fn move_cursor(c: Option<usize>, delta: i32, len: usize) -> (r: Option<usize>)
    requires
        cursor_ok(c, len as nat),
    ensures
        r == moved(c, delta as int, len as nat),
        cursor_ok(r, len as nat),
{
    if len == 0 {
        return c;
    }
    let from: usize = match c {
        Some(i) => i,
        None => 0,
    };
    if delta < 0 {
        let back: u64 = (0i64 - delta as i64) as u64;
        if back as u128 > from as u128 {
            Some(0)
        } else {
            Some(from - back as usize)
        }
    } else {
        let ahead: u64 = delta as u64;
        let room: usize = len - 1 - from;
        if ahead as u128 >= room as u128 {
            Some(len - 1)
        } else {
            Some(from + ahead as usize)
        }
    }
}

/// Whatever moves are made over `n` rows, a valid cursor stays valid: within
/// the rows, and set after any move once there are rows; with no rows it stays
/// unset.
pub proof fn lemma_moves_stay_in_range(c: Option<usize>, deltas: Seq<int>, n: nat)
    requires
        cursor_ok(c, n),
        n == 0 ==> c is None,
    ensures
        cursor_ok(moved_by_all(c, deltas, n), n),
        n == 0 ==> moved_by_all(c, deltas, n) is None,
        n > 0 && deltas.len() > 0 ==> moved_by_all(c, deltas, n) is Some,
    decreases deltas.len(),
{
    if deltas.len() > 0 {
        lemma_moves_stay_in_range(c, deltas.drop_last(), n);
    }
}

/// Replacing a listing by a shorter one moves a cursor that stood at or beyond
/// the new length to the new last row, and leaves one within it in place.
pub proof fn lemma_clamp_to_shorter(c: Option<usize>, n: nat)
    requires
        n > 0,
    ensures
        c matches Some(i) && i >= n ==> clamped(c, n) == Some((n - 1) as usize),
        c matches Some(i) && i < n ==> clamped(c, n) == c,
        cursor_ok(clamped(c, n), n),
{
}

} // verus!
