//! Selection manager: keeps a positional cursor into the current view
//! valid as the view is rebuilt, and moves it circularly.
//!
//! Selection is by positional index, not by process identity: after a
//! refresh reorders the list, the cursor can land on a different process.

use vstd::prelude::*;

verus! {

/// What `reconcile` returns: no selection exactly on an empty list,
/// otherwise a clamped in-bounds index (a missing prior selection is
/// treated as the first row).
pub open spec fn reconcile_spec(sel: Option<usize>, new_len: usize) -> Option<usize> {
    if new_len == 0 {
        None
    } else {
        match sel {
            None => Some(0usize),
            Some(i) => if i >= new_len {
                Some((new_len - 1) as usize)
            } else {
                Some(i)
            },
        }
    }
}

/// Where the cursor stands after one step down: circular, so the step
/// from the last row lands on the first; a missing selection lands on
/// the first row; an empty list leaves the selection alone.
pub open spec fn next_spec(sel: Option<usize>, len: usize) -> Option<usize> {
    if len == 0 {
        sel
    } else {
        match sel {
            None => Some(0usize),
            Some(i) => if i >= len - 1 {
                Some(0usize)
            } else {
                Some((i + 1) as usize)
            },
        }
    }
}

/// Where the cursor stands after one step up: circular, so the step
/// from the first row lands on the last; a missing selection lands on
/// the first row; an empty list leaves the selection alone.
pub open spec fn previous_spec(sel: Option<usize>, len: usize) -> Option<usize> {
    if len == 0 {
        sel
    } else {
        match sel {
            None => Some(0usize),
            Some(i) => if i == 0 {
                Some((len - 1) as usize)
            } else {
                Some((i - 1) as usize)
            },
        }
    }
}

/// Re-validate a positional selection after the view was rebuilt to
/// `new_len` rows: clear it when the list is empty, clamp it to the last
/// row when it fell out of bounds, keep it otherwise.
pub fn reconcile(sel: Option<usize>, new_len: usize) -> (r: Option<usize>)
    ensures
        r == reconcile_spec(sel, new_len),
        r is None <==> new_len == 0,
        r is Some ==> r->0 < new_len,
{
    if new_len == 0 {
        None
    } else {
        match sel {
            None => Some(0),
            Some(i) => if i >= new_len {
                Some(new_len - 1)
            } else {
                Some(i)
            },
        }
    }
}

} // verus!
