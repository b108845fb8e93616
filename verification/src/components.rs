//! Moving a selection through a list that wraps around at both ends.

use vstd::prelude::*;

verus! {

/// The place behind the selected one, or the first where nothing is
/// selected or the selected place is the last or beyond it.
pub open spec fn place_behind(selected: Option<usize>, len: usize) -> usize {
    match selected {
        Some(i) => if i >= len - 1 {
            0
        } else {
            (i + 1) as usize
        },
        None => 0,
    }
}

/// The place before the selected one, or the last where the selected place
/// is the first; the first where nothing is selected.
pub open spec fn place_before(selected: Option<usize>, len: usize) -> usize {
    match selected {
        Some(i) => if i == 0 {
            (len - 1) as usize
        } else {
            (i - 1) as usize
        },
        None => 0,
    }
}

/// The selection after a step forward through a list of `len` items. An
/// empty list has no selection.
pub fn select_next(selected: Option<usize>, len: usize) -> (next: Option<usize>)
    ensures
        len == 0 ==> next is None,
        len > 0 ==> next == Some(place_behind(selected, len)),
{
    if len == 0 {
        return None;
    }
    let i = match selected {
        Some(i) => if i >= len - 1 {
            0
        } else {
            i + 1
        },
        None => 0,
    };
    Some(i)
}

/// The selection after a step backward through a list of `len` items. An
/// empty list has no selection.
pub fn select_prev(selected: Option<usize>, len: usize) -> (prev: Option<usize>)
    ensures
        len == 0 ==> prev is None,
        len > 0 ==> prev == Some(place_before(selected, len)),
{
    if len == 0 {
        return None;
    }
    let i = match selected {
        Some(i) => if i == 0 {
            len - 1
        } else {
            i - 1
        },
        None => 0,
    };
    Some(i)
}

/// A step forward from a place within the list lands within the list.
pub proof fn lemma_selection_stays_within(selected: Option<usize>, len: usize)
    requires
        len > 0,
    ensures
        place_behind(selected, len) < len,
        selected is Some && selected->Some_0 < len ==> place_before(selected, len) < len,
        selected is None ==> place_before(selected, len) < len,
{
}

} // verus!
