//! Cyclic selection in a list: the next and previous keys of every view
//! that shows a list step through it and wrap at both ends.
use vstd::prelude::*;

verus! {

/// The selection after a move by one item, forward or back, in a list of
/// `n` items, wrapping at both ends; nothing moves when the list is empty.
pub open spec fn step_selection(sel: usize, n: nat, forward: bool) -> int {
    if n == 0 {
        sel as int
    } else if forward {
        (sel + 1) % (n as int)
    } else if sel == 0 {
        n - 1
    } else {
        sel - 1
    }
}

/// The next item's index, wrapping to the first.
pub fn next_index(sel: usize, n: usize) -> (r: usize)
    requires
        n > 0 ==> sel < usize::MAX,
    ensures
        r == step_selection(sel, n as nat, true),
{
    if n == 0 {
        sel
    } else {
        (sel + 1) % n
    }
}

/// The previous item's index, wrapping to the last.
pub fn prev_index(sel: usize, n: usize) -> (r: usize)
    ensures
        r == step_selection(sel, n as nat, false),
{
    if n == 0 {
        sel
    } else if sel == 0 {
        n - 1
    } else {
        sel - 1
    }
}

/// In a non-empty list, a selection on an item stays on an item under
/// either move, and each move undoes the other.
pub proof fn steps_stay_in_range_and_undo(sel: usize, n: nat)
    requires
        sel < n <= usize::MAX,
    ensures
        0 <= step_selection(sel, n, true) < n,
        0 <= step_selection(sel, n, false) < n,
        step_selection(step_selection(sel, n, true) as usize, n, false) == sel,
        step_selection(step_selection(sel, n, false) as usize, n, true) == sel,
{
    if sel + 1 < n {
        assert((sel + 1) % (n as int) == sel + 1) by (nonlinear_arith)
            requires
                sel + 1 < n,
                sel >= 0,
        ;
    } else {
        assert((sel + 1) % (n as int) == 0) by (nonlinear_arith)
            requires
                sel + 1 == n,
        ;
    }
    let k = step_selection(sel, n, true);
    assert(k as usize == k);
    if sel == 0 {
        let j: usize = (n - 1) as usize;
        assert(step_selection(sel, n, false) == j);
        assert((j + 1) % (n as int) == 0) by (nonlinear_arith)
            requires
                n >= 1,
                j + 1 == n,
        ;
    } else {
        let j: usize = (sel - 1) as usize;
        assert(step_selection(sel, n, false) == j);
        assert((j + 1) % (n as int) == sel) by (nonlinear_arith)
            requires
                1 <= sel < n,
                j + 1 == sel,
        ;
    }
}

} // verus!
