//! Directions on the canvas and cyclic stepping through an index range.

use vstd::prelude::*;

verus! {

#[derive(Clone, Copy, Debug, PartialEq, Eq, Structural)]
pub enum Direction {
    Up,
    Down,
    Left,
    Right,
}

/// The successor of `n` in the cycle `min, min + 1, .., max - 1`.
pub open spec fn rotate_forward_spec(min: int, max: int, n: int) -> int {
    if n + 1 == max {
        min
    } else {
        n + 1
    }
}

/// The predecessor of `n` in the cycle `min, min + 1, .., max - 1`.
pub open spec fn rotate_backward_spec(min: int, max: int, n: int) -> int {
    if n == min {
        max - 1
    } else {
        n - 1
    }
}

/// Steps `n` forward by one, wrapping from `max - 1` back to `min`.
pub fn rotate_forward(min: usize, max: usize, n: usize) -> (next: usize)
    requires
        n < usize::MAX,
    ensures
        next == rotate_forward_spec(min as int, max as int, n as int),
{
    if n + 1 == max {
        min
    } else {
        n + 1
    }
}

/// Steps `n` backward by one, wrapping from `min` to `max - 1`.
pub fn rotate_backward(min: usize, max: usize, n: usize) -> (previous: usize)
    requires
        n == min ==> max > 0,
        n != min ==> n > 0,
    ensures
        previous == rotate_backward_spec(min as int, max as int, n as int),
{
    (if n == min {
        max
    } else {
        n
    }) - 1
}

/// `n` after `times` steps forward in the cycle `min, .., max - 1`.
pub open spec fn rotate_forward_times(min: int, max: int, n: int, times: nat) -> int
    decreases times,
{
    if times == 0 {
        n
    } else {
        rotate_forward_spec(min, max, rotate_forward_times(min, max, n, (times - 1) as nat))
    }
}

/// `n` after `times` steps backward in the cycle `min, .., max - 1`.
pub open spec fn rotate_backward_times(min: int, max: int, n: int, times: nat) -> int
    decreases times,
{
    if times == 0 {
        n
    } else {
        rotate_backward_spec(min, max, rotate_backward_times(min, max, n, (times - 1) as nat))
    }
}

/// Steps forward add up, and wrap once at most within one round.
pub proof fn lemma_rotate_forward_times(min: int, max: int, n: int, times: nat)
    requires
        min <= n < max,
        times <= max - min,
    ensures
        rotate_forward_times(min, max, n, times) == if n + times < max {
            n + times
        } else {
            n + times - (max - min)
        },
    decreases times,
{
    if times > 0 {
        lemma_rotate_forward_times(min, max, n, (times - 1) as nat);
    }
}

/// Steps backward add up, and wrap once at most within one round.
pub proof fn lemma_rotate_backward_times(min: int, max: int, n: int, times: nat)
    requires
        min <= n < max,
        times <= max - min,
    ensures
        rotate_backward_times(min, max, n, times) == if n - times >= min {
            n - times
        } else {
            n - times + (max - min)
        },
    decreases times,
{
    if times > 0 {
        lemma_rotate_backward_times(min, max, n, (times - 1) as nat);
    }
}

/// As many steps forward as the cycle is long lead back to the start.
pub proof fn lemma_rotate_forward_cycle(min: int, max: int, n: int)
    requires
        min <= n < max,
    ensures
        rotate_forward_times(min, max, n, (max - min) as nat) == n,
{
    lemma_rotate_forward_times(min, max, n, (max - min) as nat);
}

/// As many steps backward as the cycle is long lead back to the start.
pub proof fn lemma_rotate_backward_cycle(min: int, max: int, n: int)
    requires
        min <= n < max,
    ensures
        rotate_backward_times(min, max, n, (max - min) as nat) == n,
{
    lemma_rotate_backward_times(min, max, n, (max - min) as nat);
}

} // verus!
