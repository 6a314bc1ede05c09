//! Cursors that walk a circular buffer: one step at a time, wrapping to the
//! start after the last cell.

use vstd::prelude::*;
use vstd::arithmetic::div_mod::lemma_add_mod_noop_right;
use vstd::arithmetic::div_mod::lemma_fundamental_div_mod;
use vstd::arithmetic::div_mod::lemma_fundamental_div_mod_converse;
use vstd::arithmetic::div_mod::lemma_mod_bound;
use vstd::arithmetic::div_mod::lemma_small_mod;

verus! {

/// The cell that a count of steps lands on in a buffer of `length` cells.
/// The count may be negative: one step back from cell 0 is the last cell.
pub open spec fn wrap(count: int, length: nat) -> nat {
    (count % (length as int)) as nat
}

/// The cursor one step on from `cursor`.
pub open spec fn next_cursor(cursor: nat, length: nat) -> nat {
    wrap(cursor as int + 1, length)
}

/// The cursor reached from `start` by taking `advances` steps one by one.
pub open spec fn cursor_after(start: nat, advances: nat, length: nat) -> nat
    decreases advances,
{
    if advances == 0 {
        start
    } else {
        next_cursor(cursor_after(start, (advances - 1) as nat, length), length)
    }
}

/// Moves a cursor one cell on, back to cell 0 after the last one.
pub fn advance(cursor: usize, length: usize) -> (next: usize)
    requires
        cursor < length,
    ensures
        next == next_cursor(cursor as nat, length as nat),
        next < length,
        next == if cursor + 1 == length { 0 } else { cursor + 1 },
{
    proof {
        lemma_step_wraps(cursor as int, length as nat);
        lemma_small_mod(cursor as nat, length as nat);
    }
    (cursor + 1) % length
}

/// A wrapped count always names a cell of the buffer, and a count that is
/// already a cell stays as it is.
pub proof fn lemma_wrap_in_range(count: int, length: nat)
    requires
        length > 0,
    ensures
        wrap(count, length) < length,
        0 <= count < length ==> wrap(count, length) == count,
{
    lemma_mod_bound(count, length as int);
    if 0 <= count < length {
        lemma_small_mod(count as nat, length);
    }
}

/// No index is skipped: one more step moves the wrapped count to the next
/// cell, and from the last cell to cell 0.
pub proof fn lemma_step_wraps(count: int, length: nat)
    requires
        length > 0,
    ensures
        wrap(count + 1, length) == if wrap(count, length) + 1 == length {
            0
        } else {
            wrap(count, length) + 1
        },
{
    let d: int = length as int;
    let q: int = count / d;
    let r: int = count % d;
    lemma_fundamental_div_mod(count, d);
    lemma_mod_bound(count, d);
    if r + 1 == d {
        assert(count + 1 == (q + 1) * d + 0) by (nonlinear_arith)
            requires
                count == d * q + r,
                r + 1 == d,
        ;
        lemma_fundamental_div_mod_converse(count + 1, d, q + 1, 0);
    } else {
        assert(count + 1 == q * d + (r + 1)) by (nonlinear_arith)
            requires
                count == d * q + r,
        ;
        lemma_fundamental_div_mod_converse(count + 1, d, q, r + 1);
    }
}

/// Wrapping may be done early or late: a count taken from a wrapped start
/// lands on the same cell as the count taken from the unwrapped one.
pub proof fn lemma_wrap_add(start: int, count: int, length: nat)
    requires
        length > 0,
    ensures
        wrap(wrap(start, length) + count, length) == wrap(start + count, length),
{
    lemma_add_mod_noop_right(count, start, length as int);
}

/// Two counts that land on the same cell still do so when both are negated.
pub proof fn lemma_wrap_neg(count: int, length: nat)
    requires
        length > 0,
    ensures
        wrap(-count, length) == wrap(-(wrap(count, length) as int), length),
{
    let cell: int = wrap(count, length) as int;
    lemma_wrap_add(count, -count - cell, length);
}

/// Stepping back by a wrapped count lands on the same cell as stepping back
/// by the count itself.
pub proof fn lemma_wrap_sub(start: int, count: int, length: nat)
    requires
        length > 0,
    ensures
        wrap(start - wrap(count, length), length) == wrap(start - count, length),
{
    let cell: int = wrap(count, length) as int;
    lemma_wrap_neg(count, length);
    lemma_wrap_add(-cell, start, length);
    lemma_wrap_add(-count, start, length);
}

/// The cursor after `advances` steps from `start` is `(start + advances) mod
/// length`. From cell 0 that is `advances mod length`.
pub proof fn lemma_cursor_wraps(start: nat, advances: nat, length: nat)
    requires
        start < length,
    ensures
        cursor_after(start, advances, length) == (start + advances) % length,
        cursor_after(start, advances, length) < length,
        start == 0 ==> cursor_after(start, advances, length) == advances % length,
    decreases advances,
{
    if advances == 0 {
        lemma_small_mod(start, length);
    } else {
        let before: int = start + advances - 1;
        lemma_cursor_wraps(start, (advances - 1) as nat, length);
        lemma_wrap_add(before, 1, length);
    }
    lemma_mod_bound((start + advances) as int, length as int);
}

/// No index is repeated: two different counts less than one buffer length
/// apart land on different cells.
pub proof fn lemma_no_index_repeated(first: int, second: int, length: nat)
    requires
        length > 0,
        first < second < first + length,
    ensures
        wrap(first, length) != wrap(second, length),
{
    let d: int = length as int;
    lemma_fundamental_div_mod(first, d);
    lemma_fundamental_div_mod(second, d);
    if first % d == second % d {
        let k: int = second / d - first / d;
        assert(second - first == d * k) by (nonlinear_arith)
            requires
                first == d * (first / d) + first % d,
                second == d * (second / d) + second % d,
                first % d == second % d,
                k == second / d - first / d,
        ;
        // a multiple of the length cannot lie strictly between 0 and the length
        assert(k <= 0 ==> d * k <= 0) by (nonlinear_arith)
            requires
                d > 0,
        ;
        assert(k >= 1 ==> d * k >= d) by (nonlinear_arith)
            requires
                d > 0,
        ;
    }
}

/// Every cell is visited: within any `length` consecutive counts there is
/// one that lands on a given cell.
pub proof fn lemma_every_index_visited(first: int, cell: nat, length: nat) -> (count: int)
    requires
        cell < length,
    ensures
        first <= count < first + length,
        wrap(count, length) == cell,
{
    let d: int = length as int;
    let gap: int = (cell - first) % d;
    lemma_mod_bound(cell - first, d);
    lemma_add_mod_noop_right(first, cell - first, d);
    lemma_small_mod(cell, length);
    first + gap
}

} // verus!
