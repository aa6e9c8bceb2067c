//! List-selection arithmetic shared by the dialogs: wrapping movement (the
//! export and skills dialogs) and clamped movement (the `/kg` screen and
//! Mission Control).

use vstd::prelude::*;

verus! {

/// Index moved by `delta` among `count` rows, wrapping at both ends, from
/// `cur` clamped into range first.
pub open spec fn wrap_step(cur: int, delta: int, count: int) -> int
    recommends
        count > 0,
{
    let c = if cur < count - 1 {
        cur
    } else {
        count - 1
    };
    (c + delta) % count
}

/// Index moved by `delta` among `count` rows, stopping at both ends, from
/// `cur` clamped into range first.
pub open spec fn clamp_step(cur: int, delta: int, count: int) -> int
    recommends
        count > 0,
{
    let c = if cur < count - 1 {
        cur
    } else {
        count - 1
    };
    let n = c + delta;
    if n < 0 {
        0
    } else if n > count - 1 {
        count - 1
    } else {
        n
    }
}

/// Wrapping move by one row; `0` when the list is empty.
pub fn wrapped_move(cur: usize, delta: i32, count: usize) -> (r: usize)
    requires
        delta == 1 || delta == -1,
        count <= i32::MAX,
    ensures
        count == 0 ==> r == 0,
        count > 0 ==> r as int == wrap_step(cur as int, delta as int, count as int),
        count > 0 ==> r < count,
{
    if count == 0 {
        return 0;
    }
    let count_i = count as i64;
    let cur_i: i64 = if cur < count - 1 { cur as i64 } else { (count - 1) as i64 };
    let moved = cur_i + delta as i64;
    let next = if moved < 0 {
        count_i - 1
    } else if moved >= count_i {
        0
    } else {
        moved
    };
    assert(next == moved % count_i) by {
        if moved < 0 {
            assert(moved == -1);
            assert((count_i - 1) + (-1) * count_i == -1);
            vstd::arithmetic::div_mod::lemma_fundamental_div_mod_converse(
                moved as int,
                count_i as int,
                -1,
                count_i - 1,
            );
        } else if moved >= count_i {
            assert(moved == count_i);
            vstd::arithmetic::div_mod::lemma_fundamental_div_mod_converse(
                moved as int,
                count_i as int,
                1,
                0,
            );
        } else {
            vstd::arithmetic::div_mod::lemma_small_mod(moved as nat, count_i as nat);
        }
    }
    next as usize
}

/// Clamped move by one row; `0` when the list is empty.
pub fn clamped_move(cur: usize, delta: i32, count: usize) -> (r: usize)
    requires
        delta == 1 || delta == -1,
        count <= i32::MAX,
    ensures
        count == 0 ==> r == 0,
        count > 0 ==> r as int == clamp_step(cur as int, delta as int, count as int),
        count > 0 ==> r < count,
{
    if count == 0 {
        return 0;
    }
    let max_idx = count - 1;
    let cur_i: i32 = if cur < max_idx { cur as i32 } else { max_idx as i32 };
    let n = cur_i + delta;
    if n < 0 {
        0
    } else if n > max_idx as i32 {
        max_idx
    } else {
        n as usize
    }
}

/// Position after `n` wrapping steps down from `cur`.
pub open spec fn wrap_steps(cur: int, n: nat, count: int) -> int
    decreases n,
{
    if n == 0 {
        cur
    } else {
        wrap_step(wrap_steps(cur, (n - 1) as nat, count), 1, count)
    }
}

/// A wrapping move by one row always lands on a row of the list.
pub proof fn law_wrap_step_in_range(cur: int, delta: int, count: int)
    requires
        count > 0,
        cur >= 0,
        delta == 1 || delta == -1,
    ensures
        0 <= wrap_step(cur, delta, count) < count,
{
}

/// Moving down then up (or up then down) with wrapping returns to the row
/// the selection started on.
pub proof fn law_wrap_down_up_returns(cur: int, count: int)
    requires
        0 <= cur < count,
    ensures
        wrap_step(wrap_step(cur, 1, count), -1, count) == cur,
        wrap_step(wrap_step(cur, -1, count), 1, count) == cur,
{
    assert((-1int) % count == count - 1) by {
        vstd::arithmetic::div_mod::lemma_fundamental_div_mod_converse(-1, count, -1, count - 1);
    }
    vstd::arithmetic::div_mod::lemma_small_mod(cur as nat, count as nat);
    if cur + 1 == count {
        vstd::arithmetic::div_mod::lemma_mod_self_0(count);
        assert(wrap_step(cur, 1, count) == 0);
    } else {
        vstd::arithmetic::div_mod::lemma_small_mod((cur + 1) as nat, count as nat);
        assert(wrap_step(cur, 1, count) == cur + 1);
    }
    if cur == 0 {
        assert(wrap_step(cur, -1, count) == count - 1);
        vstd::arithmetic::div_mod::lemma_mod_self_0(count);
    } else {
        vstd::arithmetic::div_mod::lemma_small_mod((cur - 1) as nat, count as nat);
        assert(wrap_step(cur, -1, count) == cur - 1);
    }
}

/// `n` wrapping steps down from a row land `n` rows further, modulo the
/// row count.
pub proof fn lemma_wrap_steps(cur: int, n: nat, count: int)
    requires
        0 <= cur < count,
    ensures
        wrap_steps(cur, n, count) == (cur + n) % count,
    decreases n,
{
    if n == 0 {
        vstd::arithmetic::div_mod::lemma_small_mod(cur as nat, count as nat);
    } else {
        lemma_wrap_steps(cur, (n - 1) as nat, count);
        let p = (cur + n - 1) % count;
        vstd::arithmetic::div_mod::lemma_mod_bound(cur + n - 1, count);
        vstd::arithmetic::div_mod::lemma_add_mod_noop(cur + n - 1, 1, count);
        if count == 1 {
            vstd::arithmetic::div_mod::lemma_mod_bound(p + 1, 1);
            vstd::arithmetic::div_mod::lemma_mod_bound(cur + n, 1);
        } else {
            vstd::arithmetic::div_mod::lemma_small_mod(1, count as nat);
        }
    }
}

/// Stepping down through all `count` rows with wrapping comes back to the
/// starting row.
pub proof fn law_wrap_full_cycle(cur: int, count: int)
    requires
        0 <= cur < count,
    ensures
        wrap_steps(cur, count as nat, count) == cur,
{
    lemma_wrap_steps(cur, count as nat, count);
    vstd::arithmetic::div_mod::lemma_add_mod_noop(cur, count, count);
    vstd::arithmetic::div_mod::lemma_mod_self_0(count);
    vstd::arithmetic::div_mod::lemma_small_mod(cur as nat, count as nat);
}

/// A clamped move stays on a row of the list and stops at both ends.
pub proof fn law_clamp_step_bounds(cur: int, delta: int, count: int)
    requires
        count > 0,
        cur >= 0,
        delta == 1 || delta == -1,
    ensures
        0 <= clamp_step(cur, delta, count) < count,
        clamp_step(count - 1, 1, count) == count - 1,
        clamp_step(0, -1, count) == 0,
{
}

} // verus!
