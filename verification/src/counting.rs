//! Window-count arithmetic for the triangular enumeration: how many
//! windows each width contributes, the running totals over the widths,
//! and the closed forms of those totals.

use vstd::arithmetic::div_mod::lemma_div_multiples_vanish;
use vstd::prelude::*;

verus! {

/// Number of windows of width `w` over a source of `n` elements: the
/// window's start ranges over `0 ..= n - w`.
pub open spec fn row_len(n: nat, w: nat) -> nat
    recommends
        1 <= w <= n,
{
    (n - w + 1) as nat
}

/// Number of windows of width at most `w` over a source of `n`
/// elements: the sum, for each width in `1 ..= w`, of `row_len`.
pub open spec fn windows_through(n: nat, w: nat) -> nat
    recommends
        w <= n,
    decreases w,
{
    if w == 0 {
        0
    } else {
        windows_through(n, (w - 1) as nat) + row_len(n, w)
    }
}

/// The running totals grow with the width bound.
pub proof fn lemma_windows_through_mono(n: nat, w1: nat, w2: nat)
    requires
        w1 <= w2 <= n,
    ensures
        windows_through(n, w1) <= windows_through(n, w2),
    decreases w2,
{
    if w1 < w2 {
        lemma_windows_through_mono(n, w1, (w2 - 1) as nat);
    }
}

/// Twice the running total, which avoids the halved product:
/// `2 * windows_through(n, w) == 2*n*w - w*(w - 1)`.
proof fn lemma_windows_through_double(n: nat, w: nat)
    requires
        w <= n,
    ensures
        2 * windows_through(n, w) == 2 * n * w - w * (w - 1),
    decreases w,
{
    if w > 0 {
        let v = (w - 1) as nat;
        lemma_windows_through_double(n, v);
        assert(2 * n * v - v * (v - 1) + 2 * (n - w + 1) == 2 * n * w - w * (w - 1))
            by (nonlinear_arith)
            requires
                v == w - 1,
                1 <= w <= n,
        ;
    } else {
        assert(2 * n * w - w * (w - 1) == 0) by (nonlinear_arith)
            requires
                w == 0,
        ;
    }
}

/// Closed form of the running total: the first `w` rows hold
/// `n*w - w*(w - 1)/2` windows in all.
pub proof fn lemma_windows_through_closed_form(n: nat, w: nat)
    requires
        w <= n,
    ensures
        windows_through(n, w) == n * w - w * (w - 1) / 2,
{
    lemma_windows_through_double(n, w);
    let t = windows_through(n, w) as int;
    assert(w * (w - 1) == 2 * (n * w - t)) by (nonlinear_arith)
        requires
            2 * t == 2 * n * w - w * (w - 1),
    ;
    lemma_div_multiples_vanish(n * w - t, 2);
    assert(w * (w - 1) / 2 == n * w - t);
}

/// Unbounded total: all `n` rows together hold `n*(n + 1)/2` windows.
pub proof fn lemma_windows_through_full(n: nat)
    ensures
        windows_through(n, n) == n * (n + 1) / 2,
{
    lemma_windows_through_double(n, n);
    let t = windows_through(n, n) as int;
    assert(n * (n + 1) == 2 * t) by (nonlinear_arith)
        requires
            2 * t == 2 * n * n - n * (n - 1),
    ;
    lemma_div_multiples_vanish(t, 2);
}

} // verus!
