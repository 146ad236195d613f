//! How capacity evolves as elements are pushed, and what a run of pushes
//! leaves behind.

use vstd::arithmetic::power2::{is_pow2, lemma2_to64, lemma_pow2_unfold, pow2};
use crate::layout::lemma_pow2_divides;
use vstd::prelude::*;

verus! {

/// Capacity after growing a block of capacity `cap`.
pub open spec fn next_cap(cap: nat) -> nat {
    if cap == 0 {
        1
    } else {
        2 * cap
    }
}

/// Capacity after one push onto a vector of length `len` and capacity `cap`:
/// the block grows exactly when it is full.
pub open spec fn cap_after_push(cap: nat, len: nat) -> nat {
    if len == cap {
        next_cap(cap)
    } else {
        cap
    }
}

/// Elements and capacity after one push of `v` onto the state `s`.
pub open spec fn push_step<T>(s: (Seq<T>, nat), v: T) -> (Seq<T>, nat) {
    (s.0.push(v), cap_after_push(s.1, s.0.len()))
}

/// Elements and capacity of a new vector after pushing `vs` in order.
pub open spec fn pushed<T>(vs: Seq<T>) -> (Seq<T>, nat)
    decreases vs.len(),
{
    if vs.len() == 0 {
        (Seq::empty(), 0)
    } else {
        push_step(pushed(vs.drop_last()), vs.last())
    }
}

/// Capacity of a new vector after `n` pushes.
pub open spec fn cap_after_pushes(n: nat) -> nat
    decreases n,
{
    if n == 0 {
        0
    } else {
        cap_after_push(cap_after_pushes((n - 1) as nat), (n - 1) as nat)
    }
}

/// Pushing values one by one onto a new vector leaves exactly those values,
/// in the order they were pushed, and a capacity that depends only on how
/// many there were.
pub proof fn lemma_pushed_in_order<T>(vs: Seq<T>)
    ensures
        pushed(vs).0 == vs,
        pushed(vs).1 == cap_after_pushes(vs.len()),
    decreases vs.len(),
{
    if vs.len() > 0 {
        lemma_pushed_in_order(vs.drop_last());
        assert(vs.drop_last().push(vs.last()) =~= vs);
    }
}

/// After `n >= 1` pushes onto a new vector, the capacity is the smallest
/// power of two that is at least `n`.
pub proof fn lemma_cap_after_pushes(n: nat)
    requires
        n >= 1,
    ensures
        is_pow2(cap_after_pushes(n) as int),
        n <= cap_after_pushes(n) < 2 * n,
    decreases n,
{
    reveal(is_pow2);
    if n == 1 {
        assert(cap_after_pushes(1) == 1) by {
            reveal_with_fuel(cap_after_pushes, 2);
        }
    } else {
        lemma_cap_after_pushes((n - 1) as nat);
        let c = cap_after_pushes((n - 1) as nat);
        if c == n - 1 {
            assert((2 * c) as int / 2 == c as int);
        }
    }
}

/// Starting from a new vector, the push made at length `m` grows the block
/// exactly when `m` is zero or a power of two: the pushes numbered 1, 2, 3,
/// 5, 9, 17, and so on.
pub proof fn lemma_grows_exactly_at(m: nat)
    ensures
        (cap_after_pushes(m) == m) <==> (m == 0 || is_pow2(m as int)),
{
    if m >= 1 {
        lemma_cap_after_pushes(m);
        let c = cap_after_pushes(m);
        if is_pow2(m as int) && c != m {
            lemma_pow2_divides(m as int, c as int);
            let q = c as int / m as int;
            vstd::arithmetic::div_mod::lemma_fundamental_div_mod(c as int, m as int);
            assert(c == m * q);
            assert(q >= 2) by (nonlinear_arith)
                requires
                    c == m * q,
                    c > m,
                    m >= 1,
            ;
            assert(c >= 2 * m) by (nonlinear_arith)
                requires
                    c == m * q,
                    q >= 2,
                    m >= 1,
            ;
        }
    }
}

proof fn lemma_cap_between(k: nat, m: nat)
    requires
        cap_after_pushes(pow2(k)) == pow2(k),
        pow2(k) < m <= pow2(k + 1),
    ensures
        cap_after_pushes(m) == pow2(k + 1),
    decreases m,
{
    lemma_pow2_unfold(k + 1);
    if m > pow2(k) + 1 {
        lemma_cap_between(k, (m - 1) as nat);
    }
}

/// Starting from a new vector, the push that brings the length from `2^k`
/// to `2^k + 1` is the one that grows the block, from `2^k` slots to
/// `2^(k+1)`.
pub proof fn lemma_grows_at_powers(k: nat)
    ensures
        cap_after_pushes(pow2(k)) == pow2(k),
        cap_after_pushes(pow2(k) + 1) == pow2(k + 1),
    decreases k,
{
    lemma2_to64();
    lemma_pow2_unfold(k + 1);
    if k == 0 {
        assert(cap_after_pushes(1) == 1) by {
            reveal_with_fuel(cap_after_pushes, 2);
        }
    } else {
        lemma_grows_at_powers((k - 1) as nat);
        lemma_pow2_unfold(k);
        lemma_cap_between((k - 1) as nat, pow2(k));
    }
}

} // verus!
