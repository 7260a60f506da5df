//! Exact element arithmetic, in which the three kernels return the same sum.

use vstd::prelude::*;
use crate::element::Element;
use crate::kernel::{
    accumulate, dot, dot_sequential, lane_sum, lane_sums, lemma_accumulate_split, reduce_in_order,
    reduce_pairwise, Kernel, LANES,
};
use crate::matvec::MatVecLayout;

verus! {

/// The arithmetic of `T` is exact: addition is commutative and associative
/// with zero as its identity, and the fused operation is a product followed
/// by an addition. Wrapping integers are exact; rounding numbers are not.
#[verifier::opaque]
pub open spec fn exact_arithmetic<T: Element>() -> bool {
    &&& forall|x: T, y: T| #[trigger] x.spec_plus(y) == y.spec_plus(x)
    &&& forall|x: T, y: T, z: T| #[trigger] x.spec_plus(y).spec_plus(z) == x.spec_plus(y.spec_plus(z))
    &&& forall|x: T| #[trigger] x.spec_plus(T::spec_zero()) == x
    &&& forall|acc: T, x: T, y: T| #[trigger] acc.spec_fused(x, y) == acc.spec_plus(x.spec_times(y))
}

/// Wrapping 64-bit integers are exact.
pub proof fn lemma_wrapping_integers_exact()
    ensures
        exact_arithmetic::<i64>(),
{
    reveal(exact_arithmetic);
}

proof fn lemma_commutative<T: Element>(x: T, y: T)
    requires
        exact_arithmetic::<T>(),
    ensures
        x.spec_plus(y) == y.spec_plus(x),
{
    reveal(exact_arithmetic);
}

proof fn lemma_associative<T: Element>(x: T, y: T, z: T)
    requires
        exact_arithmetic::<T>(),
    ensures
        x.spec_plus(y).spec_plus(z) == x.spec_plus(y.spec_plus(z)),
{
    reveal(exact_arithmetic);
}

proof fn lemma_zero<T: Element>(x: T)
    requires
        exact_arithmetic::<T>(),
    ensures
        x.spec_plus(T::spec_zero()) == x,
        T::spec_zero().spec_plus(x) == x,
{
    reveal(exact_arithmetic);
}

proof fn lemma_fused<T: Element>(acc: T, x: T, y: T)
    requires
        exact_arithmetic::<T>(),
    ensures
        acc.spec_fused(x, y) == acc.spec_plus(x.spec_times(y)),
{
    reveal(exact_arithmetic);
}

/// `(a + b) + (c + d) == (a + c) + (b + d)`.
proof fn lemma_interchange<T: Element>(a: T, b: T, c: T, d: T)
    requires
        exact_arithmetic::<T>(),
    ensures
        a.spec_plus(b).spec_plus(c.spec_plus(d)) == a.spec_plus(c).spec_plus(b.spec_plus(d)),
{
    // (a + b) + (c + d) = a + (b + (c + d)) = a + ((b + c) + d) = a + ((c + b) + d)
    //                   = a + (c + (b + d)) = (a + c) + (b + d)
    lemma_associative(a, b, c.spec_plus(d));
    lemma_associative(b, c, d);
    lemma_commutative(b, c);
    lemma_associative(c, b, d);
    lemma_associative(a, c, b.spec_plus(d));
}

/// Accumulating onto `init` is adding to `init` what accumulates onto zero.
proof fn lemma_accumulate_from<T: Element>(init: T, x: Seq<T>, y: Seq<T>, from: int, to: int)
    requires
        exact_arithmetic::<T>(),
    ensures
        accumulate(init, x, y, from, to) == init.spec_plus(accumulate(T::spec_zero(), x, y, from, to)),
    decreases to - from,
{
    if to <= from {
        lemma_zero(init);
    } else {
        lemma_accumulate_from(init, x, y, from, to - 1);
        lemma_associative(
            init,
            accumulate(T::spec_zero(), x, y, from, to - 1),
            x[to - 1].spec_times(y[to - 1]),
        );
    }
}

/// The in-order sum of termwise sums is the sum of the two in-order sums.
proof fn lemma_reduce_termwise<T: Element>(w: Seq<T>, u: Seq<T>, v: Seq<T>, n: int)
    requires
        exact_arithmetic::<T>(),
        forall|j: int| 0 <= j < n ==> w[j] == u[j].spec_plus(v[j]),
    ensures
        reduce_in_order(w, n) == reduce_in_order(u, n).spec_plus(reduce_in_order(v, n)),
    decreases n,
{
    if n <= 0 {
        lemma_zero(T::spec_zero());
    } else {
        lemma_reduce_termwise(w, u, v, n - 1);
        lemma_interchange(reduce_in_order(u, n - 1), reduce_in_order(v, n - 1), u[n - 1], v[n - 1]);
    }
}

/// The in-order sum of the products at `base..base + n` is what accumulates
/// onto zero over those indices.
proof fn lemma_reduce_products<T: Element>(p: Seq<T>, x: Seq<T>, y: Seq<T>, base: int, n: int)
    requires
        forall|j: int| 0 <= j < n ==> p[j] == x[base + j].spec_times(y[base + j]),
    ensures
        reduce_in_order(p, n) == accumulate(T::spec_zero(), x, y, base, base + n),
    decreases n,
{
    if n > 0 {
        lemma_reduce_products(p, x, y, base, n - 1);
    }
}

/// The in-order sum of zeros is zero.
proof fn lemma_reduce_zeros<T: Element>(l: Seq<T>, n: int)
    requires
        exact_arithmetic::<T>(),
        forall|j: int| 0 <= j < n ==> l[j] == T::spec_zero(),
    ensures
        reduce_in_order(l, n) == T::spec_zero(),
    decreases n,
{
    if n > 0 {
        lemma_reduce_zeros(l, n - 1);
        lemma_zero(T::spec_zero());
    }
}

/// After `groups` steps the eight lanes together hold the sum of the first
/// `8 * groups` products.
proof fn lemma_lanes_hold_prefix<T: Element>(x: Seq<T>, y: Seq<T>, groups: int)
    requires
        exact_arithmetic::<T>(),
        0 <= groups,
    ensures
        reduce_in_order(lane_sums(x, y, groups), LANES as int) == accumulate(
            T::spec_zero(),
            x,
            y,
            0,
            LANES * groups,
        ),
    decreases groups,
{
    let zero = T::spec_zero();
    if groups == 0 {
        lemma_reduce_zeros(lane_sums(x, y, 0), LANES as int);
    } else {
        let before = lane_sums(x, y, groups - 1);
        let after = lane_sums(x, y, groups);
        let base = LANES * (groups - 1);
        let products = Seq::new(LANES as nat, |j: int| x[base + j].spec_times(y[base + j]));
        assert forall|j: int| 0 <= j < LANES implies after[j] == before[j].spec_plus(products[j]) by {
            lemma_fused(lane_sum(x, y, j, groups - 1), x[base + j], y[base + j]);
        }
        lemma_reduce_termwise(after, before, products, LANES as int);
        lemma_lanes_hold_prefix(x, y, groups - 1);
        lemma_reduce_products(products, x, y, base, LANES as int);
        lemma_accumulate_from(accumulate(zero, x, y, 0, base), x, y, base, base + LANES);
        lemma_accumulate_split(zero, x, y, 0, base, base + LANES);
    }
}

/// Reducing eight lanes pairwise gives their in-order sum.
proof fn lemma_pairwise_is_in_order<T: Element>(l: Seq<T>)
    requires
        exact_arithmetic::<T>(),
    ensures
        reduce_pairwise(l) == reduce_in_order(l, LANES as int),
{
    let s1 = l[0].spec_plus(l[1]);
    let s2 = s1.spec_plus(l[2]);
    let s3 = s2.spec_plus(l[3]);
    let s4 = s3.spec_plus(l[4]);
    let s5 = s4.spec_plus(l[5]);
    let s6 = s5.spec_plus(l[6]);
    let s7 = s6.spec_plus(l[7]);
    lemma_zero(l[0]);
    assert(reduce_in_order(l, 1) == l[0]) by {
        assert(reduce_in_order(l, 0) == T::spec_zero());
    }
    assert(reduce_in_order(l, 2) == s1);
    assert(reduce_in_order(l, 3) == s2);
    assert(reduce_in_order(l, 4) == s3);
    assert(reduce_in_order(l, 5) == s4);
    assert(reduce_in_order(l, 6) == s5);
    assert(reduce_in_order(l, 7) == s6);
    assert(reduce_in_order(l, 8) == s7);
    let high = l[4].spec_plus(l[5]).spec_plus(l[6].spec_plus(l[7]));
    // s1 + (l2 + l3) == s3
    lemma_associative(s1, l[2], l[3]);
    // s3 + ((l4 + l5) + (l6 + l7)) == (s3 + (l4 + l5)) + (l6 + l7)
    lemma_associative(s3, l[4].spec_plus(l[5]), l[6].spec_plus(l[7]));
    // s3 + (l4 + l5) == s5
    lemma_associative(s3, l[4], l[5]);
    // s5 + (l6 + l7) == s7
    lemma_associative(s5, l[6], l[7]);
}

/// In exact arithmetic every kernel returns the sum of all `x.len()`
/// products, each index counted once: neither the grouping into lanes nor the
/// separate treatment of the remainder skips or repeats an index.
pub proof fn lemma_kernels_agree<T: Element>(kernel: Kernel, x: Seq<T>, y: Seq<T>)
    requires
        exact_arithmetic::<T>(),
    ensures
        dot(kernel, x, y) == dot_sequential(x, y),
{
    let zero = T::spec_zero();
    let len = x.len() as int;
    let groups = len / (LANES as int);
    let whole = LANES * groups;
    let lanes = lane_sums(x, y, groups);
    assert(0 <= groups && 0 <= whole <= len);
    lemma_lanes_hold_prefix(x, y, groups);
    lemma_pairwise_is_in_order(lanes);
    lemma_accumulate_from(accumulate(zero, x, y, 0, whole), x, y, whole, len);
    lemma_accumulate_split(zero, x, y, 0, whole, len);
}

/// The dot product of the first `n` elements over the integers, without
/// wrapping.
pub open spec fn integer_dot(x: Seq<i64>, y: Seq<i64>, n: int) -> int
    decreases n,
{
    if n <= 0 {
        0
    } else {
        integer_dot(x, y, n - 1) + x[n - 1] * y[n - 1]
    }
}

/// The 64-bit integer that `v` wraps to.
pub open spec fn wrapped(v: int) -> i64 {
    vstd::wrapping::i64_specs::signed_crop(v)
}

/// Wrapping the sum of two integers is adding, with wrapping, what they
/// wrap to.
proof fn lemma_wrapped_sum(u: int, v: int)
    ensures
        wrapped(u + v) == wrapped(u).spec_plus(wrapped(v)),
{
    let m = 0x1_0000_0000_0000_0000int;
    vstd::arithmetic::div_mod::lemma_add_mod_noop(u, v, m);
    vstd::arithmetic::div_mod::lemma_mod_bound(u, m);
    vstd::arithmetic::div_mod::lemma_mod_bound(v, m);
    let ru = u % m;
    let rv = v % m;
    if ru + rv >= m {
        vstd::arithmetic::div_mod::lemma_fundamental_div_mod_converse(ru + rv, m, 1, ru + rv - m);
    } else {
        vstd::arithmetic::div_mod::lemma_small_mod((ru + rv) as nat, m as nat);
    }
    let cu = wrapped(u) as int;
    let cv = wrapped(v) as int;
    let sum = wrapped(u).spec_plus(wrapped(v)) as int;
    assert(cu == ru || cu == ru - m);
    assert(cv == rv || cv == rv - m);
    assert(sum == cu + cv || sum == cu + cv - m || sum == cu + cv + m);
}

/// A 64-bit integer wraps to itself.
proof fn lemma_wrapped_value(v: i64)
    ensures
        wrapped(v as int) == v,
{
    let m = 0x1_0000_0000_0000_0000int;
    if v >= 0 {
        vstd::arithmetic::div_mod::lemma_small_mod(v as nat, m as nat);
    } else {
        vstd::arithmetic::div_mod::lemma_fundamental_div_mod_converse(v as int, m, -1, v + m);
    }
}

/// With wrapping integers, accumulating onto zero gives the integer dot
/// product, wrapped.
proof fn lemma_accumulate_wraps(x: Seq<i64>, y: Seq<i64>, n: int)
    ensures
        accumulate(0i64, x, y, 0, n) == wrapped(integer_dot(x, y, n)),
    decreases n,
{
    if n <= 0 {
        lemma_wrapped_value(0i64);
    } else {
        lemma_accumulate_wraps(x, y, n - 1);
        lemma_wrapped_sum(integer_dot(x, y, n - 1), x[n - 1] * y[n - 1]);
    }
}

/// With wrapping integers every kernel returns the dot product over the
/// integers, reduced to 64 bits: the sum of `x[i] * y[i]` over every index
/// `i` of the run.
pub proof fn lemma_wrapping_dot_is_integer_dot(kernel: Kernel, x: Seq<i64>, y: Seq<i64>)
    ensures
        dot(kernel, x, y) == wrapped(integer_dot(x, y, x.len() as int)),
{
    lemma_wrapping_integers_exact();
    lemma_kernels_agree(kernel, x, y);
    lemma_accumulate_wraps(x, y, x.len() as int);
}

/// In exact arithmetic the product of two operands does not depend on the
/// kernel.
pub proof fn lemma_product_is_kernel_independent<T: Element>(
    layout: MatVecLayout,
    c: Seq<T>,
    a: Seq<T>,
    b: Seq<T>,
    kernel: Kernel,
    other: Kernel,
)
    requires
        exact_arithmetic::<T>(),
        layout.is_product(c, kernel, a, b),
    ensures
        layout.is_product(c, other, a, b),
{
    assert forall|bi: int, mi: int| 0 <= bi < layout.batch && 0 <= mi < layout.rows implies c[bi
        * layout.rows + mi] == #[trigger] layout.output(other, a, b, bi, mi) by {
        assert(c[bi * layout.rows + mi] == layout.output(kernel, a, b, bi, mi));
        lemma_kernels_agree(kernel, layout.matrix_row(a, bi, mi), layout.vector(b, bi));
        lemma_kernels_agree(other, layout.matrix_row(a, bi, mi), layout.vector(b, bi));
    }
}

} // verus!
