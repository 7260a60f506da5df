//! Dot-product kernels: a strided run of one buffer against a contiguous
//! vector, in three reduction orders.

use vstd::prelude::*;
use crate::element::Element;

verus! {

/// Elements that one step of a lane kernel consumes.
pub const LANES: usize = 8;

/// Elements that one step of the scalar kernel consumes.
pub const UNROLL: usize = 4;

/// The reduction order of a dot product. The three kernels compute the same
/// sum of products and differ in how it is grouped, which matters wherever
/// the element arithmetic rounds.
#[derive(Clone, Copy, Debug, PartialEq, Eq, Structural)]
pub enum Kernel {
    /// One running sum, the products added in ascending index order.
    Fallback,
    /// Two four-wide fused accumulators, reduced pairwise.
    SimdNarrow,
    /// One eight-wide fused accumulator, reduced in lane order.
    SimdWide,
}

/// The `k` elements of `a` at `base`, `base + stride`, `base + 2 * stride`, ...
pub open spec fn strided<T>(a: Seq<T>, base: int, stride: int, k: nat) -> Seq<T> {
    Seq::new(k, |i: int| a[base + i * stride])
}

/// Every element of a strided run of length `k` lies inside a buffer of
/// `len` elements.
pub open spec fn run_in_bounds(len: nat, base: int, stride: int, k: nat) -> bool {
    k > 0 ==> 0 <= base && 0 <= stride && base + (k - 1) * stride < len
}

/// `init + x[from] * y[from] + ... + x[to - 1] * y[to - 1]`, each product
/// added to the running sum in ascending index order.
pub open spec fn accumulate<T: Element>(init: T, x: Seq<T>, y: Seq<T>, from: int, to: int) -> T
    decreases to - from,
{
    if to <= from {
        init
    } else {
        accumulate(init, x, y, from, to - 1).spec_plus(x[to - 1].spec_times(y[to - 1]))
    }
}

/// Result of the scalar kernel: the products added to zero one by one, in
/// ascending index order.
pub open spec fn dot_sequential<T: Element>(x: Seq<T>, y: Seq<T>) -> T {
    accumulate(T::spec_zero(), x, y, 0, x.len() as int)
}

/// What lane `lane` holds after `groups` fused steps: the products at
/// indices `lane`, `lane + 8`, `lane + 16`, ... folded into zero.
pub open spec fn lane_sum<T: Element>(x: Seq<T>, y: Seq<T>, lane: int, groups: int) -> T
    decreases groups,
{
    if groups <= 0 {
        T::spec_zero()
    } else {
        lane_sum(x, y, lane, groups - 1).spec_fused(
            x[LANES * (groups - 1) + lane],
            y[LANES * (groups - 1) + lane],
        )
    }
}

/// The eight lanes after `groups` fused steps.
pub open spec fn lane_sums<T: Element>(x: Seq<T>, y: Seq<T>, groups: int) -> Seq<T> {
    Seq::new(LANES as nat, |lane: int| lane_sum(x, y, lane, groups))
}

/// Horizontal reduction of two four-lane vectors: each vector is reduced as
/// `(l0 + l1) + (l2 + l3)`, and the two results are added.
pub open spec fn reduce_pairwise<T: Element>(l: Seq<T>) -> T {
    l[0].spec_plus(l[1]).spec_plus(l[2].spec_plus(l[3])).spec_plus(
        l[4].spec_plus(l[5]).spec_plus(l[6].spec_plus(l[7])),
    )
}

/// Horizontal reduction of the first `n` lanes in lane order, starting from
/// zero.
pub open spec fn reduce_in_order<T: Element>(l: Seq<T>, n: int) -> T
    decreases n,
{
    if n <= 0 {
        T::spec_zero()
    } else {
        reduce_in_order(l, n - 1).spec_plus(l[n - 1])
    }
}

/// Result of the narrow lane kernel (two four-wide accumulators): the lanes
/// are reduced pairwise, then the remaining `len % 8` products are added one
/// by one.
pub open spec fn dot_narrow<T: Element>(x: Seq<T>, y: Seq<T>) -> T {
    let groups = x.len() as int / LANES as int;
    accumulate(reduce_pairwise(lane_sums(x, y, groups)), x, y, LANES * groups, x.len() as int)
}

/// Result of the wide lane kernel (one eight-wide accumulator): the lanes are
/// reduced in lane order, the remaining `len % 8` products are summed on
/// their own, and the two sums are added.
pub open spec fn dot_wide<T: Element>(x: Seq<T>, y: Seq<T>) -> T {
    let groups = x.len() as int / LANES as int;
    reduce_in_order(lane_sums(x, y, groups), LANES as int).spec_plus(
        accumulate(T::spec_zero(), x, y, LANES * groups, x.len() as int),
    )
}

/// Result of the kernel `kernel` on the run `x` and the vector `y`.
pub open spec fn dot<T: Element>(kernel: Kernel, x: Seq<T>, y: Seq<T>) -> T {
    match kernel {
        Kernel::Fallback => dot_sequential(x, y),
        Kernel::SimdNarrow => dot_narrow(x, y),
        Kernel::SimdWide => dot_wide(x, y),
    }
}

/// Accumulating over `from..mid` and then over `mid..to` is accumulating
/// over `from..to`.
pub proof fn lemma_accumulate_split<T: Element>(init: T, x: Seq<T>, y: Seq<T>, from: int, mid: int, to: int)
    requires
        from <= mid <= to,
    ensures
        accumulate(accumulate(init, x, y, from, mid), x, y, mid, to) == accumulate(init, x, y, from, to),
    decreases to - mid,
{
    if mid < to {
        lemma_accumulate_split(init, x, y, from, mid, to - 1);
    }
}

/// An in-bounds index stays in bounds for every earlier element of the run.
proof fn lemma_run_index(len: nat, base: int, stride: int, k: nat, i: int)
    requires
        run_in_bounds(len, base, stride, k),
        0 <= i < k,
    ensures
        0 <= i * stride <= (k - 1) * stride,
        0 <= base + i * stride < len,
{
    assert(0 <= i * stride <= (k - 1) * stride) by (nonlinear_arith)
        requires
            0 <= i <= k - 1,
            0 <= stride,
    ;
}

/// The offset of element `ki + lane` is `lane` strides past that of `ki`.
proof fn lemma_run_offset(ki: int, lane: int, stride: int)
    ensures
        (ki + lane) * stride == ki * stride + lane * stride,
{
    assert((ki + lane) * stride == ki * stride + lane * stride) by (nonlinear_arith);
}

/// Element `i` of the strided run.
fn run_element<T: Copy>(a: &[T], a_base: usize, a_stride: usize, i: usize, Ghost(k): Ghost<nat>) -> (r: T)
    requires
        run_in_bounds(a@.len(), a_base as int, a_stride as int, k),
        i < k,
    ensures
        r == strided(a@, a_base as int, a_stride as int, k)[i as int],
{
    proof {
        lemma_run_index(a@.len(), a_base as int, a_stride as int, k, i as int);
        assert(a@.len() == a.len());
    }
    a[a_base + i * a_stride]
}

/// Adds the products at indices `from..k` to `init`, one by one.
fn accumulate_tail<T: Element>(
    init: T,
    a: &[T],
    a_base: usize,
    a_stride: usize,
    from: usize,
    k: usize,
    b: &[T],
) -> (r: T)
    requires
        run_in_bounds(a@.len(), a_base as int, a_stride as int, k as nat),
        b@.len() == k,
        from <= k,
    ensures
        r == accumulate(init, strided(a@, a_base as int, a_stride as int, k as nat), b@, from as int, k as int),
{
    let ghost x = strided(a@, a_base as int, a_stride as int, k as nat);
    let mut sum = init;
    let mut ki: usize = from;
    while ki < k
        invariant
            run_in_bounds(a@.len(), a_base as int, a_stride as int, k as nat),
            b@.len() == k,
            from <= ki <= k,
            x == strided(a@, a_base as int, a_stride as int, k as nat),
            sum == accumulate(init, x, b@, from as int, ki as int),
        decreases k - ki,
    {
        let av = run_element(a, a_base, a_stride, ki, Ghost(k as nat));
        sum = sum.plus(av.times(b[ki]));
        ki += 1;
    }
    sum
}

/// The scalar kernel: one running sum over groups of four indices, then the
/// remaining `k % 4` products, every product added in ascending index order.
pub fn dot_product_f32_fallback<T: Element>(
    a: &[T],
    a_base: usize,
    a_stride: usize,
    k: usize,
    b: &[T],
) -> (r: T)
    requires
        run_in_bounds(a@.len(), a_base as int, a_stride as int, k as nat),
        b@.len() == k,
    ensures
        r == dot_sequential(strided(a@, a_base as int, a_stride as int, k as nat), b@),
{
    let ghost x = strided(a@, a_base as int, a_stride as int, k as nat);
    let mut sum = T::zero();
    let k_rounded: usize = k - k % UNROLL;
    let mut ki: usize = 0;
    while ki < k_rounded
        invariant
            run_in_bounds(a@.len(), a_base as int, a_stride as int, k as nat),
            b@.len() == k,
            x == strided(a@, a_base as int, a_stride as int, k as nat),
            k_rounded == k - k % UNROLL,
            ki <= k_rounded,
            ki % UNROLL == 0,
            sum == accumulate(T::spec_zero(), x, b@, 0, ki as int),
        decreases k_rounded - ki,
    {
        sum = sum.plus(run_element(a, a_base, a_stride, ki, Ghost(k as nat)).times(b[ki]));
        sum = sum.plus(run_element(a, a_base, a_stride, ki + 1, Ghost(k as nat)).times(b[ki + 1]));
        sum = sum.plus(run_element(a, a_base, a_stride, ki + 2, Ghost(k as nat)).times(b[ki + 2]));
        sum = sum.plus(run_element(a, a_base, a_stride, ki + 3, Ghost(k as nat)).times(b[ki + 3]));
        proof {
            assert(accumulate(T::spec_zero(), x, b@, 0, ki + 1) == accumulate(T::spec_zero(), x, b@, 0, ki as int).spec_plus(x[ki as int].spec_times(b@[ki as int])));
            assert(accumulate(T::spec_zero(), x, b@, 0, ki + 2) == accumulate(T::spec_zero(), x, b@, 0, ki + 1).spec_plus(x[ki + 1].spec_times(b@[ki + 1])));
            assert(accumulate(T::spec_zero(), x, b@, 0, ki + 3) == accumulate(T::spec_zero(), x, b@, 0, ki + 2).spec_plus(x[ki + 2].spec_times(b@[ki + 2])));
        }
        ki += UNROLL;
    }
    proof {
        lemma_accumulate_split(T::spec_zero(), x, b@, 0, k_rounded as int, k as int);
    }
    accumulate_tail(sum, a, a_base, a_stride, k_rounded, k, b)
}

/// Loads the strided elements at indices `ki..ki + 8` into a contiguous
/// buffer.
fn gather<T: Copy>(a: &[T], a_base: usize, a_stride: usize, ki: usize, Ghost(k): Ghost<nat>) -> (av: [T; 8])
    requires
        run_in_bounds(a@.len(), a_base as int, a_stride as int, k),
        ki + LANES <= k,
    ensures
        forall|lane: int| 0 <= lane < LANES ==> av@[lane] == strided(a@, a_base as int, a_stride as int, k)[ki + lane],
{
    proof {
        lemma_run_index(a@.len(), a_base as int, a_stride as int, k, ki as int);
        lemma_run_index(a@.len(), a_base as int, a_stride as int, k, ki + 7);
        assert(a@.len() == a.len());
        lemma_run_offset(ki as int, 1, a_stride as int);
        lemma_run_offset(ki as int, 2, a_stride as int);
        lemma_run_offset(ki as int, 3, a_stride as int);
        lemma_run_offset(ki as int, 4, a_stride as int);
        lemma_run_offset(ki as int, 5, a_stride as int);
        lemma_run_offset(ki as int, 6, a_stride as int);
        lemma_run_offset(ki as int, 7, a_stride as int);
    }
    let start: usize = a_base + ki * a_stride;
    [
        a[start],
        a[start + a_stride],
        a[start + 2 * a_stride],
        a[start + 3 * a_stride],
        a[start + 4 * a_stride],
        a[start + 5 * a_stride],
        a[start + 6 * a_stride],
        a[start + 7 * a_stride],
    ]
}

/// The main loop of both lane kernels: for each whole group of eight
/// indices, gathers the strided elements and folds the eight products into the
/// eight lanes with one fused operation each.
fn accumulate_lanes<T: Element>(a: &[T], a_base: usize, a_stride: usize, k: usize, b: &[T]) -> (lanes: [T; 8])
    requires
        run_in_bounds(a@.len(), a_base as int, a_stride as int, k as nat),
        b@.len() == k,
    ensures
        lanes@ == lane_sums(strided(a@, a_base as int, a_stride as int, k as nat), b@, k as int / LANES as int),
{
    let ghost x = strided(a@, a_base as int, a_stride as int, k as nat);
    let zero = T::zero();
    let mut lanes: [T; 8] = [zero, zero, zero, zero, zero, zero, zero, zero];
    let k_rounded: usize = k - k % LANES;
    let mut ki: usize = 0;
    assert(lanes@ =~= lane_sums(x, b@, 0));
    while ki < k_rounded
        invariant
            run_in_bounds(a@.len(), a_base as int, a_stride as int, k as nat),
            b@.len() == k,
            x == strided(a@, a_base as int, a_stride as int, k as nat),
            k_rounded == k - k % LANES,
            ki <= k_rounded,
            ki % LANES == 0,
            lanes@ == lane_sums(x, b@, ki as int / LANES as int),
        decreases k_rounded - ki,
    {
        let ghost done = ki as int / LANES as int;
        let av = gather(a, a_base, a_stride, ki, Ghost(k as nat));
        let mut lane: usize = 0;
        while lane < LANES
            invariant
                b@.len() == k,
                ki + LANES <= k,
                ki == LANES * done,
                lane <= LANES,
                forall|l: int| 0 <= l < LANES ==> av@[l] == x[ki + l],
                forall|l: int| 0 <= l < lane ==> lanes@[l] == lane_sum(x, b@, l, done + 1),
                forall|l: int| lane <= l < LANES ==> lanes@[l] == lane_sum(x, b@, l, done),
            decreases LANES - lane,
        {
            lanes[lane] = lanes[lane].fused(av[lane], b[ki + lane]);
            lane += 1;
        }
        ki += LANES;
        assert(lanes@ =~= lane_sums(x, b@, done + 1));
    }
    lanes
}

/// The narrow lane kernel: two four-wide accumulators over groups of eight
/// indices, reduced pairwise, and the remaining `k % 8` products added one by
/// one in ascending index order.
pub fn dot_product_f32_simd_narrow<T: Element>(
    a: &[T],
    a_base: usize,
    a_stride: usize,
    k: usize,
    b: &[T],
) -> (r: T)
    requires
        run_in_bounds(a@.len(), a_base as int, a_stride as int, k as nat),
        b@.len() == k,
    ensures
        r == dot_narrow(strided(a@, a_base as int, a_stride as int, k as nat), b@),
{
    let lanes = accumulate_lanes(a, a_base, a_stride, k, b);
    let low = lanes[0].plus(lanes[1]).plus(lanes[2].plus(lanes[3]));
    let high = lanes[4].plus(lanes[5]).plus(lanes[6].plus(lanes[7]));
    accumulate_tail(low.plus(high), a, a_base, a_stride, k - k % LANES, k, b)
}

/// The wide lane kernel: one eight-wide accumulator over groups of eight
/// indices, reduced in lane order from zero; the remaining `k % 8` products
/// are summed on their own in ascending index order, and the two sums are
/// added.
pub fn dot_product_f32_simd_wide<T: Element>(
    a: &[T],
    a_base: usize,
    a_stride: usize,
    k: usize,
    b: &[T],
) -> (r: T)
    requires
        run_in_bounds(a@.len(), a_base as int, a_stride as int, k as nat),
        b@.len() == k,
    ensures
        r == dot_wide(strided(a@, a_base as int, a_stride as int, k as nat), b@),
{
    let lanes = accumulate_lanes(a, a_base, a_stride, k, b);
    let mut partial = T::zero();
    let mut lane: usize = 0;
    while lane < LANES
        invariant
            lane <= LANES,
            partial == reduce_in_order(lanes@, lane as int),
        decreases LANES - lane,
    {
        partial = partial.plus(lanes[lane]);
        lane += 1;
    }
    let tail = accumulate_tail(T::zero(), a, a_base, a_stride, k - k % LANES, k, b);
    partial.plus(tail)
}

/// The dot product of the strided run of `a` that starts at `a_base` and
/// advances by `a_stride`, `k` elements long, with the `k` elements of `b`:
/// the sum of `a[a_base + ki * a_stride] * b[ki]` over `ki` in `0..k`,
/// reduced in the order of the chosen kernel.
///
/// The name recalls the elements the kernels are laid out for, 32-bit
/// floating-point numbers; any [`Element`] will do.
pub fn dot_product_f32<T: Element>(
    a: &[T],
    a_base: usize,
    a_stride: usize,
    k: usize,
    b: &[T],
    kernel: Kernel,
) -> (r: T)
    requires
        run_in_bounds(a@.len(), a_base as int, a_stride as int, k as nat),
        b@.len() == k,
    ensures
        r == dot(kernel, strided(a@, a_base as int, a_stride as int, k as nat), b@),
{
    match kernel {
        Kernel::Fallback => dot_product_f32_fallback(a, a_base, a_stride, k, b),
        Kernel::SimdNarrow => dot_product_f32_simd_narrow(a, a_base, a_stride, k, b),
        Kernel::SimdWide => dot_product_f32_simd_wide(a, a_base, a_stride, k, b),
    }
}

} // verus!
