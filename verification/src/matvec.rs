//! The orchestrator: checks that the operands fit together, cuts the output
//! into one slot per (batch, row) pair, and computes every slot in parallel.

use vstd::prelude::*;
use vstd::arithmetic::div_mod::{lemma_fundamental_div_mod, lemma_fundamental_div_mod_converse};
use vstd::slice::slice_subrange;
use rayon::iter::{IndexedParallelIterator, IntoParallelRefMutIterator, ParallelIterator};
use crate::element::Element;
use crate::kernel::{dot, dot_product_f32, run_in_bounds, strided, Kernel};
use crate::strider::{is_row_major, TensorStrider};

verus! {

/// Why a set of operands cannot be multiplied.
#[derive(Clone, Copy, Debug, PartialEq, Eq, Structural)]
pub enum ContractViolation {
    /// The matrix operand does not have three dimensions.
    MatrixRank,
    /// The vector operand does not have two dimensions.
    VectorRank,
    /// The operands disagree on the number of batches.
    BatchMismatch,
    /// The operands disagree on the inner dimension.
    InnerMismatch,
    /// The vector operand is not laid out row-major.
    VectorNotContiguous,
    /// The output buffer does not hold exactly one element per batch and row.
    OutputLength,
    /// The vector buffer is shorter than its shape.
    VectorExtent,
    /// The matrix descriptor addresses an element outside the matrix buffer.
    MatrixExtent,
}

/// The sizes and strides of one multiplication: a `batch x rows x inner`
/// matrix operand, addressed through three strides, against a contiguous
/// `batch x inner` vector operand.
#[derive(Clone, Copy, Debug, PartialEq, Eq, Structural)]
pub struct MatVecLayout {
    pub batch: usize,
    pub rows: usize,
    pub inner: usize,
    pub batch_stride: usize,
    pub row_stride: usize,
    pub inner_stride: usize,
}

impl MatVecLayout {
    /// Buffer position of the first element of row `mi` of batch `bi`.
    pub open spec fn row_base(self, bi: int, mi: int) -> int {
        bi * self.batch_stride + mi * self.row_stride
    }

    /// Row `mi` of batch `bi` of the matrix operand, gathered from `a`.
    pub open spec fn matrix_row<T>(self, a: Seq<T>, bi: int, mi: int) -> Seq<T> {
        strided(a, self.row_base(bi, mi), self.inner_stride as int, self.inner as nat)
    }

    /// The vector of batch `bi`.
    pub open spec fn vector<T>(self, b: Seq<T>, bi: int) -> Seq<T> {
        b.subrange(bi * self.inner, (bi + 1) * self.inner)
    }

    /// The output element of batch `bi` and row `mi`: the dot product, in
    /// the order of `kernel`, of that matrix row with that batch's vector.
    pub open spec fn output<T: Element>(self, kernel: Kernel, a: Seq<T>, b: Seq<T>, bi: int, mi: int) -> T {
        dot(kernel, self.matrix_row(a, bi, mi), self.vector(b, bi))
    }

    /// The value of flat output slot `i`, which belongs to row `i % rows` of
    /// batch `i / rows`.
    pub open spec fn slot<T: Element>(self, kernel: Kernel, a: Seq<T>, b: Seq<T>, i: int) -> T {
        self.output(kernel, a, b, i / (self.rows as int), i % (self.rows as int))
    }

    /// The output buffer holds exactly one element per batch and row.
    pub open spec fn output_fits(self, c_len: nat) -> bool {
        c_len == self.batch * self.rows
    }

    /// The vector buffer holds every batch's vector.
    pub open spec fn vector_fits(self, b_len: nat) -> bool {
        self.batch * self.inner <= b_len
    }

    /// Every addressed element of the matrix operand lies inside its buffer.
    /// This only needs checking for the element with the largest index in
    /// each dimension.
    pub open spec fn matrix_fits(self, a_len: nat) -> bool {
        self.batch > 0 && self.rows > 0 && self.inner > 0 ==> (self.batch - 1) * self.batch_stride + (
        self.rows - 1) * self.row_stride + (self.inner - 1) * self.inner_stride < a_len
    }

    /// `c` is the product of the operands: slot `bi * rows + mi` holds the
    /// output element of batch `bi` and row `mi`, and there is no other slot.
    pub open spec fn is_product<T: Element>(self, c: Seq<T>, kernel: Kernel, a: Seq<T>, b: Seq<T>) -> bool {
        &&& c.len() == self.batch * self.rows
        &&& forall|bi: int, mi: int|
            0 <= bi < self.batch && 0 <= mi < self.rows ==> c[bi * self.rows + mi] == #[trigger] self.output(
                kernel,
                a,
                b,
                bi,
                mi,
            )
    }
}

/// The layout that a three-dimensional matrix descriptor stands for.
pub open spec fn layout_of(shape: Seq<usize>, strides: Seq<usize>) -> MatVecLayout {
    MatVecLayout {
        batch: shape[0],
        rows: shape[1],
        inner: shape[2],
        batch_stride: strides[0],
        row_stride: strides[1],
        inner_stride: strides[2],
    }
}

/// The first rule that the operands break, if any. The rules are, in the
/// order in which they are checked: the matrix descriptor has three
/// dimensions; the vector descriptor has two; the batch sizes agree; the
/// inner dimensions agree; the vector operand is contiguous; the output
/// buffer has `batch * rows` elements; the vector buffer and the matrix
/// buffer hold every element that their descriptors address.
pub open spec fn violation(
    matrix: &TensorStrider,
    vector: &TensorStrider,
    a_len: nat,
    b_len: nat,
    c_len: nat,
) -> Option<ContractViolation> {
    let shape1 = matrix.spec_shape();
    let strides1 = matrix.spec_strides();
    let shape2 = vector.spec_shape();
    let layout = layout_of(shape1, strides1);
    if !(shape1.len() == 3 && strides1.len() == 3) {
        Some(ContractViolation::MatrixRank)
    } else if shape2.len() != 2 {
        Some(ContractViolation::VectorRank)
    } else if shape1[0] != shape2[0] {
        Some(ContractViolation::BatchMismatch)
    } else if shape1[2] != shape2[1] {
        Some(ContractViolation::InnerMismatch)
    } else if !is_row_major(shape2, vector.spec_strides()) {
        Some(ContractViolation::VectorNotContiguous)
    } else if !layout.output_fits(c_len) {
        Some(ContractViolation::OutputLength)
    } else if !layout.vector_fits(b_len) {
        Some(ContractViolation::VectorExtent)
    } else if !layout.matrix_fits(a_len) {
        Some(ContractViolation::MatrixExtent)
    } else {
        None
    }
}

/// Whether `x * y == target`, computed without overflow.
fn product_is(x: usize, y: usize, target: usize) -> (r: bool)
    ensures
        r == (x * y == target),
{
    match x.checked_mul(y) {
        Some(product) => product == target,
        None => false,
    }
}

/// Whether `x * y <= bound`, computed without overflow.
fn product_at_most(x: usize, y: usize, bound: usize) -> (r: bool)
    ensures
        r == (x * y <= bound),
{
    match x.checked_mul(y) {
        Some(product) => product <= bound,
        None => false,
    }
}

/// `x * y + z`, or `None` if it does not fit in `usize`.
fn checked_offset(x: usize, y: usize, z: usize) -> (r: Option<usize>)
    ensures
        match r {
            Some(v) => v == x * y + z,
            None => x * y + z > usize::MAX,
        },
{
    match x.checked_mul(y) {
        Some(product) => product.checked_add(z),
        None => {
            assert(x * y + z > usize::MAX);
            None
        },
    }
}

impl MatVecLayout {
    /// Whether every addressed element of the matrix operand lies inside a
    /// buffer of `a_len` elements.
    pub fn matrix_within(&self, a_len: usize) -> (r: bool)
        ensures
            r == self.matrix_fits(a_len as nat),
    {
        if self.batch == 0 || self.rows == 0 || self.inner == 0 {
            return true;
        }
        let last = match checked_offset(self.batch - 1, self.batch_stride, 0) {
            Some(batch_part) => match checked_offset(self.rows - 1, self.row_stride, batch_part) {
                Some(row_part) => checked_offset(self.inner - 1, self.inner_stride, row_part),
                None => None,
            },
            None => None,
        };
        proof {
            assert((self.batch - 1) * self.batch_stride >= 0 && (self.rows - 1) * self.row_stride >= 0 && (
            self.inner - 1) * self.inner_stride >= 0) by (nonlinear_arith)
                requires
                    self.batch > 0,
                    self.rows > 0,
                    self.inner > 0,
            ;
        }
        match last {
            Some(index) => index < a_len,
            None => false,
        }
    }
}

/// Checks the operands against every rule and, if none is broken, returns
/// the layout of the multiplication.
pub fn check_operands(
    matrix: &TensorStrider,
    vector: &TensorStrider,
    a_len: usize,
    b_len: usize,
    c_len: usize,
) -> (r: Result<MatVecLayout, ContractViolation>)
    ensures
        match violation(matrix, vector, a_len as nat, b_len as nat, c_len as nat) {
            Some(broken) => r == Err::<MatVecLayout, ContractViolation>(broken),
            None => r == Ok::<MatVecLayout, ContractViolation>(
                layout_of(matrix.spec_shape(), matrix.spec_strides()),
            ),
        },
{
    let shape1 = matrix.shape();
    let strides1 = matrix.strides();
    let shape2 = vector.shape();
    if shape1.len() != 3 {
        return Err(ContractViolation::MatrixRank);
    }
    if shape2.len() != 2 {
        return Err(ContractViolation::VectorRank);
    }
    if shape1[0] != shape2[0] {
        return Err(ContractViolation::BatchMismatch);
    }
    if shape1[2] != shape2[1] {
        return Err(ContractViolation::InnerMismatch);
    }
    if !vector.is_contiguous() {
        return Err(ContractViolation::VectorNotContiguous);
    }
    let layout = MatVecLayout {
        batch: shape1[0],
        rows: shape1[1],
        inner: shape1[2],
        batch_stride: strides1[0],
        row_stride: strides1[1],
        inner_stride: strides1[2],
    };
    if !product_is(layout.batch, layout.rows, c_len) {
        return Err(ContractViolation::OutputLength);
    }
    if !product_at_most(layout.batch, layout.inner, b_len) {
        return Err(ContractViolation::VectorExtent);
    }
    if !layout.matrix_within(a_len) {
        return Err(ContractViolation::MatrixExtent);
    }
    Ok(layout)
}

/// Cuts flat output index `i` into its batch and row: `mi = i mod rows`,
/// `bi = (i - mi) / rows`.
pub fn split_index(i: usize, rows: usize) -> (r: (usize, usize))
    requires
        rows > 0,
    ensures
        r.0 == i / rows,
        r.1 == i % rows,
        r.0 * rows + r.1 == i,
        r.1 < rows,
{
    let mi = i % rows;
    proof {
        let q = i as int / rows as int;
        lemma_fundamental_div_mod(i as int, rows as int);
        assert(q * rows == rows * q) by (nonlinear_arith);
        assert(0 <= q * rows) by (nonlinear_arith)
            requires
                0 <= q,
                0 < rows,
        ;
        lemma_fundamental_div_mod_converse(i - mi, rows as int, q, 0);
    }
    let bi = (i - mi) / rows;
    (bi, mi)
}

/// The flat indices below `batch * rows` are exactly the pairs of a batch
/// and a row: every index splits into a pair in range.
pub proof fn lemma_split_in_range(i: int, batch: int, rows: int)
    requires
        0 <= i < batch * rows,
        0 <= batch,
        0 <= rows,
    ensures
        rows > 0,
        0 <= i / rows < batch,
        0 <= i % rows < rows,
        (i / rows) * rows + i % rows == i,
{
    assert(rows > 0) by (nonlinear_arith)
        requires
            0 <= i < batch * rows,
            0 <= rows,
    ;
    lemma_fundamental_div_mod(i, rows);
    assert((i / rows) * rows == rows * (i / rows)) by (nonlinear_arith);
    assert(0 <= i / rows < batch) by (nonlinear_arith)
        requires
            0 <= i < batch * rows,
            rows > 0,
            (i / rows) * rows + i % rows == i,
            0 <= i % rows < rows,
    ;
}

/// Every pair of a batch and a row in range is the split of one flat
/// index below `batch * rows`, namely `bi * rows + mi`.
pub proof fn lemma_join_in_range(bi: int, mi: int, batch: int, rows: int)
    requires
        0 <= bi < batch,
        0 <= mi < rows,
    ensures
        0 <= bi * rows + mi < batch * rows,
        (bi * rows + mi) / rows == bi,
        (bi * rows + mi) % rows == mi,
{
    assert(0 <= bi * rows + mi < batch * rows) by (nonlinear_arith)
        requires
            0 <= bi < batch,
            0 <= mi < rows,
    ;
    lemma_fundamental_div_mod_converse(bi * rows + mi, rows, bi, mi);
}

/// The operands determine the product: two buffers that both hold the
/// product of the same operands, under the same kernel, are equal. Running
/// the multiplication again, on any number of threads, gives the same output.
pub proof fn lemma_product_is_unique<T: Element>(
    layout: MatVecLayout,
    c1: Seq<T>,
    c2: Seq<T>,
    kernel: Kernel,
    a: Seq<T>,
    b: Seq<T>,
)
    requires
        layout.is_product(c1, kernel, a, b),
        layout.is_product(c2, kernel, a, b),
    ensures
        c1 == c2,
{
    assert forall|i: int| 0 <= i < c1.len() implies c1[i] == c2[i] by {
        lemma_split_in_range(i, layout.batch as int, layout.rows as int);
        let bi = i / (layout.rows as int);
        let mi = i % (layout.rows as int);
        assert(c1[bi * layout.rows + mi] == layout.output(kernel, a, b, bi, mi));
        assert(c2[bi * layout.rows + mi] == layout.output(kernel, a, b, bi, mi));
    }
    assert(c1 =~= c2);
}

/// The product depends on the matrix operand only through its logical
/// rows: two buffers and stride triples that describe the same rows, whatever
/// their arrangement in memory, have the same product.
pub proof fn lemma_product_ignores_arrangement<T: Element>(
    layout: MatVecLayout,
    other: MatVecLayout,
    c: Seq<T>,
    kernel: Kernel,
    a: Seq<T>,
    a_other: Seq<T>,
    b: Seq<T>,
)
    requires
        other.batch == layout.batch,
        other.rows == layout.rows,
        other.inner == layout.inner,
        forall|bi: int, mi: int|
            0 <= bi < layout.batch && 0 <= mi < layout.rows ==> #[trigger] other.matrix_row(a_other, bi, mi)
                == layout.matrix_row(a, bi, mi),
        layout.is_product(c, kernel, a, b),
    ensures
        other.is_product(c, kernel, a_other, b),
{
    assert forall|bi: int, mi: int| 0 <= bi < other.batch && 0 <= mi < other.rows implies c[bi * other.rows
        + mi] == #[trigger] other.output(kernel, a_other, b, bi, mi) by {
        assert(other.matrix_row(a_other, bi, mi) == layout.matrix_row(a, bi, mi));
        assert(c[bi * layout.rows + mi] == layout.output(kernel, a, b, bi, mi));
        assert(other.vector(b, bi) == layout.vector(b, bi));
    }
}

/// A row in range of a matrix operand that fits its buffer is a run in
/// bounds.
pub proof fn lemma_row_in_bounds(layout: MatVecLayout, a_len: nat, bi: int, mi: int)
    requires
        layout.matrix_fits(a_len),
        0 <= bi < layout.batch,
        0 <= mi < layout.rows,
        layout.inner > 0,
    ensures
        0 <= bi * layout.batch_stride <= (layout.batch - 1) * layout.batch_stride,
        0 <= mi * layout.row_stride <= (layout.rows - 1) * layout.row_stride,
        0 <= (layout.inner - 1) * layout.inner_stride,
        run_in_bounds(a_len, layout.row_base(bi, mi), layout.inner_stride as int, layout.inner as nat),
{
    assert(0 <= bi * layout.batch_stride <= (layout.batch - 1) * layout.batch_stride) by (nonlinear_arith)
        requires
            0 <= bi <= layout.batch - 1,
            0 <= layout.batch_stride,
    ;
    assert(0 <= mi * layout.row_stride <= (layout.rows - 1) * layout.row_stride) by (nonlinear_arith)
        requires
            0 <= mi <= layout.rows - 1,
            0 <= layout.row_stride,
    ;
    assert(0 <= (layout.inner - 1) * layout.inner_stride) by (nonlinear_arith)
        requires
            0 <= layout.inner - 1,
            0 <= layout.inner_stride,
    ;
}

/// Computes flat output slot `i`: splits `i` into batch and row, and takes
/// the dot product of that matrix row with that batch's vector.
pub fn output_element<T: Element>(
    a: &[T],
    b: &[T],
    layout: MatVecLayout,
    kernel: Kernel,
    i: usize,
) -> (r: T)
    requires
        layout.matrix_fits(a@.len()),
        layout.vector_fits(b@.len()),
        i < layout.batch * layout.rows,
    ensures
        r == layout.slot(kernel, a@, b@, i as int),
{
    proof {
        lemma_split_in_range(i as int, layout.batch as int, layout.rows as int);
    }
    let (bi, mi) = split_index(i, layout.rows);
    proof {
        assert(0 <= bi * layout.inner && (bi + 1) * layout.inner <= layout.batch * layout.inner) by (nonlinear_arith)
            requires
                0 <= bi < layout.batch,
                0 <= layout.inner,
        ;
        assert((bi + 1) * layout.inner == bi * layout.inner + layout.inner) by (nonlinear_arith);
        assert(b@.len() == b.len());
    }
    let row = slice_subrange(b, bi * layout.inner, (bi + 1) * layout.inner);
    if layout.inner == 0 {
        proof {
            assert(layout.matrix_row(a@, bi as int, mi as int) =~= strided(a@, 0, layout.inner_stride as int, 0));
        }
        dot_product_f32(a, 0, layout.inner_stride, 0, row, kernel)
    } else {
        proof {
            lemma_row_in_bounds(layout, a@.len(), bi as int, mi as int);
            assert(a@.len() == a.len());
        }
        dot_product_f32(
            a,
            bi * layout.batch_stride + mi * layout.row_stride,
            layout.inner_stride,
            layout.inner,
            row,
            kernel,
        )
    }
}

/// Fills every slot of `c` in parallel through rayon's
/// `par_iter_mut().enumerate().for_each(..)`. Not verified: the contract
/// states what rayon documents, that the closure runs once for each element
/// of the slice, with the element's index and a mutable reference to it, and
/// that the call returns when all of them have run. The closure stores
/// [`output_element`] of that index, so afterwards each slot holds the value
/// of its own index. The work runs on the thread pool that is current at the
/// call; if rayon cannot start its global pool, it panics.
#[verifier::external_body]
fn fill_in_parallel<T: Element>(c: &mut [T], a: &[T], b: &[T], layout: MatVecLayout, kernel: Kernel)
    requires
        layout.matrix_fits(a@.len()),
        layout.vector_fits(b@.len()),
        layout.output_fits(old(c)@.len()),
    ensures
        final(c)@.len() == old(c)@.len(),
        forall|i: int| 0 <= i < old(c)@.len() ==> final(c)@[i] == layout.slot(kernel, a@, b@, i),
{
    c.par_iter_mut().enumerate().for_each(
        |(i, slot)| {
            *slot = output_element(a, b, layout, kernel, i);
        },
    );
}

/// Multiplies, for every batch, the `rows x inner` matrix of the first
/// operand with the `inner`-vector of the second, and overwrites `c` with
/// the `batch * rows` results: `c[bi * rows + mi]` becomes the sum over `ki`
/// of `a[bi * s0 + mi * s1 + ki * s2] * b[bi * inner + ki]`, where `s0`,
/// `s1`, `s2` are the strides of the matrix descriptor. The former contents
/// of `c` are never read, and the result is the same for every number of
/// worker threads.
///
/// The operands must break no rule of [`violation`]; on such operands the
/// call always succeeds. [`try_batch_matmul_vec`] accepts any operands
/// and reports the broken rule instead.
pub fn batch_matmul_vec<T: Element>(
    a: &[T],
    b: &[T],
    c: &mut [T],
    strider1: &TensorStrider,
    strider2: &TensorStrider,
    kernel: Kernel,
) -> (r: Result<(), ContractViolation>)
    requires
        violation(strider1, strider2, a@.len(), b@.len(), old(c)@.len()) is None,
    ensures
        r is Ok,
        layout_of(strider1.spec_shape(), strider1.spec_strides()).is_product(final(c)@, kernel, a@, b@),
{
    let shape = strider1.shape();
    let strides = strider1.strides();
    let layout = MatVecLayout {
        batch: shape[0],
        rows: shape[1],
        inner: shape[2],
        batch_stride: strides[0],
        row_stride: strides[1],
        inner_stride: strides[2],
    };
    fill_in_parallel(c, a, b, layout, kernel);
    proof {
        assert forall|bi: int, mi: int| 0 <= bi < layout.batch && 0 <= mi < layout.rows implies c@[bi
            * layout.rows + mi] == #[trigger] layout.output(kernel, a@, b@, bi, mi) by {
            lemma_join_in_range(bi, mi, layout.batch as int, layout.rows as int);
        }
    }
    Ok(())
}

/// [`batch_matmul_vec`] for operands that nobody has checked yet: if they
/// break a rule, returns the first broken rule and leaves `c` as it was;
/// otherwise multiplies.
pub fn try_batch_matmul_vec<T: Element>(
    a: &[T],
    b: &[T],
    c: &mut [T],
    strider1: &TensorStrider,
    strider2: &TensorStrider,
    kernel: Kernel,
) -> (r: Result<(), ContractViolation>)
    ensures
        match violation(strider1, strider2, a@.len(), b@.len(), old(c)@.len()) {
            Some(broken) => r == Err::<(), ContractViolation>(broken) && final(c)@ == old(c)@,
            None => r is Ok && layout_of(strider1.spec_shape(), strider1.spec_strides()).is_product(
                final(c)@,
                kernel,
                a@,
                b@,
            ),
        },
{
    proof {
        assert(a@.len() == a.len());
        assert(b@.len() == b.len());
        assert(c@.len() == c.len());
    }
    match check_operands(strider1, strider2, a.len(), b.len(), c.len()) {
        Ok(_) => batch_matmul_vec(a, b, c, strider1, strider2, kernel),
        Err(broken) => Err(broken),
    }
}

} // verus!
