//! Shape and stride descriptors of a tensor laid over a flat buffer.

use vstd::prelude::*;

verus! {

/// The stride that dimension `i` of `shape` has in a row-major layout: the
/// product of the sizes of all later dimensions.
pub open spec fn row_major_stride(shape: Seq<usize>, i: int) -> int
    decreases shape.len() - i,
{
    if i + 1 >= shape.len() {
        1
    } else {
        shape[i + 1] * row_major_stride(shape, i + 1)
    }
}

/// `strides` is the row-major layout that `shape` implies.
pub open spec fn is_row_major(shape: Seq<usize>, strides: Seq<usize>) -> bool {
    &&& strides.len() == shape.len()
    &&& forall|i: int| 0 <= i < shape.len() ==> strides[i] == #[trigger] row_major_stride(shape, i)
}

/// The logical shape of a tensor and, for each dimension, the number of
/// buffer positions between neighbours along it.
#[derive(Debug)]
pub struct TensorStrider {
    shape: Vec<usize>,
    strides: Vec<usize>,
}

impl TensorStrider {
    #[verifier::type_invariant]
    spec fn one_stride_per_dimension(self) -> bool {
        self.shape@.len() == self.strides@.len()
    }

    /// The dimension sizes, outermost first.
    pub closed spec fn spec_shape(&self) -> Seq<usize> {
        self.shape@
    }

    /// The stride of each dimension.
    pub closed spec fn spec_strides(&self) -> Seq<usize> {
        self.strides@
    }

    /// A descriptor with the given strides, or `None` unless there is exactly
    /// one stride per dimension.
    pub fn new(shape: Vec<usize>, strides: Vec<usize>) -> (r: Option<TensorStrider>)
        ensures
            r is Some <==> shape@.len() == strides@.len(),
            r is Some ==> r->0.spec_shape() == shape@ && r->0.spec_strides() == strides@,
    {
        if shape.len() == strides.len() {
            Some(TensorStrider { shape, strides })
        } else {
            None
        }
    }

    /// The row-major descriptor of `shape`, or `None` if one of its strides
    /// does not fit in `usize`.
    pub fn contiguous(shape: Vec<usize>) -> (r: Option<TensorStrider>)
        ensures
            r is Some <==> forall|i: int| 0 <= i < shape@.len() ==> #[trigger] row_major_stride(shape@, i) <= usize::MAX,
            r is Some ==> r->0.spec_shape() == shape@ && is_row_major(shape@, r->0.spec_strides()),
    {
        let n = shape.len();
        let mut strides: Vec<usize> = Vec::new();
        let mut filled: usize = 0;
        while filled < n
            invariant
                filled <= n,
                strides@.len() == filled,
            decreases n - filled,
        {
            strides.push(1);
            filled += 1;
        }
        let mut i: usize = n;
        let mut next: usize = 1;
        while i > 0
            invariant
                n == shape@.len(),
                strides@.len() == n,
                i <= n,
                i > 0 ==> next == row_major_stride(shape@, i - 1),
                forall|j: int| i <= j < n ==> strides@[j] == #[trigger] row_major_stride(shape@, j),
            decreases i,
        {
            i -= 1;
            strides[i] = next;
            if i > 0 {
                match next.checked_mul(shape[i]) {
                    Some(product) => {
                        assert(shape@[i as int] * row_major_stride(shape@, i as int) == next * shape@[i as int]) by (nonlinear_arith)
                            requires
                                next == row_major_stride(shape@, i as int),
                        ;
                        next = product;
                    },
                    None => {
                        assert(shape@[i as int] * row_major_stride(shape@, i as int) == next * shape@[i as int]) by (nonlinear_arith)
                            requires
                                next == row_major_stride(shape@, i as int),
                        ;
                        assert(row_major_stride(shape@, i - 1) > usize::MAX);
                        return None;
                    },
                }
            }
        }
        Some(TensorStrider { shape, strides })
    }

    /// The dimension sizes, outermost first.
    pub fn shape(&self) -> (r: &[usize])
        ensures
            r@ == self.spec_shape(),
    {
        self.shape.as_slice()
    }

    /// The stride of each dimension; there are as many as dimensions.
    pub fn strides(&self) -> (r: &[usize])
        ensures
            r@ == self.spec_strides(),
            r@.len() == self.spec_shape().len(),
    {
        proof {
            use_type_invariant(self);
        }
        self.strides.as_slice()
    }

    /// Whether the strides are exactly the row-major layout of the shape.
    pub fn is_contiguous(&self) -> (r: bool)
        ensures
            r == is_row_major(self.spec_shape(), self.spec_strides()),
    {
        proof {
            use_type_invariant(self);
        }
        let n = self.shape.len();
        let mut i: usize = n;
        let mut expected: usize = 1;
        while i > 0
            invariant
                n == self.shape@.len(),
                n == self.strides@.len(),
                i <= n,
                i > 0 ==> expected == row_major_stride(self.shape@, i - 1),
                forall|j: int| i <= j < n ==> self.strides@[j] == #[trigger] row_major_stride(self.shape@, j),
            decreases i,
        {
            i -= 1;
            if self.strides[i] != expected {
                return false;
            }
            if i > 0 {
                assert(self.shape@[i as int] * row_major_stride(self.shape@, i as int) == expected * self.shape@[i as int]) by (nonlinear_arith)
                    requires
                        expected == row_major_stride(self.shape@, i as int),
                ;
                match expected.checked_mul(self.shape[i]) {
                    Some(product) => {
                        expected = product;
                    },
                    None => {
                        assert(row_major_stride(self.shape@, i - 1) > usize::MAX);
                        return false;
                    },
                }
            }
        }
        true
    }
}

} // verus!
