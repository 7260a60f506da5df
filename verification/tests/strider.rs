use batch_matvec::{split_index, TensorStrider};

#[test]
fn new_keeps_shape_and_strides() {
    let s = TensorStrider::new(vec![2, 3, 4], vec![12, 1, 3]).unwrap();
    assert_eq!(s.shape(), &[2, 3, 4]);
    assert_eq!(s.strides(), &[12, 1, 3]);
}

#[test]
fn new_wants_one_stride_per_dimension() {
    assert!(TensorStrider::new(vec![2, 3, 4], vec![12, 4]).is_none());
    assert!(TensorStrider::new(vec![2, 3], vec![12, 4, 1]).is_none());
    assert!(TensorStrider::new(vec![], vec![1]).is_none());
    assert!(TensorStrider::new(vec![], vec![]).is_some());
}

#[test]
fn contiguous_computes_row_major_strides() {
    let s = TensorStrider::contiguous(vec![2, 3, 4]).unwrap();
    assert_eq!(s.shape(), &[2, 3, 4]);
    assert_eq!(s.strides(), &[12, 4, 1]);
    assert!(s.is_contiguous());

    let v = TensorStrider::contiguous(vec![64, 4096]).unwrap();
    assert_eq!(v.strides(), &[4096, 1]);

    let one = TensorStrider::contiguous(vec![7]).unwrap();
    assert_eq!(one.strides(), &[1]);

    let none = TensorStrider::contiguous(vec![]).unwrap();
    assert_eq!(none.strides(), &[] as &[usize]);
    assert!(none.is_contiguous());
}

#[test]
fn contiguous_with_an_empty_dimension() {
    let s = TensorStrider::contiguous(vec![5, 0, 3]).unwrap();
    assert_eq!(s.strides(), &[0, 3, 1]);
    assert!(s.is_contiguous());
}

#[test]
fn contiguous_refuses_a_stride_too_large() {
    assert!(TensorStrider::contiguous(vec![1, usize::MAX, 2]).is_none());
    assert!(TensorStrider::contiguous(vec![2, usize::MAX / 2 + 1, 2]).is_none());
    // the outermost size takes part in no stride
    let s = TensorStrider::contiguous(vec![usize::MAX, usize::MAX, 1]).unwrap();
    assert_eq!(s.strides(), &[usize::MAX, 1, 1]);
}

#[test]
fn is_contiguous_compares_every_stride() {
    let cases: [(Vec<usize>, Vec<usize>, bool); 9] = [
        (vec![2, 3, 4], vec![12, 4, 1], true),
        (vec![2, 3, 4], vec![12, 1, 3], false),
        (vec![2, 3, 4], vec![1, 8, 2], false),
        (vec![2, 3, 4], vec![12, 4, 2], false),
        (vec![2, 3, 4], vec![13, 4, 1], false),
        (vec![2, 4], vec![4, 1], true),
        (vec![2, 4], vec![1, 2], false),
        (vec![2, 4], vec![8, 1], false),
        (vec![1, 1], vec![1, 1], true),
    ];
    for (shape, strides, expected) in cases {
        let s = TensorStrider::new(shape.clone(), strides.clone()).unwrap();
        assert_eq!(s.is_contiguous(), expected, "{:?} {:?}", shape, strides);
    }
}

#[test]
fn is_contiguous_when_the_layout_overflows() {
    // the row-major stride of the first dimension would be 2 * usize::MAX
    let s = TensorStrider::new(vec![1, usize::MAX, 2], vec![usize::MAX - 1, 2, 1]).unwrap();
    assert!(!s.is_contiguous());
}

#[test]
fn split_index_formula() {
    assert_eq!(split_index(0, 3), (0, 0));
    assert_eq!(split_index(2, 3), (0, 2));
    assert_eq!(split_index(3, 3), (1, 0));
    assert_eq!(split_index(5, 3), (1, 2));
    assert_eq!(split_index(8191, 128), (63, 127));
    assert_eq!(split_index(usize::MAX, 1), (usize::MAX, 0));
    assert_eq!(split_index(usize::MAX, usize::MAX), (1, 0));
}

#[test]
fn split_index_covers_every_pair_once() {
    let (batch, rows) = (5usize, 7usize);
    let mut seen = vec![false; batch * rows];
    for i in 0..batch * rows {
        let (bi, mi) = split_index(i, rows);
        assert!(bi < batch && mi < rows);
        assert_eq!(bi * rows + mi, i);
        assert!(!seen[bi * rows + mi]);
        seen[bi * rows + mi] = true;
    }
    assert!(seen.iter().all(|&s| s));
}
