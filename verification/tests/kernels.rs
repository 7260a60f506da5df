use batch_matvec::{
    dot_product_f32, dot_product_f32_fallback, dot_product_f32_simd_narrow,
    dot_product_f32_simd_wide, Element, Kernel,
};

#[derive(Clone, Copy, Debug, PartialEq)]
struct F32(f32);

impl Element for F32 {
    fn zero() -> F32 {
        F32(0.0)
    }

    fn plus(self, rhs: F32) -> F32 {
        F32(self.0 + rhs.0)
    }

    fn times(self, rhs: F32) -> F32 {
        F32(self.0 * rhs.0)
    }

    fn fused(self, x: F32, y: F32) -> F32 {
        F32(x.0.mul_add(y.0, self.0))
    }
}

const KERNELS: [Kernel; 3] = [Kernel::Fallback, Kernel::SimdNarrow, Kernel::SimdWide];

fn floats(values: &[f32]) -> Vec<F32> {
    values.iter().map(|&v| F32(v)).collect()
}

/// `3^0, 3^1, ..`: a sum of these with every term taken at most twice tells
/// how often each term was taken.
fn powers_of_three(k: usize) -> Vec<i64> {
    let mut out = Vec::with_capacity(k);
    let mut p: i64 = 1;
    for _ in 0..k {
        out.push(p);
        p *= 3;
    }
    out
}

fn each_index_once(kernel: Kernel, k: usize) {
    let a = powers_of_three(k);
    let b = vec![1i64; k];
    let expected: i64 = a.iter().sum();
    assert_eq!(dot_product_f32(&a, 0, 1, k, &b, kernel), expected, "k = {}", k);

    let af: Vec<F32> = (0..k).map(|i| F32((i + 1) as f32)).collect();
    let bf: Vec<F32> = (0..k).map(|i| F32((2 * i + 1) as f32)).collect();
    let expected_f: f32 = (0..k).map(|i| ((i + 1) * (2 * i + 1)) as f32).sum();
    assert_eq!(dot_product_f32(&af, 0, 1, k, &bf, kernel), F32(expected_f), "k = {}", k);
}

#[test]
fn fallback_remainder_width_minus_one() {
    each_index_once(Kernel::Fallback, 3);
}

#[test]
fn fallback_remainder_exact_width() {
    each_index_once(Kernel::Fallback, 4);
}

#[test]
fn fallback_remainder_width_plus_one() {
    each_index_once(Kernel::Fallback, 5);
}

#[test]
fn fallback_remainder_two_widths_plus_three() {
    each_index_once(Kernel::Fallback, 11);
}

#[test]
fn narrow_remainder_width_minus_one() {
    each_index_once(Kernel::SimdNarrow, 7);
}

#[test]
fn narrow_remainder_exact_width() {
    each_index_once(Kernel::SimdNarrow, 8);
}

#[test]
fn narrow_remainder_width_plus_one() {
    each_index_once(Kernel::SimdNarrow, 9);
}

#[test]
fn narrow_remainder_two_widths_plus_three() {
    each_index_once(Kernel::SimdNarrow, 19);
}

#[test]
fn wide_remainder_width_minus_one() {
    each_index_once(Kernel::SimdWide, 7);
}

#[test]
fn wide_remainder_exact_width() {
    each_index_once(Kernel::SimdWide, 8);
}

#[test]
fn wide_remainder_width_plus_one() {
    each_index_once(Kernel::SimdWide, 9);
}

#[test]
fn wide_remainder_two_widths_plus_three() {
    each_index_once(Kernel::SimdWide, 19);
}

#[test]
fn every_length_up_to_forty_counts_each_index_once() {
    for kernel in KERNELS {
        for k in 0..=38 {
            each_index_once(kernel, k);
        }
    }
}

#[test]
fn empty_run_gives_zero() {
    let a: Vec<i64> = vec![5, 6, 7];
    let b: Vec<i64> = Vec::new();
    for kernel in KERNELS {
        assert_eq!(dot_product_f32(&a, 2, 9, 0, &b, kernel), 0);
    }
    let empty: Vec<F32> = Vec::new();
    for kernel in KERNELS {
        assert_eq!(dot_product_f32(&empty, 0, 0, 0, &empty, kernel), F32(0.0));
    }
}

#[test]
fn base_and_stride_select_the_run() {
    // a[2], a[5], a[8], a[11], a[14] against 1..=5:
    // 2*1 + 5*2 + 8*3 + 11*4 + 14*5 = 150
    let a: Vec<i64> = (0..20).collect();
    let b: Vec<i64> = vec![1, 2, 3, 4, 5];
    for kernel in KERNELS {
        assert_eq!(dot_product_f32(&a, 2, 3, 5, &b, kernel), 150);
    }
    let af: Vec<F32> = (0..20).map(|i| F32(i as f32)).collect();
    let bf = floats(&[1.0, 2.0, 3.0, 4.0, 5.0]);
    for kernel in KERNELS {
        assert_eq!(dot_product_f32(&af, 2, 3, 5, &bf, kernel), F32(150.0));
    }
}

#[test]
fn stride_zero_repeats_one_element() {
    let a: Vec<i64> = vec![0, 7, 0];
    let b: Vec<i64> = (1..=10).collect();
    for kernel in KERNELS {
        assert_eq!(dot_product_f32(&a, 1, 0, 10, &b, kernel), 7 * 55);
    }
}

#[test]
fn last_element_of_the_buffer_is_reachable() {
    // base + (k - 1) * stride == len - 1
    let a: Vec<i64> = (0..25).collect();
    let b: Vec<i64> = vec![1; 9];
    let expected: i64 = (0..9).map(|i| i * 3).sum();
    for kernel in KERNELS {
        assert_eq!(dot_product_f32(&a, 0, 3, 9, &b, kernel), expected);
    }
}

#[test]
fn variants_are_callable_directly() {
    let a: Vec<i64> = (1..=17).collect();
    let b: Vec<i64> = (1..=17).rev().collect();
    let expected: i64 = (1..=17).map(|i| i * (18 - i)).sum();
    assert_eq!(dot_product_f32_fallback(&a, 0, 1, 17, &b), expected);
    assert_eq!(dot_product_f32_simd_narrow(&a, 0, 1, 17, &b), expected);
    assert_eq!(dot_product_f32_simd_wide(&a, 0, 1, 17, &b), expected);
}

#[test]
fn integer_elements_wrap() {
    let a: Vec<i64> = vec![i64::MAX, 1];
    let b: Vec<i64> = vec![1, 1];
    for kernel in KERNELS {
        assert_eq!(dot_product_f32(&a, 0, 1, 2, &b, kernel), i64::MIN);
    }
    let c: Vec<i64> = vec![1i64 << 62];
    let d: Vec<i64> = vec![4];
    for kernel in KERNELS {
        assert_eq!(dot_product_f32(&c, 0, 1, 1, &d, kernel), 0);
    }
}

#[test]
fn integer_element_operations() {
    assert_eq!(<i64 as Element>::zero(), 0);
    assert_eq!(3i64.plus(4), 7);
    assert_eq!(3i64.times(4), 12);
    assert_eq!(3i64.fused(4, 5), 23);
    assert_eq!(i64::MAX.plus(1), i64::MIN);
    assert_eq!(i64::MIN.times(-1), i64::MIN);
    assert_eq!(i64::MAX.fused(i64::MAX, 2), i64::MAX.wrapping_add(i64::MAX.wrapping_mul(2)));
}

#[test]
fn fallback_adds_in_ascending_order() {
    // 2^24 + 1 is not a float, so the order of the additions shows:
    // ((2^24 + 1) + 1) - 2^24 == 0 here, while (2^24 - 2^24) + 1 + 1 == 2.
    let big = 16_777_216.0f32;
    let a = floats(&[big, 1.0, 1.0, -big, 0.0]);
    let b = floats(&[1.0, 1.0, 1.0, 1.0, 1.0]);
    let mut sequential = 0.0f32;
    for i in 0..5 {
        sequential += a[i].0 * b[i].0;
    }
    assert_eq!(sequential, 0.0);
    assert_eq!(dot_product_f32(&a, 0, 1, 5, &b, Kernel::Fallback), F32(0.0));
}

#[test]
fn lane_kernels_fuse_and_group_by_lane() {
    // x * y = 1 + 2^-11 + 2^-24 rounds to 1 + 2^-11 as a product of its own,
    // and keeps its last bit inside a fused multiply-add.
    let x = 1.0f32 + 2.0f32.powi(-12);
    let head = -(1.0f32 + 2.0f32.powi(-11));
    assert_eq!(x * x, -head);
    let mut a = vec![F32(0.0); 16];
    let mut b = vec![F32(0.0); 16];
    // indices 0 and 8 share a lane
    a[0] = F32(head);
    b[0] = F32(1.0);
    a[8] = F32(x);
    b[8] = F32(x);
    assert_eq!(dot_product_f32(&a, 0, 1, 16, &b, Kernel::Fallback), F32(0.0));
    assert_eq!(dot_product_f32(&a, 0, 1, 16, &b, Kernel::SimdNarrow), F32(2.0f32.powi(-24)));
    assert_eq!(dot_product_f32(&a, 0, 1, 16, &b, Kernel::SimdWide), F32(2.0f32.powi(-24)));
    // in the remainder the products are rounded before they are added
    assert_eq!(dot_product_f32(&a, 0, 8, 2, &[F32(1.0), F32(x)], Kernel::SimdNarrow), F32(0.0));
    assert_eq!(dot_product_f32(&a, 0, 8, 2, &[F32(1.0), F32(x)], Kernel::SimdWide), F32(0.0));
}

#[test]
fn narrow_reduces_pairwise_and_wide_in_lane_order() {
    // lanes: [2^24, 1, 1, 1, -2^24, 0, 0, 0]
    // pairwise: ((2^24 + 1) + (1 + 1)) + ((-2^24 + 0) + (0 + 0)) = (2^24 + 2) - 2^24 = 2
    // in order: (((2^24 + 1) + 1) + 1) - 2^24 = 0
    let big = 16_777_216.0f32;
    let a = floats(&[big, 1.0, 1.0, 1.0, -big, 0.0, 0.0, 0.0]);
    let b = floats(&[1.0; 8]);
    assert_eq!(dot_product_f32(&a, 0, 1, 8, &b, Kernel::SimdNarrow), F32(2.0));
    assert_eq!(dot_product_f32(&a, 0, 1, 8, &b, Kernel::SimdWide), F32(0.0));
}

#[test]
fn wide_sums_the_remainder_on_its_own() {
    // lanes reduce to 2^24; the remainder is 1 + 1.
    // narrow: (2^24 + 1) + 1 = 2^24; wide: 2^24 + (1 + 1) = 2^24 + 2
    let big = 16_777_216.0f32;
    let a = floats(&[big, 0.0, 0.0, 0.0, 0.0, 0.0, 0.0, 0.0, 1.0, 1.0]);
    let b = floats(&[1.0; 10]);
    assert_eq!(dot_product_f32(&a, 0, 1, 10, &b, Kernel::SimdNarrow), F32(big));
    assert_eq!(dot_product_f32(&a, 0, 1, 10, &b, Kernel::SimdWide), F32(big + 2.0));
}

#[test]
fn variants_agree_within_tolerance() {
    let k = 4099;
    let mut state: u32 = 12345;
    let mut next = move || {
        state = state.wrapping_mul(1_664_525).wrapping_add(1_013_904_223);
        ((state >> 8) as f32) / 16_777_216.0 - 0.5
    };
    let a: Vec<F32> = (0..k * 2).map(|_| F32(next())).collect();
    let b: Vec<F32> = (0..k).map(|_| F32(next())).collect();
    let mut reference = 0.0f64;
    let mut magnitude = 0.0f64;
    for i in 0..k {
        let p = a[1 + 2 * i].0 as f64 * b[i].0 as f64;
        reference += p;
        magnitude += p.abs();
    }
    for kernel in KERNELS {
        let got = dot_product_f32(&a, 1, 2, k, &b, kernel).0 as f64;
        assert!((got - reference).abs() <= 1e-5 * magnitude, "{:?}: {} vs {}", kernel, got, reference);
    }
}

#[test]
fn integer_result_is_the_integer_dot_product_wrapped() {
    let mut state: u64 = 0x9E37_79B9_7F4A_7C15;
    let mut next = move || {
        state ^= state << 13;
        state ^= state >> 7;
        state ^= state << 17;
        state as i64
    };
    for k in [0usize, 1, 7, 8, 9, 31, 100] {
        let a: Vec<i64> = (0..k).map(|_| next()).collect();
        let b: Vec<i64> = (0..k).map(|_| next()).collect();
        // the sum over the integers, kept modulo 2^128, then cut to 64 bits
        let mut exact: i128 = 0;
        for i in 0..k {
            exact = exact.wrapping_add(a[i] as i128 * b[i] as i128);
        }
        for kernel in KERNELS {
            assert_eq!(dot_product_f32(&a, 0, 1, k, &b, kernel), exact as i64, "k = {}", k);
        }
    }
    // 3 * 5 + (-7) * 11 over the integers
    assert_eq!(dot_product_f32(&[3i64, -7], 0, 1, 2, &[5i64, 11], Kernel::SimdWide), -62);
}
