use inference_test::{
    dot_product, dot_product_2d, kahan_sum, relu, Conv2D, Data2D, Dense, Flatten, MaxPooling2D,
};

fn batch_i64(b: usize, w: usize, h: usize, c: usize, f: impl Fn(usize, usize, usize, usize) -> i64) -> Data2D<i64> {
    (0..b)
        .map(|bi| (0..w).map(|wi| (0..h).map(|hi| (0..c).map(|ci| f(bi, wi, hi, ci)).collect()).collect()).collect())
        .collect()
}

#[test]
fn kahan_sum_is_plain_sum_in_exact_arithmetic() {
    assert_eq!(kahan_sum(&[1i64, 2, 3, -10, 40], 0), 36);
    assert_eq!(kahan_sum::<i64>(&[], 0), 0);
}

#[test]
fn kahan_sum_compensates_lost_low_order_bits() {
    let mut values = vec![1.0f32];
    values.extend(std::iter::repeat(1.0e-8f32).take(1000));
    let naive: f32 = values.iter().fold(0.0, |acc, v| acc + v);
    assert_eq!(naive, 1.0);
    let compensated = kahan_sum(&values, 0.0);
    assert!(compensated > 1.0000090 && compensated < 1.0000110);
}

#[test]
fn relu_clamps_below_zero() {
    assert_eq!(relu(-3i32, 0), 0);
    assert_eq!(relu(0i32, 0), 0);
    assert_eq!(relu(7i32, 0), 7);
    assert_eq!(relu(-0.5f32, 0.0), 0.0);
    assert_eq!(relu(2.5f32, 0.0), 2.5);
}

#[test]
fn dot_product_exact_and_empty() {
    assert_eq!(dot_product(&[1i64, 2, 3], &[4i64, 5, 6], 0), 32);
    assert_eq!(dot_product::<i64>(&[], &[], 0), 0);
}

#[test]
fn dot_product_2d_is_matrix_product() {
    let a = vec![vec![1i64, 2], vec![3, 4], vec![5, 6]];
    let b = vec![vec![7i64, 8, 9, 10], vec![11, 12, 13, 14]];
    let r = dot_product_2d::<i64, 2, 3, 4>(&a, &b, 0);
    assert_eq!(
        r,
        vec![vec![29, 32, 35, 38], vec![65, 72, 79, 86], vec![101, 112, 123, 134]]
    );
}

#[test]
fn dot_product_2d_with_empty_inner_dimension() {
    let a: Vec<Vec<i64>> = vec![vec![], vec![]];
    let b: Vec<Vec<i64>> = vec![];
    let r = dot_product_2d::<i64, 0, 2, 3>(&a, &b, 0);
    assert_eq!(r, vec![vec![0, 0, 0], vec![0, 0, 0]]);
}

#[test]
fn max_pooling_is_max_of_zero_and_window() {
    // 3 x 3 image with one channel; a 2 x 2 pool keeps one window, dropping the edge.
    let input = batch_i64(1, 3, 3, 1, |_, w, h, _| (w * 3 + h) as i64 - 2);
    let r = MaxPooling2D::<2, 2>::compute(&input, 0);
    assert_eq!(r, vec![vec![vec![vec![2]]]]);
    // All pixels below zero: the pooled value is zero.
    let negative = batch_i64(1, 2, 2, 2, |_, _, _, _| -5);
    let r = MaxPooling2D::<2, 2>::compute(&negative, 0);
    assert_eq!(r, vec![vec![vec![vec![0, 0]]]]);
    // Windows smaller than the pool give an empty image.
    let small = batch_i64(2, 1, 4, 1, |_, _, h, _| h as i64);
    let r = MaxPooling2D::<2, 1>::compute(&small, 0);
    assert_eq!(r, vec![Vec::<Vec<Vec<i64>>>::new(), Vec::new()]);
}

#[test]
fn max_pooling_new_and_flatten_new() {
    let _p = MaxPooling2D::<2, 2>::new();
    let _f = Flatten::new();
}

#[test]
fn flatten_places_pixels_width_then_height_then_channel() {
    let input = batch_i64(2, 2, 3, 2, |b, w, h, c| (b * 1000 + w * 100 + h * 10 + c) as i64);
    let r = Flatten::compute(&input);
    assert_eq!(r.len(), 2);
    for b in 0..2 {
        assert_eq!(r[b].len(), 12);
        for w in 0..2 {
            for h in 0..3 {
                for c in 0..2 {
                    assert_eq!(r[b][(w * 3 + h) * 2 + c], input[b][w][h][c]);
                }
            }
        }
    }
}

#[test]
fn apply_padding_surrounds_with_zeros() {
    let img = vec![vec![vec![1i64, 10], vec![2, 20]], vec![vec![3, 30], vec![4, 40]]];
    let r = Conv2D::<i64, 0, 0, 2, 1>::apply_padding(&img, 2, 1, 0);
    assert_eq!(
        r,
        vec![vec![0, 0, 0, 0], vec![0, 10, 20, 0], vec![0, 30, 40, 0], vec![0, 0, 0, 0]]
    );
    let empty: Vec<Vec<Vec<i64>>> = vec![];
    let r = Conv2D::<i64, 0, 0, 1, 2>::apply_padding(&empty, 1, 0, 0);
    assert_eq!(r, vec![vec![0; 5]; 4]);
}

#[test]
fn apply_filter_sums_products() {
    let input = vec![vec![1i64, 2, 3], vec![4, 5, 6], vec![7, 8, 9]];
    let kernel = vec![vec![1i64, 0, -1], vec![2, 0, -2], vec![1, 0, -1]];
    let r = Conv2D::<i64, 0, 3, 0, 1>::apply_filter(&input, &kernel, 0);
    assert_eq!(r, (1 - 3) + (8 - 12) + (7 - 9));
}

#[test]
fn conv_same_padding_keeps_shape_and_sums_channels() {
    // 1 x 1 kernels: each filter is bias + weighted channel sum, then ReLU.
    let kernels = vec![vec![vec![vec![1i64, -1], vec![2, -2]]]];
    let conv = Conv2D::<i64, 2, 1, 2, 0>::new(kernels, vec![1, 3]);
    let input = batch_i64(1, 2, 3, 2, |_, w, h, c| (w + h + c) as i64);
    let r = conv.compute(&input, 0);
    assert_eq!(r.len(), 1);
    assert_eq!(r[0].len(), 2);
    for w in 0..2 {
        assert_eq!(r[0][w].len(), 3);
        for h in 0..3 {
            let x0 = (w + h) as i64;
            let x1 = x0 + 1;
            let s = x0 + 2 * x1;
            assert_eq!(r[0][w][h], vec![std::cmp::max(0, 1 + s), std::cmp::max(0, 3 - s)]);
        }
    }
}

#[test]
fn conv_three_by_three_with_padding_one() {
    // A single all-ones 3 x 3 kernel sums each pixel's neighbourhood.
    let kernels = vec![vec![vec![vec![1i64]]; 3]; 3];
    let conv = Conv2D::<i64, 1, 3, 1, 1>::new(kernels, vec![0]);
    let input = batch_i64(1, 2, 2, 1, |_, w, h, _| (1 + w * 2 + h) as i64);
    let r = conv.compute(&input, 0);
    assert_eq!(r, vec![vec![vec![vec![10], vec![10]], vec![vec![10], vec![10]]]]);
}

#[test]
fn dense_applies_bias_and_activation() {
    let dense = Dense::<i64, 2, 3>::new(vec![vec![1, 2, 3], vec![4, 5, 6]], vec![10, 20, 30]);
    let input = vec![vec![1i64, 1], vec![2, -1]];
    let r = dense.compute(&input, |x: i64| x * 2, 0);
    assert_eq!(r, vec![vec![30, 54, 78], vec![16, 38, 60]]);
}
