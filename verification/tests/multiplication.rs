use tensorlab::parallel::fill_row;
use tensorlab::Error;
use tensorlab::Tensor;

fn floats(data: &[f32], shape: &[usize]) -> Tensor<f32> {
    Tensor::new(data, shape).unwrap()
}

fn integers(data: &[i64], shape: &[usize]) -> Tensor<i64> {
    Tensor::new(data, shape).unwrap()
}

fn counted(rows: usize, cols: usize, from: i64) -> Tensor<i64> {
    let values: Vec<i64> = (0..(rows * cols) as i64).map(|v| (v * 7 + from) % 11 - 5).collect();
    Tensor::new(&values, &[rows, cols]).unwrap()
}

fn by_definition(a: &Tensor<i64>, b: &Tensor<i64>) -> Vec<i64> {
    let n = a.shape()[0];
    let k = a.shape()[1];
    let m = b.shape()[1];
    let mut out = Vec::new();
    for i in 0..n {
        for j in 0..m {
            let mut sum = 0;
            for c in 0..k {
                sum += a.data()[i * k + c] * b.data()[c * m + j];
            }
            out.push(sum);
        }
    }
    out
}

#[test]
fn every_strategy_gives_the_literal_product() {
    let a = floats(&[1., 2., 3., 4., 5., 6.], &[2, 3]);
    let b = floats(&[7., 8., 9., 1., 2., 3.], &[3, 2]);
    let expected = vec![31.0, 19.0, 85.0, 55.0];
    let by_rows = a.matmul(&b).unwrap();
    let by_cells = a.matmul_naive(&b).unwrap();
    let in_parallel = a.matmul_parallel(&b).unwrap();
    assert_eq!(by_rows.data(), &expected);
    assert_eq!(by_cells.data(), &expected);
    assert_eq!(in_parallel.data(), &expected);
    assert_eq!(by_rows.shape(), &vec![2, 2]);
    assert_eq!(by_cells.shape(), &vec![2, 2]);
    assert_eq!(in_parallel.shape(), &vec![2, 2]);
}

#[test]
fn product_has_the_rows_of_the_left_and_the_columns_of_the_right() {
    let sizes: Vec<(usize, usize, usize)> =
        vec![(1, 1, 1), (2, 3, 4), (4, 3, 2), (1, 16, 1), (16, 1, 16), (1, 1, 32), (32, 1, 1), (5, 7, 3)];
    for (n, k, m) in sizes {
        let a = counted(n, k, 1);
        let b = counted(k, m, 4);
        let expected = by_definition(&a, &b);
        for product in [a.matmul(&b).unwrap(), a.matmul_naive(&b).unwrap(), a.matmul_parallel(&b).unwrap()] {
            assert_eq!(product.shape(), &vec![n, m]);
            assert_eq!(product.data(), &expected);
        }
    }
}

#[test]
fn mismatched_inner_dimensions_are_refused() {
    let a = floats(&[1.0; 6], &[2, 3]);
    let b = floats(&[1.0; 6], &[2, 3]);
    assert_eq!(a.matmul(&b).unwrap_err(), Error::ShapeMismatchError);
    assert_eq!(a.matmul_naive(&b).unwrap_err(), Error::ShapeMismatchError);
    assert_eq!(a.matmul_parallel(&b).unwrap_err(), Error::ShapeMismatchError);
    let c = floats(&[1.0; 8], &[4, 2]);
    assert_eq!(a.matmul(&c).unwrap_err(), Error::ShapeMismatchError);
    assert_eq!(a.matmul_naive(&c).unwrap_err(), Error::ShapeMismatchError);
    assert_eq!(a.matmul_parallel(&c).unwrap_err(), Error::ShapeMismatchError);
}

#[test]
fn operands_that_are_no_matrices_are_refused() {
    let matrix = floats(&[1.0; 4], &[2, 2]);
    let line = floats(&[1.0; 2], &[2]);
    let cube = floats(&[1.0; 8], &[2, 2, 2]);
    let scalar = floats(&[1.0], &[]);
    for other in [&line, &cube, &scalar] {
        assert_eq!(matrix.matmul(other).unwrap_err(), Error::ShapeMismatchError);
        assert_eq!(other.matmul(&matrix).unwrap_err(), Error::ShapeMismatchError);
        assert_eq!(matrix.matmul_naive(other).unwrap_err(), Error::ShapeMismatchError);
        assert_eq!(other.matmul_naive(&matrix).unwrap_err(), Error::ShapeMismatchError);
        assert_eq!(matrix.matmul_parallel(other).unwrap_err(), Error::ShapeMismatchError);
        assert_eq!(other.matmul_parallel(&matrix).unwrap_err(), Error::ShapeMismatchError);
    }
}

#[test]
fn identity_leaves_the_other_operand() {
    let a = counted(3, 3, 2);
    let identity = integers(&[1, 0, 0, 0, 1, 0, 0, 0, 1], &[3, 3]);
    for product in [
        a.matmul(&identity).unwrap(),
        a.matmul_naive(&identity).unwrap(),
        a.matmul_parallel(&identity).unwrap(),
    ] {
        assert_eq!(product.data(), a.data());
        assert_eq!(product.shape(), a.shape());
    }
}

#[test]
fn identity_leaves_floats_as_they_are() {
    let a = floats(&[1.5, -2.25, 0.1, 1.0e-20, 3.0e20, -7.0, 0.3, 0.7, 9.9], &[3, 3]);
    let identity = floats(&[1., 0., 0., 0., 1., 0., 0., 0., 1.], &[3, 3]);
    assert_eq!(a.matmul(&identity).unwrap().data(), a.data());
    assert_eq!(a.matmul_naive(&identity).unwrap().data(), a.data());
    assert_eq!(a.matmul_parallel(&identity).unwrap().data(), a.data());
}

#[test]
fn zero_matrix_gives_zeros_of_the_right_shape() {
    let a = floats(&[1., 2., 3., 4., 5., 6.], &[2, 3]);
    let zeros: Tensor<f32> = Tensor::zeros(vec![3, 4]);
    for product in
        [a.matmul(&zeros).unwrap(), a.matmul_naive(&zeros).unwrap(), a.matmul_parallel(&zeros).unwrap()]
    {
        assert_eq!(product.shape(), &vec![2, 4]);
        assert_eq!(product.data(), &vec![0.0; 8]);
    }
}

#[test]
fn multiplication_is_associative_on_integers() {
    let a = counted(2, 3, 1);
    let b = counted(3, 4, 2);
    let c = counted(4, 2, 3);
    let left_first = a.matmul(&b).unwrap().matmul(&c).unwrap();
    let right_first = a.matmul(&b.matmul(&c).unwrap()).unwrap();
    assert_eq!(left_first.data(), right_first.data());
    assert_eq!(left_first.shape(), &vec![2, 2]);
    assert_eq!(right_first.shape(), &vec![2, 2]);
}

#[test]
fn multiplication_is_associative_on_floats_nearly() {
    let a = floats(&[0.5, 1.5, -2.0, 0.25, 3.0, 1.0], &[2, 3]);
    let b = floats(&[1.0, -1.0, 0.5, 2.0, 0.1, 0.2], &[3, 2]);
    let c = floats(&[0.3, 0.7, -0.9, 1.1], &[2, 2]);
    let left_first = a.matmul(&b).unwrap().matmul(&c).unwrap();
    let right_first = a.matmul(&b.matmul(&c).unwrap()).unwrap();
    for (x, y) in left_first.data().iter().zip(right_first.data().iter()) {
        assert!((x - y).abs() < 1e-5);
    }
}

#[test]
fn parallel_and_serial_agree_on_floats() {
    let sizes: Vec<(usize, usize, usize)> = vec![(3, 3, 3), (2, 5, 7), (1, 64, 1), (64, 1, 3), (17, 9, 1)];
    for (n, k, m) in sizes {
        let left: Vec<f32> = (0..n * k).map(|v| (v as f32) * 0.37 - 1.9).collect();
        let right: Vec<f32> = (0..k * m).map(|v| 2.3 - (v as f32) * 0.11).collect();
        let a = floats(&left, &[n, k]);
        let b = floats(&right, &[k, m]);
        let serial = a.matmul(&b).unwrap();
        let by_cells = a.matmul_naive(&b).unwrap();
        let parallel = a.matmul_parallel(&b).unwrap();
        assert_eq!(parallel.shape(), serial.shape());
        assert_eq!(parallel.data(), serial.data());
        assert_eq!(by_cells.data(), serial.data());
    }
}

#[test]
fn floats_are_added_in_the_order_of_the_terms() {
    let a = floats(&[1.0e8, 1.0, -1.0e8], &[1, 3]);
    let b = floats(&[1.0, 1.0, 1.0], &[3, 1]);
    let expected = ((0.0f32 + 1.0e8f32 * 1.0f32) + 1.0f32 * 1.0f32) + -1.0e8f32 * 1.0f32;
    assert_eq!(a.matmul(&b).unwrap().data(), &vec![expected]);
    assert_eq!(a.matmul_naive(&b).unwrap().data(), &vec![expected]);
    assert_eq!(a.matmul_parallel(&b).unwrap().data(), &vec![expected]);
}

#[test]
fn products_without_cells_or_without_terms() {
    let a = floats(&[], &[2, 0]);
    let b = floats(&[], &[0, 3]);
    for product in [a.matmul(&b).unwrap(), a.matmul_naive(&b).unwrap(), a.matmul_parallel(&b).unwrap()] {
        assert_eq!(product.shape(), &vec![2, 3]);
        assert_eq!(product.data(), &vec![0.0; 6]);
    }
    let c = floats(&[1.0, 2.0, 3.0, 4.0], &[2, 2]);
    let d = floats(&[], &[2, 0]);
    for product in [c.matmul(&d).unwrap(), c.matmul_naive(&d).unwrap(), c.matmul_parallel(&d).unwrap()] {
        assert_eq!(product.shape(), &vec![2, 0]);
        assert!(product.data().is_empty());
    }
    let e = floats(&[], &[0, 2]);
    for product in [e.matmul(&c).unwrap(), e.matmul_naive(&c).unwrap(), e.matmul_parallel(&c).unwrap()] {
        assert_eq!(product.shape(), &vec![0, 2]);
        assert!(product.data().is_empty());
    }
}

#[test]
fn multiplication_keeps_the_operands() {
    let a = floats(&[1., 2., 3., 4.], &[2, 2]);
    let b = floats(&[5., 6., 7., 8.], &[2, 2]);
    let _ = a.matmul(&b).unwrap();
    let _ = a.matmul_parallel(&b).unwrap();
    assert_eq!(a.data(), &vec![1., 2., 3., 4.]);
    assert_eq!(b.data(), &vec![5., 6., 7., 8.]);
}

#[test]
fn fill_row_fills_one_row_from_the_transposed_right_operand() {
    let left: Vec<i64> = vec![1, 2, 3, 4, 5, 6];
    let right_t: Vec<i64> = vec![7, 9, 2, 8, 1, 3];
    let mut first = vec![0i64; 2];
    fill_row(&mut first, 0, &left, &right_t, 3);
    assert_eq!(first, vec![31, 19]);
    let mut second = vec![0i64; 2];
    fill_row(&mut second, 1, &left, &right_t, 3);
    assert_eq!(second, vec![85, 55]);
}
