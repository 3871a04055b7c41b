use tensorlab::Error;
use tensorlab::Tensor;

fn floats(data: &[f32], shape: &[usize]) -> Tensor<f32> {
    Tensor::new(data, shape).unwrap()
}

fn integers(data: &[i64], shape: &[usize]) -> Tensor<i64> {
    Tensor::new(data, shape).unwrap()
}

#[test]
fn add_by_name_gives_the_pairwise_sums() {
    let a = floats(&[1.0, 2.0, 3.0, 4.0], &[2, 2]);
    let b = floats(&[5.0, 6.0, 7.0, 8.0], &[2, 2]);
    let sum = a.add(&b).unwrap();
    assert_eq!(sum.data(), &vec![6.0, 8.0, 10.0, 12.0]);
    assert_eq!(sum.shape(), &vec![2, 2]);
}

#[test]
fn sub_by_name_gives_the_pairwise_differences() {
    let a = floats(&[10.0, 20.0], &[1, 2]);
    let b = floats(&[1.0, 2.0], &[1, 2]);
    let difference = a.sub(&b).unwrap();
    assert_eq!(difference.data(), &vec![9.0, 18.0]);
    assert_eq!(difference.shape(), &vec![1, 2]);
}

#[test]
fn mul_by_name_gives_the_pairwise_products() {
    let a = floats(&[2.0, 3.0], &[1, 2]);
    let b = floats(&[4.0, 5.0], &[1, 2]);
    let product = a.mul(&b).unwrap();
    assert_eq!(product.data(), &vec![8.0, 15.0]);
    assert_eq!(product.shape(), &vec![1, 2]);
}

#[test]
fn elementwise_operations_refuse_shapes_that_differ() {
    let a = floats(&[1.0, 2.0, 3.0, 4.0, 5.0, 6.0], &[2, 3]);
    let b = floats(&[1.0, 2.0, 3.0, 4.0, 5.0, 6.0], &[3, 2]);
    let c = floats(&[1.0, 2.0, 3.0, 4.0, 5.0, 6.0], &[6]);
    assert_eq!(a.add(&b).unwrap_err(), Error::ShapeMismatchError);
    assert_eq!(a.sub(&b).unwrap_err(), Error::ShapeMismatchError);
    assert_eq!(a.mul(&b).unwrap_err(), Error::ShapeMismatchError);
    assert_eq!(a.add(&c).unwrap_err(), Error::ShapeMismatchError);
    assert_eq!((&a + &b).unwrap_err(), Error::ShapeMismatchError);
    assert_eq!((&a - &b).unwrap_err(), Error::ShapeMismatchError);
    assert_eq!((&a * &b).unwrap_err(), Error::ShapeMismatchError);
}

#[test]
fn elementwise_operations_keep_the_operands() {
    let a = floats(&[1.0, 2.0], &[2]);
    let b = floats(&[3.0, 4.0], &[2]);
    let _ = a.add(&b).unwrap();
    let _ = a.mul_scalar(3.0);
    assert_eq!(a.data(), &vec![1.0, 2.0]);
    assert_eq!(b.data(), &vec![3.0, 4.0]);
}

#[test]
fn elementwise_operations_on_any_rank() {
    let a = integers(&[1, 2, 3, 4, 5, 6, 7, 8], &[2, 2, 2]);
    let b = integers(&[8, 7, 6, 5, 4, 3, 2, 1], &[2, 2, 2]);
    assert_eq!(a.add(&b).unwrap().data(), &vec![9; 8]);
    assert_eq!(a.sub(&b).unwrap().data(), &vec![-7, -5, -3, -1, 1, 3, 5, 7]);
    assert_eq!(a.mul(&b).unwrap().data(), &vec![8, 14, 18, 20, 20, 18, 14, 8]);
    assert_eq!(a.add(&b).unwrap().shape(), &vec![2, 2, 2]);
}

#[test]
fn mul_scalar_keeps_the_shape() {
    let a = integers(&[1, -2, 3, -4, 5, -6], &[3, 2]);
    let scaled = a.mul_scalar(-3);
    assert_eq!(scaled.data(), &vec![-3, 6, -9, 12, -15, 18]);
    assert_eq!(scaled.shape(), &vec![3, 2]);
}

#[test]
fn mul_scalar_of_an_empty_tensor() {
    let a = floats(&[], &[0, 5]);
    let scaled = a.mul_scalar(2.0);
    assert!(scaled.data().is_empty());
    assert_eq!(scaled.shape(), &vec![0, 5]);
}

#[test]
fn adding_then_subtracting_gives_the_first_back() {
    let a = integers(&[1, -20, 300, -4000, 50000, -600000], &[2, 3]);
    let b = integers(&[7, 11, -13, 17, -19, 23], &[2, 3]);
    let back = a.add(&b).unwrap().sub(&b).unwrap();
    assert_eq!(back.data(), a.data());
    assert_eq!(back.shape(), a.shape());
}

#[test]
fn adding_then_subtracting_floats_gives_the_first_back_nearly() {
    let a = floats(&[1.5, -2.25, 3.125, 0.1], &[2, 2]);
    let b = floats(&[0.3, 0.7, -1.1, 2.9], &[2, 2]);
    let back = a.add(&b).unwrap().sub(&b).unwrap();
    assert_eq!(back.shape(), a.shape());
    for (x, y) in back.data().iter().zip(a.data().iter()) {
        assert!((x - y).abs() < 1e-6);
    }
}

#[test]
fn float_sums_are_taken_in_the_order_of_the_buffer() {
    let a = floats(&[1.0e8, 1.0, -1.0e8], &[3]);
    let b = floats(&[1.0, 1.0e8, 1.0], &[3]);
    let sum = a.add(&b).unwrap();
    assert_eq!(sum.data()[0], 1.0e8f32 + 1.0f32);
    assert_eq!(sum.data()[1], 1.0f32 + 1.0e8f32);
    assert_eq!(sum.data()[2], -1.0e8f32 + 1.0f32);
}
