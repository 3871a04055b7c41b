use tensorlab::Tensor;

#[test]
fn transpose_moves_each_value_to_its_place() {
    let rows: usize = 3;
    let cols: usize = 4;
    let values: Vec<i64> = (0..12).collect();
    let t: Tensor<i64> = Tensor::new(&values, &[rows, cols]).unwrap();
    let flipped = t.transpose();
    assert_eq!(flipped.shape(), &vec![cols, rows]);
    for i in 0..rows {
        for j in 0..cols {
            assert_eq!(flipped.data()[j * rows + i], t.data()[i * cols + j]);
            assert_eq!(flipped.get_value(&[j, i]), t.get_value(&[i, j]));
        }
    }
}

#[test]
fn transpose_twice_gives_the_matrix_back() {
    let shapes: Vec<[usize; 2]> = vec![[1, 1], [1, 7], [7, 1], [3, 5], [5, 3], [4, 4], [0, 3], [3, 0]];
    for shape in shapes {
        let values: Vec<f32> = (0..shape[0] * shape[1]).map(|v| v as f32 * 0.5).collect();
        let t: Tensor<f32> = Tensor::new(&values, &shape).unwrap();
        let back = t.transpose().transpose();
        assert_eq!(back.data(), t.data());
        assert_eq!(back.shape(), t.shape());
    }
}

#[test]
fn transpose_of_an_empty_matrix() {
    let t: Tensor<f32> = Tensor::new(&[], &[0, 4]).unwrap();
    let flipped = t.transpose();
    assert_eq!(flipped.shape(), &vec![4, 0]);
    assert!(flipped.data().is_empty());
}

#[test]
fn transpose_leaves_the_matrix_as_it_was() {
    let t: Tensor<f32> = Tensor::new(&[1.0, 2.0, 3.0, 4.0, 5.0, 6.0], &[2, 3]).unwrap();
    let _ = t.transpose();
    assert_eq!(t.data(), &vec![1.0, 2.0, 3.0, 4.0, 5.0, 6.0]);
    assert_eq!(t.shape(), &vec![2, 3]);
}
