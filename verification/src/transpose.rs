//! The transpose of a matrix.

use vstd::prelude::*;
use crate::shape::lemma_position_in_grid;
use crate::shape::lemma_position_splits;
use crate::shape::lemma_product_of_two;
use crate::shape::lemma_row_in_grid;
use crate::tensor::Tensor;
use crate::tensor::TensorView;

verus! {

impl<T> TensorView<T> {
    /// The matrix with rows and columns exchanged: its value at row `j` and
    /// column `i` is the value of this one at row `i` and column `j`.
    pub open spec fn transposed(self) -> TensorView<T>
        recommends
            self.is_matrix(),
    {
        TensorView {
            values: Seq::new(
                (self.rows() * self.cols()) as nat,
                |p: int| self.at(p % self.rows(), p / self.rows()),
            ),
            shape: seq![self.shape[1], self.shape[0]],
        }
    }
}

/// The transpose of a matrix is a matrix of as many values, with the numbers
/// of rows and columns exchanged.
pub proof fn lemma_transposed_shape<T>(matrix: TensorView<T>)
    requires
        matrix.well_formed(),
        matrix.is_matrix(),
    ensures
        matrix.transposed().well_formed(),
        matrix.transposed().is_matrix(),
        matrix.transposed().rows() == matrix.cols(),
        matrix.transposed().cols() == matrix.rows(),
        matrix.transposed().values.len() == matrix.values.len(),
{
    lemma_product_of_two(matrix.shape);
    lemma_product_of_two(matrix.transposed().shape);
    assert(matrix.rows() * matrix.cols() == matrix.cols() * matrix.rows()) by (nonlinear_arith);
}

/// The value at row `j` and column `i` of the transpose is the value at row
/// `i` and column `j` of the matrix: `values[j * rows + i]` of the one is
/// `values[i * cols + j]` of the other.
pub proof fn lemma_transposed_at<T>(matrix: TensorView<T>, i: int, j: int)
    requires
        matrix.well_formed(),
        matrix.is_matrix(),
        0 <= i < matrix.rows(),
        0 <= j < matrix.cols(),
    ensures
        0 <= j * matrix.rows() + i < matrix.values.len(),
        0 <= i * matrix.cols() + j < matrix.values.len(),
        matrix.transposed().values[j * matrix.rows() + i] == matrix.values[i * matrix.cols() + j],
        matrix.transposed().at(j, i) == matrix.at(i, j),
{
    lemma_transposed_shape(matrix);
    lemma_product_of_two(matrix.shape);
    lemma_position_in_grid(j, i, matrix.cols(), matrix.rows());
    lemma_position_in_grid(i, j, matrix.rows(), matrix.cols());
    lemma_position_splits(j, i, matrix.rows());
    assert(matrix.rows() * matrix.cols() == matrix.cols() * matrix.rows()) by (nonlinear_arith);
}

/// Row `j` of the transpose is column `j` of the matrix.
pub proof fn lemma_transposed_row<T>(matrix: TensorView<T>, j: int)
    requires
        matrix.well_formed(),
        matrix.is_matrix(),
        0 <= j < matrix.cols(),
    ensures
        matrix.transposed().row(j) == matrix.col(j),
{
    let flipped = matrix.transposed();
    let rows = matrix.rows();
    lemma_transposed_shape(matrix);
    lemma_product_of_two(matrix.shape);
    lemma_row_in_grid(j, matrix.cols(), rows);
    assert(flipped.row(j).len() == rows);
    assert forall|i: int| 0 <= i < rows implies flipped.row(j)[i] == matrix.col(j)[i] by {
        lemma_transposed_at(matrix, i, j);
    }
    assert(flipped.row(j) =~= matrix.col(j));
}

impl<T: Copy> Tensor<T> {
    /// The transpose of a matrix, in a buffer of its own.
    pub fn transpose(&self) -> (flipped: Tensor<T>)
        requires
            self@.is_matrix(),
        ensures
            flipped@ == self@.transposed(),
            flipped@.well_formed(),
            flipped@.shape == seq![self@.shape[1], self@.shape[0]],
            forall|i: int, j: int|
                0 <= i < self@.rows() && 0 <= j < self@.cols() ==> flipped@.at(j, i)
                    == #[trigger] self@.at(i, j),
    {
        let values = self.data();
        let shape = self.shape();
        let rows: usize = shape[0];
        let cols: usize = shape[1];
        proof {
            lemma_product_of_two(self@.shape);
            lemma_transposed_shape(self@);
        }
        let mut new_tensor_data: Vec<T> = Vec::with_capacity(values.len());
        let mut j: usize = 0;
        while j < cols
            invariant
                j <= cols,
                values@ == self@.values,
                values@.len() == rows * cols,
                rows * cols <= usize::MAX,
                new_tensor_data@.len() == j * rows,
                forall|p: int|
                    0 <= p < j * rows ==> #[trigger] new_tensor_data@[p] == values@[(p % (
                    rows as int)) * cols + p / (rows as int)],
            decreases cols - j,
        {
            let mut i: usize = 0;
            while i < rows
                invariant
                    i <= rows,
                    j < cols,
                    values@ == self@.values,
                    values@.len() == rows * cols,
                rows * cols <= usize::MAX,
                    new_tensor_data@.len() == j * rows + i,
                    forall|p: int|
                        0 <= p < j * rows + i ==> #[trigger] new_tensor_data@[p] == values@[(p % (
                        rows as int)) * cols + p / (rows as int)],
                decreases rows - i,
            {
                proof {
                    lemma_position_in_grid(i as int, j as int, rows as int, cols as int);
                    lemma_position_splits(j as int, i as int, rows as int);
                }
                new_tensor_data.push(values[i * cols + j]);
                i += 1;
            }
            assert(j * rows + rows == (j + 1) * rows) by (nonlinear_arith);
            j += 1;
        }
        assert(cols * rows == rows * cols) by (nonlinear_arith);
        let flipped_shape: Vec<usize> = vec![cols, rows];
        assert(flipped_shape@ =~= seq![self@.shape[1], self@.shape[0]]);
        assert(new_tensor_data@ =~= self@.transposed().values);
        proof {
            assert forall|i: int, j: int| 0 <= i < self@.rows() && 0 <= j < self@.cols() implies self@.transposed().at(
                j,
                i,
            ) == #[trigger] self@.at(i, j) by {
                lemma_transposed_at(self@, i, j);
            }
        }
        Tensor::from_parts(new_tensor_data, flipped_shape)
    }
}

} // verus!
