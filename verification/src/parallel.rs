//! Matrix multiplication with the rows of the product computed in parallel.
//!
//! The right operand is transposed once, so that every inner product reads
//! both operands along their rows. The buffer of the product is cut into its
//! rows, and each row is filled by a call of [`fill_row`] that reads the two
//! operands and writes that row alone. The calls share nothing that any of
//! them writes, so they need no lock.

use vstd::prelude::*;
use vstd::arithmetic::div_mod::lemma_div_by_multiple;
use vstd::arithmetic::div_mod::lemma_mod_multiples_basic;
use core::ops::Add;
use core::ops::Mul;
use rayon::iter::IndexedParallelIterator;
use rayon::iter::ParallelIterator;
use rayon::slice::ParallelSliceMut;
use crate::element::can_add;
use crate::element::can_dot;
use crate::element::can_mul;
use crate::element::dot_of;
use crate::element::is_zero;
use crate::element::lemma_dot_step;
use crate::element::product_of;
use crate::error::Error;
use crate::matmul::can_multiply;
use crate::matmul::is_product_of;
use crate::shape::chunk;
use crate::shape::lemma_product_of_two;
use crate::shape::lemma_row_in_grid;
use crate::tensor::filled;
use crate::tensor::Tensor;
use crate::tensor::TensorView;
use crate::transpose::lemma_transposed_row;
use crate::transpose::lemma_transposed_shape;

verus! {

/// What [`fill_row`] asks of row `i` of the product before it fills it:
/// every cell holds zero, the two operands hold row `i` of the left one and
/// one row of the transposed right one for each cell, and every operation of
/// the inner products may be evaluated.
pub open spec fn row_ready<T: Default + Add<Output = T> + Mul<Output = T>>(
    row: Seq<T>,
    i: int,
    left: Seq<T>,
    right_t: Seq<T>,
    k: int,
) -> bool {
    &&& 0 <= i
    &&& 0 <= k
    &&& i * k + k <= left.len()
    &&& right_t.len() == row.len() * k
    &&& forall|j: int| 0 <= j < row.len() ==> is_zero(#[trigger] row[j])
    &&& forall|j: int|
        0 <= j < row.len() ==> can_dot(chunk(left, i, k), #[trigger] chunk(right_t, j, k))
}

/// What holds of row `i` of the product when [`fill_row`] has filled it:
/// cell `j` holds a value of the inner product of row `i` of the left
/// operand and row `j` of the transposed right operand.
pub open spec fn row_filled<T: Default + Add<Output = T> + Mul<Output = T>>(
    row: Seq<T>,
    i: int,
    left: Seq<T>,
    right_t: Seq<T>,
    k: int,
) -> bool {
    forall|j: int|
        0 <= j < row.len() ==> dot_of(chunk(left, i, k), chunk(right_t, j, k), #[trigger] row[j])
}

/// Fills row `i` of a product: adds to each cell of `row` in turn, which
/// holds zero, the `k` products of the values of row `i` of `left` and of the
/// row of `right_t` that belongs to the cell.
pub fn fill_row<T: Copy + Default + Add<Output = T> + Mul<Output = T>>(
    row: &mut [T],
    i: usize,
    left: &[T],
    right_t: &[T],
    k: usize,
)
    requires
        row_ready(old(row)@, i as int, left@, right_t@, k as int),
    ensures
        final(row)@.len() == old(row)@.len(),
        row_filled(final(row)@, i as int, left@, right_t@, k as int),
{
    let m: usize = row.len();
    assert(left.len() == left@.len());
    assert(right_t.len() == m * k);
    let ghost xs = chunk(left@, i as int, k as int);
    assert(0 <= i * k <= i * k + k) by (nonlinear_arith)
        requires
            0 <= i,
            0 <= k,
    ;
    let mut j: usize = 0;
    while j < m
        invariant
            j <= m,
            row@.len() == m,
            0 <= i * k <= i * k + k <= left@.len() <= usize::MAX,
            right_t@.len() == m * k,
            m * k <= usize::MAX,
            xs == chunk(left@, i as int, k as int),
            xs.len() == k,
            forall|j: int| 0 <= j < m ==> can_dot(xs, #[trigger] chunk(right_t@, j, k as int)),
            forall|q: int| 0 <= q < j ==> dot_of(xs, chunk(right_t@, q, k as int), #[trigger] row@[q]),
            forall|q: int| j <= q < m ==> is_zero(#[trigger] row@[q]),
        decreases m - j,
    {
        let ghost ys = chunk(right_t@, j as int, k as int);
        proof {
            lemma_row_in_grid(j as int, m as int, k as int);
            assert(ys.len() == k);
            assert(xs.take(0).len() == 0);
            assert(can_dot(xs, ys));
        }
        let mut c: usize = 0;
        while c < k
            invariant
                c <= k,
                j < m,
                row@.len() == m,
                0 <= i * k <= i * k + k <= left@.len() <= usize::MAX,
                0 <= j * k <= j * k + k <= right_t@.len() <= usize::MAX,
                xs == chunk(left@, i as int, k as int),
                ys == chunk(right_t@, j as int, k as int),
                xs.len() == k,
                ys.len() == k,
                can_dot(xs, ys),
                dot_of(xs.take(c as int), ys.take(c as int), row@[j as int]),
                forall|q: int| 0 <= q < j ==> dot_of(xs, chunk(right_t@, q, k as int), #[trigger] row@[q]),
                forall|q: int| j < q < m ==> is_zero(#[trigger] row@[q]),
            decreases k - c,
        {
            let a: T = left[i * k + c];
            let b: T = right_t[j * k + c];
            let before: T = row[j];
            assert(xs[c as int] == a);
            assert(ys[c as int] == b);
            assert(can_mul(xs[c as int], ys[c as int]));
            let term: T = a * b;
            assert(product_of(xs[c as int], ys[c as int], term));
            assert(can_add(before, term));
            let total: T = before + term;
            row[j] = total;
            proof {
                lemma_dot_step(xs, ys, c as int, before, term, total);
            }
            c += 1;
        }
        assert(xs.take(k as int) =~= xs);
        assert(ys.take(k as int) =~= ys);
        j += 1;
    }
}

/// Fills every row of a product, the rows in parallel.
///
/// The body is one call chain of rayon: `par_chunks_mut(m)` cuts `out` into
/// consecutive pieces of `m` values that do not overlap, `enumerate` numbers
/// them from zero, and `for_each` runs the closure once on every numbered
/// piece and returns when all the runs have ended. The closure is one call of
/// [`fill_row`]. The contract claims this of rayon, and nothing else: where
/// the length of `out` is a multiple of `m`, the pieces are the
/// `out.len() / m` rows of `m` values, so if every row meets what `fill_row`
/// requires, then afterwards every row is as `fill_row` ensures, and `out`
/// has the length it had. `m` is not zero, since `par_chunks_mut` panics on
/// a piece size of zero.
#[verifier::external_body]
fn fill_rows_in_parallel<T: Copy + Default + Add<Output = T> + Mul<Output = T> + Send + Sync>(
    out: &mut Vec<T>,
    m: usize,
    left: &[T],
    right_t: &[T],
    k: usize,
)
    requires
        m > 0,
        old(out)@.len() as int % m as int == 0,
        forall|i: int|
            0 <= i < old(out)@.len() as int / m as int ==> row_ready(
                #[trigger] chunk(old(out)@, i, m as int),
                i,
                left@,
                right_t@,
                k as int,
            ),
    ensures
        final(out)@.len() == old(out)@.len(),
        forall|i: int|
            0 <= i < old(out)@.len() as int / m as int ==> row_filled(
                #[trigger] chunk(final(out)@, i, m as int),
                i,
                left@,
                right_t@,
                k as int,
            ),
{
    out.par_chunks_mut(m).enumerate().for_each(
        |(i, row_slice)| fill_row(row_slice, i, left, right_t, k),
    );
}

/// A buffer whose every row has been filled from the left operand and the
/// transposed right operand is a product of the two operands.
proof fn lemma_filled_rows_make_product<T: Default + Add<Output = T> + Mul<Output = T>>(
    out: Seq<T>,
    left: TensorView<T>,
    right: TensorView<T>,
)
    requires
        left.well_formed(),
        right.well_formed(),
        left.fits(right),
        out.len() == left.rows() * right.cols(),
        forall|i: int|
            0 <= i < left.rows() ==> row_filled(
                #[trigger] chunk(out, i, right.cols()),
                i,
                left.values,
                right.transposed().values,
                left.cols(),
            ),
    ensures
        is_product_of(left, right, (TensorView { values: out, shape: seq![left.shape[0], right.shape[1]] })),
{
    let product = TensorView { values: out, shape: seq![left.shape[0], right.shape[1]] };
    let k = left.cols();
    let m = right.cols();
    lemma_transposed_shape(right);
    assert forall|i: int, j: int| 0 <= i < left.rows() && 0 <= j < m implies dot_of(
        left.row(i),
        right.col(j),
        #[trigger] product.at(i, j),
    ) by {
        lemma_row_in_grid(i, left.rows(), m);
        lemma_transposed_row(right, j);
        let row = chunk(out, i, m);
        assert(row_filled(row, i, left.values, right.transposed().values, k));
        assert(row.len() == m);
        assert(row[j] == product.at(i, j));
        assert(right.transposed().row(j) == chunk(right.transposed().values, j, k));
    }
}

impl<T: Copy + Default + Add<Output = T> + Mul<Output = T> + Send + Sync> Tensor<T> {
    /// The product of two matrices, its rows computed in parallel.
    ///
    /// Fails with `ShapeMismatchError` exactly when an operand is not a
    /// matrix or the left one does not have as many columns as the right one
    /// has rows. It returns when every row has been filled. A product that
    /// has no column has no cell to fill, and no work is handed out for it.
    pub fn matmul_parallel(&self, other: &Tensor<T>) -> (result: Result<Tensor<T>, Error>)
        requires
            self@.fits(other@) ==> {
                &&& self@.rows() * other@.cols() <= usize::MAX
                &&& can_multiply(self@, other@)
            },
        ensures
            match result {
                Ok(product) => {
                    &&& self@.fits(other@)
                    &&& product@.well_formed()
                    &&& is_product_of(self@, other@, product@)
                },
                Err(error) => {
                    &&& !self@.fits(other@)
                    &&& error == Error::ShapeMismatchError
                },
            },
    {
        if self.shape().len() != 2 || other.shape().len() != 2 {
            return Err(Error::ShapeMismatchError);
        }
        if self.shape()[1] != other.shape()[0] {
            return Err(Error::ShapeMismatchError);
        }
        let n: usize = self.shape()[0];
        let k: usize = self.shape()[1];
        let m: usize = other.shape()[1];
        let other_t = other.transpose();
        let mut new_tensor_data: Vec<T> = filled(T::default(), n * m);
        proof {
            lemma_product_of_two(self@.shape);
            lemma_product_of_two(other@.shape);
            lemma_transposed_shape(other@);
        }
        if m > 0 {
            let left_values = self.data();
            let right_values = other_t.data();
            proof {
                lemma_div_by_multiple(n as int, m as int);
                lemma_mod_multiples_basic(n as int, m as int);
                assert(m * k == k * m) by (nonlinear_arith);
                assert forall|i: int| 0 <= i < n implies row_ready(
                    #[trigger] chunk(new_tensor_data@, i, m as int),
                    i,
                    left_values@,
                    right_values@,
                    k as int,
                ) by {
                    lemma_row_in_grid(i, n as int, k as int);
                    lemma_row_in_grid(i, n as int, m as int);
                    assert forall|j: int| 0 <= j < m implies can_dot(
                        chunk(left_values@, i, k as int),
                        #[trigger] chunk(right_values@, j, k as int),
                    ) by {
                        lemma_transposed_row(other@, j);
                        assert(can_dot(self@.row(i), other@.col(j)));
                        assert(other_t@.row(j) == chunk(right_values@, j, k as int));
                    }
                }
            }
            fill_rows_in_parallel(
                &mut new_tensor_data,
                m,
                left_values.as_slice(),
                right_values.as_slice(),
                k,
            );
        }
        let shape: Vec<usize> = vec![n, m];
        proof {
            assert(shape@ =~= seq![self@.shape[0], other@.shape[1]]);
            lemma_product_of_two(shape@);
            if m == 0 {
                assert(n * m == 0) by (nonlinear_arith)
                    requires
                        m == 0,
                ;
            }
            lemma_filled_rows_make_product(new_tensor_data@, self@, other@);
        }
        Ok(Tensor::from_parts(new_tensor_data, shape))
    }
}

} // verus!
