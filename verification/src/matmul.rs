//! Matrix multiplication.
//!
//! Every strategy gives, for the cell at row `i` and column `j` of the
//! product, the inner product of row `i` of the left operand and column `j`
//! of the right one, accumulated from the left starting from zero. The
//! strategies differ in the order in which they visit the cells and the
//! memory, not in the order of the additions of any one cell.

use vstd::prelude::*;
use core::ops::Add;
use core::ops::Mul;
use crate::element::can_add;
use crate::element::can_dot;
use crate::element::can_mul;
use crate::element::dot_of;
use crate::element::is_zero;
use crate::element::lemma_dot_step;
use crate::element::product_of;
use crate::error::Error;
use crate::shape::lemma_position_in_grid;
use crate::shape::lemma_row_in_grid;
use crate::shape::lemma_rows_in_order;
use crate::shape::lemma_product_of_two;
use crate::tensor::filled;
use crate::tensor::Tensor;
use crate::tensor::TensorView;

verus! {

impl<T> TensorView<T> {
    /// This tensor can be multiplied by `right`: both are matrices, and this
    /// one has as many columns as `right` has rows.
    pub open spec fn fits(self, right: TensorView<T>) -> bool {
        &&& self.is_matrix()
        &&& right.is_matrix()
        &&& self.cols() == right.rows()
    }
}

/// Every operation on elements that multiplying `left` by `right` performs
/// may be evaluated.
pub open spec fn can_multiply<T: Default + Add<Output = T> + Mul<Output = T>>(
    left: TensorView<T>,
    right: TensorView<T>,
) -> bool
    recommends
        left.fits(right),
{
    forall|i: int, j: int|
        0 <= i < left.rows() && 0 <= j < right.cols() ==> can_dot(
            #[trigger] left.row(i),
            #[trigger] right.col(j),
        )
}

/// `product` is a matrix that multiplying `left` by `right` may give: it has
/// the rows of `left` and the columns of `right`, and its value at row `i`
/// and column `j` is a value of the inner product of row `i` of `left` and
/// column `j` of `right`.
pub open spec fn is_product_of<T: Default + Add<Output = T> + Mul<Output = T>>(
    left: TensorView<T>,
    right: TensorView<T>,
    product: TensorView<T>,
) -> bool
    recommends
        left.fits(right),
{
    &&& product.shape == seq![left.shape[0], right.shape[1]]
    &&& product.values.len() == left.rows() * right.cols()
    &&& forall|i: int, j: int|
        0 <= i < left.rows() && 0 <= j < right.cols() ==> dot_of(
            left.row(i),
            right.col(j),
            #[trigger] product.at(i, j),
        )
}

/// The cells of row `i` of the product of `left` and `right`, which `out`
/// holds from position `i * cols` on, each hold a value of the inner product
/// of the first `terms` terms of their row of `left` and column of `right`.
pub open spec fn row_accumulated<T: Default + Add<Output = T> + Mul<Output = T>>(
    out: Seq<T>,
    left: TensorView<T>,
    right: TensorView<T>,
    i: int,
    terms: int,
) -> bool {
    forall|p: int|
        i * right.cols() <= p < i * right.cols() + right.cols() ==> dot_of(
            left.row(i).take(terms),
            right.col(p - i * right.cols()).take(terms),
            #[trigger] out[p],
        )
}

/// Adds to the cells of row `i` of `out`, which hold zero, the products of
/// row `i` of `left` and the columns of `right`: for each term of the inner
/// products in turn, to every cell of the row.
fn accumulate_row<T: Copy + Default + Add<Output = T> + Mul<Output = T>>(
    out: &mut Vec<T>,
    i: usize,
    left: &Tensor<T>,
    right: &Tensor<T>,
)
    requires
        left@.fits(right@),
        i < left@.rows(),
        old(out)@.len() == left@.rows() * right@.cols(),
        forall|p: int|
            i * right@.cols() <= p < i * right@.cols() + right@.cols() ==> is_zero(
                #[trigger] old(out)@[p],
            ),
        forall|j: int| 0 <= j < right@.cols() ==> can_dot(left@.row(i as int), #[trigger] right@.col(j)),
    ensures
        final(out)@.len() == old(out)@.len(),
        forall|p: int|
            0 <= p < i * right@.cols() || i * right@.cols() + right@.cols() <= p < old(out)@.len()
                ==> final(out)@[p] == old(out)@[p],
        row_accumulated(final(out)@, left@, right@, i as int, left@.cols()),
{
    let left_values = left.data();
    let right_values = right.data();
    let n: usize = left.shape()[0];
    let k: usize = left.shape()[1];
    let m: usize = right.shape()[1];
    let ghost before_all = out@;
    let ghost xs = left@.row(i as int);
    proof {
        lemma_product_of_two(left@.shape);
        lemma_product_of_two(right@.shape);
        lemma_row_in_grid(i as int, n as int, m as int);
        assert forall|p: int| i * m <= p < i * m + m implies dot_of(
            xs.take(0),
            right@.col(p - i * m).take(0),
            #[trigger] out@[p],
        ) by {
            assert(xs.take(0).len() == 0);
        }
    }
    assert(out.len() == n * m);
    assert(left_values.len() == n * k);
    assert(right_values.len() == k * m);
    let base: usize = i * m;
    let mut c: usize = 0;
    while c < k
        invariant
            c <= k,
            left@.fits(right@),
            n == left@.rows(),
            k == left@.cols(),
            m == right@.cols(),
            i < n,
            base == i * m,
            base + m <= n * m,
            left_values@ == left@.values,
            right_values@ == right@.values,
            left_values@.len() == n * k,
            right_values@.len() == k * m,
            n * k <= usize::MAX,
            k * m <= usize::MAX,
            n * m <= usize::MAX,
            xs == left@.row(i as int),
            out@.len() == before_all.len(),
            out@.len() == n * m,
            forall|p: int| 0 <= p < base || base + m <= p < n * m ==> out@[p] == before_all[p],
            forall|j: int| 0 <= j < m ==> can_dot(xs, #[trigger] right@.col(j)),
            row_accumulated(out@, left@, right@, i as int, c as int),
        decreases k - c,
    {
        proof {
            lemma_row_in_grid(i as int, n as int, k as int);
            lemma_position_in_grid(i as int, c as int, n as int, k as int);
            assert(xs.len() == k);
            assert(xs[c as int] == left_values@[i * k + c]);
        }
        let a: T = left_values[i * k + c];
        let mut j: usize = 0;
        while j < m
            invariant
                j <= m,
                c < k,
                left@.fits(right@),
                n == left@.rows(),
                k == left@.cols(),
                m == right@.cols(),
                i < n,
                base == i * m,
                base + m <= n * m,
                right_values@ == right@.values,
                right_values@.len() == k * m,
                k * m <= usize::MAX,
                n * m <= usize::MAX,
                xs == left@.row(i as int),
                xs.len() == k,
                a == xs[c as int],
                out@.len() == before_all.len(),
                out@.len() == n * m,
                forall|p: int| 0 <= p < base || base + m <= p < n * m ==> out@[p] == before_all[p],
                forall|j: int| 0 <= j < m ==> can_dot(xs, #[trigger] right@.col(j)),
                forall|p: int|
                    base <= p < base + j ==> dot_of(
                        xs.take(c + 1),
                        right@.col(p - base).take(c + 1),
                        #[trigger] out@[p],
                    ),
                forall|p: int|
                    base + j <= p < base + m ==> dot_of(
                        xs.take(c as int),
                        right@.col(p - base).take(c as int),
                        #[trigger] out@[p],
                    ),
            decreases m - j,
        {
            proof {
                lemma_position_in_grid(c as int, j as int, k as int, m as int);
            }
            let b: T = right_values[c * m + j];
            let ghost ys = right@.col(j as int);
            let before: T = out[base + j];
            assert(ys[c as int] == b);
            assert(can_dot(xs, ys));
            assert(can_mul(xs[c as int], ys[c as int]));
            let term: T = a * b;
            assert(product_of(xs[c as int], ys[c as int], term));
            assert(dot_of(xs.take(c as int), ys.take(c as int), before));
            assert(can_add(before, term));
            let total: T = before + term;
            out.set(base + j, total);
            proof {
                lemma_dot_step(xs, ys, c as int, before, term, total);
            }
            j += 1;
        }
        c += 1;
    }
}

/// A buffer whose every row holds values of the inner products of its row of
/// `left` and the columns of `right` is a product of `left` and `right`.
proof fn lemma_rows_make_product<T: Default + Add<Output = T> + Mul<Output = T>>(
    out: Seq<T>,
    left: TensorView<T>,
    right: TensorView<T>,
)
    requires
        left.well_formed(),
        right.well_formed(),
        left.fits(right),
        out.len() == left.rows() * right.cols(),
        forall|i: int|
            0 <= i < left.rows() ==> #[trigger] row_accumulated(out, left, right, i, left.cols()),
    ensures
        is_product_of(left, right, (TensorView { values: out, shape: seq![left.shape[0], right.shape[1]] })),
{
    let product = TensorView { values: out, shape: seq![left.shape[0], right.shape[1]] };
    let k = left.cols();
    let m = right.cols();
    lemma_product_of_two(left.shape);
    lemma_product_of_two(right.shape);
    assert forall|i: int, j: int| 0 <= i < left.rows() && 0 <= j < m implies dot_of(
        left.row(i),
        right.col(j),
        #[trigger] product.at(i, j),
    ) by {
        lemma_row_in_grid(i, left.rows(), k);
        assert(row_accumulated(out, left, right, i, k));
        let p = i * m + j;
        assert(product.at(i, j) == out[p]);
        assert(left.row(i).take(k) =~= left.row(i));
        assert(right.col(p - i * m).take(k) =~= right.col(j));
    }
}

impl<T: Copy + Default + Add<Output = T> + Mul<Output = T>> Tensor<T> {
    /// The product of two matrices.
    ///
    /// Fails with `ShapeMismatchError` exactly when an operand is not a
    /// matrix or the left one does not have as many columns as the right one
    /// has rows. It visits the cells row by row and, within a row, adds one
    /// term to every cell before it goes on to the next term, so that it reads
    /// the right operand and writes the output along their rows.
    pub fn matmul(&self, other_tensor: &Tensor<T>) -> (result: Result<Tensor<T>, Error>)
        requires
            self@.fits(other_tensor@) ==> {
                &&& self@.rows() * other_tensor@.cols() <= usize::MAX
                &&& can_multiply(self@, other_tensor@)
            },
        ensures
            match result {
                Ok(product) => {
                    &&& self@.fits(other_tensor@)
                    &&& product@.well_formed()
                    &&& is_product_of(self@, other_tensor@, product@)
                },
                Err(error) => {
                    &&& !self@.fits(other_tensor@)
                    &&& error == Error::ShapeMismatchError
                },
            },
    {
        if self.shape().len() != 2 || other_tensor.shape().len() != 2 {
            return Err(Error::ShapeMismatchError);
        }
        if self.shape()[1] != other_tensor.shape()[0] {
            return Err(Error::ShapeMismatchError);
        }
        let n: usize = self.shape()[0];
        let m: usize = other_tensor.shape()[1];
        let mut new_tensor_data: Vec<T> = filled(T::default(), n * m);
        let mut i: usize = 0;
        while i < n
            invariant
                i <= n,
                self@.fits(other_tensor@),
                self@.well_formed(),
                other_tensor@.well_formed(),
                n == self@.rows(),
                m == other_tensor@.cols(),
                n * m <= usize::MAX,
                can_multiply(self@, other_tensor@),
                new_tensor_data@.len() == n * m,
                forall|r: int|
                    0 <= r < i ==> #[trigger] row_accumulated(
                        new_tensor_data@,
                        self@,
                        other_tensor@,
                        r,
                        self@.cols(),
                    ),
                forall|p: int| i * m <= p < n * m ==> is_zero(#[trigger] new_tensor_data@[p]),
            decreases n - i,
        {
            let ghost before = new_tensor_data@;
            proof {
                lemma_row_in_grid(i as int, n as int, m as int);
                assert forall|j: int| 0 <= j < m implies can_dot(
                    self@.row(i as int),
                    #[trigger] other_tensor@.col(j),
                ) by {
                }
            }
            accumulate_row(&mut new_tensor_data, i, self, other_tensor);
            proof {
                assert forall|r: int| 0 <= r < i implies #[trigger] row_accumulated(
                    new_tensor_data@,
                    self@,
                    other_tensor@,
                    r,
                    self@.cols(),
                ) by {
                    lemma_rows_in_order(r, i as int, m as int);
                    assert(row_accumulated(before, self@, other_tensor@, r, self@.cols()));
                }
                assert((i + 1) * m == i * m + m) by (nonlinear_arith);
            }
            i += 1;
        }
        let shape: Vec<usize> = vec![n, m];
        proof {
            assert(shape@ =~= seq![self@.shape[0], other_tensor@.shape[1]]);
            lemma_product_of_two(shape@);
            lemma_rows_make_product(new_tensor_data@, self@, other_tensor@);
        }
        Ok(Tensor::from_parts(new_tensor_data, shape))
    }
}

/// A value of the inner product of row `i` of `left` and column `j` of
/// `right`, accumulated in a local sum: walks along the row of `left` and
/// down the column of `right`, with a stride of one row.
fn inner_product<T: Copy + Default + Add<Output = T> + Mul<Output = T>>(
    left: &Tensor<T>,
    right: &Tensor<T>,
    i: usize,
    j: usize,
) -> (sum: T)
    requires
        left@.fits(right@),
        i < left@.rows(),
        j < right@.cols(),
        can_dot(left@.row(i as int), right@.col(j as int)),
    ensures
        dot_of(left@.row(i as int), right@.col(j as int), sum),
{
    let left_values = left.data();
    let right_values = right.data();
    let n: usize = left.shape()[0];
    let k: usize = left.shape()[1];
    let m: usize = right.shape()[1];
    let ghost xs = left@.row(i as int);
    let ghost ys = right@.col(j as int);
    proof {
        lemma_product_of_two(left@.shape);
        lemma_product_of_two(right@.shape);
        lemma_row_in_grid(i as int, n as int, k as int);
        assert(left_values.len() == n * k);
        assert(right_values.len() == k * m);
        assert(xs.take(0).len() == 0);
    }
    let mut sum: T = T::default();
    let mut c: usize = 0;
    while c < k
        invariant
            c <= k,
            i < n,
            j < m,
            left_values@ == left@.values,
            right_values@ == right@.values,
            left_values@.len() == n * k,
            right_values@.len() == k * m,
            n * k <= usize::MAX,
            k * m <= usize::MAX,
            m == right@.cols(),
            xs == left@.row(i as int),
            ys == right@.col(j as int),
            xs.len() == k,
            ys.len() == k,
            forall|d: int| 0 <= d < k ==> xs[d] == left_values@[i * k + d],
            can_dot(xs, ys),
            dot_of(xs.take(c as int), ys.take(c as int), sum),
        decreases k - c,
    {
        proof {
            lemma_position_in_grid(i as int, c as int, n as int, k as int);
            lemma_position_in_grid(c as int, j as int, k as int, m as int);
        }
        let a: T = left_values[i * k + c];
        let b: T = right_values[c * m + j];
        assert(xs[c as int] == a);
        assert(ys[c as int] == b);
        assert(can_mul(xs[c as int], ys[c as int]));
        let term: T = a * b;
        assert(product_of(xs[c as int], ys[c as int], term));
        assert(can_add(sum, term));
        let total: T = sum + term;
        proof {
            lemma_dot_step(xs, ys, c as int, sum, term, total);
        }
        sum = total;
        c += 1;
    }
    assert(xs.take(k as int) =~= xs);
    assert(ys.take(k as int) =~= ys);
    sum
}

impl<T: Copy + Default + Add<Output = T> + Mul<Output = T>> Tensor<T> {
    /// The product of two matrices, cell by cell.
    ///
    /// Fails with `ShapeMismatchError` exactly when an operand is not a
    /// matrix or the left one does not have as many columns as the right one
    /// has rows. It computes each cell as one inner product before it goes on
    /// to the next cell, and so reads the right operand down its columns.
    pub fn matmul_naive(&self, other_tensor: &Tensor<T>) -> (result: Result<Tensor<T>, Error>)
        requires
            self@.fits(other_tensor@) ==> {
                &&& self@.rows() * other_tensor@.cols() <= usize::MAX
                &&& can_multiply(self@, other_tensor@)
            },
        ensures
            match result {
                Ok(product) => {
                    &&& self@.fits(other_tensor@)
                    &&& product@.well_formed()
                    &&& is_product_of(self@, other_tensor@, product@)
                },
                Err(error) => {
                    &&& !self@.fits(other_tensor@)
                    &&& error == Error::ShapeMismatchError
                },
            },
    {
        if self.shape().len() != 2 || other_tensor.shape().len() != 2 {
            return Err(Error::ShapeMismatchError);
        }
        if self.shape()[1] != other_tensor.shape()[0] {
            return Err(Error::ShapeMismatchError);
        }
        let n: usize = self.shape()[0];
        let m: usize = other_tensor.shape()[1];
        let ghost k = self@.cols();
        let mut new_tensor_data: Vec<T> = Vec::with_capacity(n * m);
        let mut i: usize = 0;
        while i < n
            invariant
                i <= n,
                self@.fits(other_tensor@),
                n == self@.rows(),
                m == other_tensor@.cols(),
                k == self@.cols(),
                n * m <= usize::MAX,
                self@.well_formed(),
                other_tensor@.well_formed(),
                can_multiply(self@, other_tensor@),
                new_tensor_data@.len() == i * m,
                forall|r: int|
                    0 <= r < i ==> #[trigger] row_accumulated(
                        new_tensor_data@,
                        self@,
                        other_tensor@,
                        r,
                        k,
                    ),
            decreases n - i,
        {
            let ghost rows_before = new_tensor_data@;
            let mut j: usize = 0;
            while j < m
                invariant
                    j <= m,
                    i < n,
                    self@.fits(other_tensor@),
                    n == self@.rows(),
                    m == other_tensor@.cols(),
                    k == self@.cols(),
                    can_multiply(self@, other_tensor@),
                    new_tensor_data@.len() == i * m + j,
                    rows_before.len() == i * m,
                    self@.well_formed(),
                    other_tensor@.well_formed(),
                    forall|r: int|
                        0 <= r < i ==> #[trigger] row_accumulated(
                            rows_before,
                            self@,
                            other_tensor@,
                            r,
                            k,
                        ),
                    forall|p: int| 0 <= p < i * m ==> #[trigger] new_tensor_data@[p] == rows_before[p],
                    forall|p: int|
                        i * m <= p < i * m + j ==> dot_of(
                            self@.row(i as int).take(k),
                            other_tensor@.col(p - i * m).take(k),
                            #[trigger] new_tensor_data@[p],
                        ),
                decreases m - j,
            {
                let ghost xs = self@.row(i as int);
                let ghost ys = other_tensor@.col(j as int);
                proof {
                    lemma_product_of_two(self@.shape);
                    lemma_row_in_grid(i as int, n as int, k);
                    assert(can_dot(xs, ys));
                }
                let sum: T = inner_product(self, other_tensor, i, j);
                proof {
                    assert(xs.take(k) =~= xs);
                    assert(ys.take(k) =~= ys);
                }
                new_tensor_data.push(sum);
                j += 1;
            }
            proof {
                assert forall|r: int| 0 <= r < i implies #[trigger] row_accumulated(
                    new_tensor_data@,
                    self@,
                    other_tensor@,
                    r,
                    k,
                ) by {
                    lemma_rows_in_order(r, i as int, m as int);
                    assert(row_accumulated(rows_before, self@, other_tensor@, r, k));
                }
                assert((i + 1) * m == i * m + m) by (nonlinear_arith);
            }
            i += 1;
        }
        let shape: Vec<usize> = vec![n, m];
        proof {
            assert(shape@ =~= seq![self@.shape[0], other_tensor@.shape[1]]);
            lemma_product_of_two(shape@);
            lemma_rows_make_product(new_tensor_data@, self@, other_tensor@);
        }
        Ok(Tensor::from_parts(new_tensor_data, shape))
    }
}

} // verus!
