//! What holds of the operations together.
//!
//! The laws that need nothing of the arithmetic of the elements are stated
//! outright. The algebraic ones are stated for element types whose arithmetic
//! has the property that the law rests on, which each law names. Arithmetic
//! that rounds gives one value for the same operands, but subtraction does
//! not undo addition in it, and it is no semiring.

use vstd::prelude::*;
use core::ops::Add;
use core::ops::Mul;
use core::ops::Sub;
use vstd::std_specs::ops::MulSpec;
use crate::algebra::along_first;
use crate::algebra::along_second;
use crate::algebra::is_semiring;
use crate::algebra::lemma_dot_is_sum;
use crate::algebra::lemma_sum_exchange;
use crate::algebra::lemma_sum_of_same;
use crate::algebra::lemma_sum_scaled_left;
use crate::algebra::lemma_sum_scaled_right;
use crate::algebra::lemma_times_is_associative;
use crate::algebra::scaled_left;
use crate::algebra::scaled_right;
use crate::algebra::sum_to;
use crate::algebra::sums_over_first;
use crate::algebra::sums_over_second;
use crate::algebra::terms;
use crate::element::difference_of;
use crate::element::dot_of;
use crate::element::is_zero;
use crate::element::product_of;
use crate::element::sum_of;
use crate::elementwise::is_difference_of;
use crate::elementwise::is_sum_of;
use crate::matmul::is_product_of;
use crate::shape::lemma_position_in_grid;
use crate::shape::lemma_position_joins;
use crate::shape::lemma_product_of_two;
use crate::shape::lemma_row_in_grid;
use crate::tensor::TensorView;
use crate::transpose::lemma_transposed_at;
use crate::transpose::lemma_transposed_shape;

verus! {

/// Transposing a matrix twice gives the matrix back, values and shape.
pub proof fn lemma_transpose_involution<T>(matrix: TensorView<T>)
    requires
        matrix.well_formed(),
        matrix.is_matrix(),
    ensures
        matrix.transposed().transposed() == matrix,
{
    let once = matrix.transposed();
    let twice = once.transposed();
    let rows = matrix.rows();
    let cols = matrix.cols();
    lemma_transposed_shape(matrix);
    lemma_transposed_shape(once);
    lemma_product_of_two(matrix.shape);
    assert(twice.shape =~= matrix.shape);
    assert forall|q: int| 0 <= q < matrix.values.len() implies twice.values[q] == matrix.values[q] by {
        lemma_position_joins(q, rows, cols);
        let i = q / cols;
        let j = q % cols;
        lemma_transposed_at(matrix, i, j);
        lemma_transposed_at(once, j, i);
    }
    assert(twice.values =~= matrix.values);
}

/// The arithmetic of `T` gives one value for the same operands: there is one
/// zero, and a sum and a product have one value each.
pub open spec fn single_valued<T: Default + Add<Output = T> + Mul<Output = T>>() -> bool {
    &&& forall|first: T, second: T| #[trigger]
        is_zero(first) && #[trigger] is_zero(second) ==> first == second
    &&& forall|x: T, y: T, first: T, second: T| #[trigger]
        sum_of(x, y, first) && #[trigger] sum_of(x, y, second) ==> first == second
    &&& forall|x: T, y: T, first: T, second: T| #[trigger]
        product_of(x, y, first) && #[trigger] product_of(x, y, second) ==> first == second
}

/// Where the arithmetic of the elements gives one value for the same
/// operands, an inner product accumulated from the left has one value.
pub proof fn lemma_dot_is_single_valued<T: Default + Add<Output = T> + Mul<Output = T>>(
    xs: Seq<T>,
    ys: Seq<T>,
    first: T,
    second: T,
)
    requires
        single_valued::<T>(),
        dot_of(xs, ys, first),
        dot_of(xs, ys, second),
    ensures
        first == second,
    decreases xs.len(),
{
    if xs.len() > 0 {
        let (before1, term1) = choose|before: T, term: T|
            {
                &&& dot_of(xs.drop_last(), ys.drop_last(), before)
                &&& #[trigger] product_of(xs.last(), ys.last(), term)
                &&& #[trigger] sum_of(before, term, first)
            };
        let (before2, term2) = choose|before: T, term: T|
            {
                &&& dot_of(xs.drop_last(), ys.drop_last(), before)
                &&& #[trigger] product_of(xs.last(), ys.last(), term)
                &&& #[trigger] sum_of(before, term, second)
            };
        lemma_dot_is_single_valued(xs.drop_last(), ys.drop_last(), before1, before2);
    }
}

/// The serial and the parallel multiplication agree: both return a product
/// of their operands, and where the arithmetic of the elements gives one
/// value for the same operands, two products of the same operands are equal.
pub proof fn lemma_product_is_single_valued<T: Default + Add<Output = T> + Mul<Output = T>>(
    left: TensorView<T>,
    right: TensorView<T>,
    first: TensorView<T>,
    second: TensorView<T>,
)
    requires
        left.well_formed(),
        right.well_formed(),
        left.fits(right),
        single_valued::<T>(),
        is_product_of(left, right, first),
        is_product_of(left, right, second),
    ensures
        first == second,
{
    let n = left.rows();
    let m = right.cols();
    assert(first.shape == second.shape);
    assert forall|p: int| 0 <= p < first.values.len() implies first.values[p] == second.values[p] by {
        lemma_position_joins(p, n, m);
        let i = p / m;
        let j = p % m;
        assert(first.at(i, j) == first.values[p]);
        assert(second.at(i, j) == second.values[p]);
        lemma_dot_is_single_valued(left.row(i), right.col(j), first.at(i, j), second.at(i, j));
    }
    assert(first.values =~= second.values);
}

/// In the arithmetic of `T`, subtracting what was added gives the first
/// operand back: `(x + y) - y` is `x`.
pub open spec fn sub_undoes_add<T: Add<Output = T> + Sub<Output = T>>() -> bool {
    forall|x: T, y: T, sum: T, back: T| #[trigger]
        sum_of(x, y, sum) && #[trigger] difference_of(sum, y, back) ==> back == x
}

/// Adding a tensor and subtracting it again gives the first tensor back,
/// where subtraction undoes addition in the arithmetic of the elements.
pub proof fn lemma_add_then_sub<T: Add<Output = T> + Sub<Output = T>>(
    a: TensorView<T>,
    b: TensorView<T>,
    sum: TensorView<T>,
    back: TensorView<T>,
)
    requires
        a.shape == b.shape,
        sub_undoes_add::<T>(),
        is_sum_of(a, b, sum),
        is_difference_of(sum, b, back),
    ensures
        back == a,
{
    assert forall|p: int| 0 <= p < a.values.len() implies back.values[p] == a.values[p] by {
        assert(sum_of(a.values[p], b.values[p], sum.values[p]));
        assert(difference_of(sum.values[p], b.values[p], back.values[p]));
    }
    assert(back.values =~= a.values);
}

/// In the arithmetic of `T`, a product with zero is zero, and the sum of two
/// zeros is zero.
pub open spec fn zero_absorbs<T: Default + Add<Output = T> + Mul<Output = T>>() -> bool {
    &&& forall|x: T, zero: T, product: T| #[trigger]
        is_zero(zero) && #[trigger] product_of(x, zero, product) ==> is_zero(product)
    &&& forall|first: T, second: T, sum: T|
        is_zero(first) && is_zero(second) && #[trigger] sum_of(first, second, sum) ==> is_zero(sum)
}

/// An inner product with zeros is zero, where zero absorbs.
pub proof fn lemma_dot_with_zeros<T: Default + Add<Output = T> + Mul<Output = T>>(
    xs: Seq<T>,
    zeros: Seq<T>,
    total: T,
)
    requires
        zero_absorbs::<T>(),
        xs.len() == zeros.len(),
        forall|c: int| 0 <= c < zeros.len() ==> is_zero(#[trigger] zeros[c]),
        dot_of(xs, zeros, total),
    ensures
        is_zero(total),
    decreases xs.len(),
{
    if xs.len() > 0 {
        let (before, term) = choose|before: T, term: T|
            {
                &&& dot_of(xs.drop_last(), zeros.drop_last(), before)
                &&& #[trigger] product_of(xs.last(), zeros.last(), term)
                &&& #[trigger] sum_of(before, term, total)
            };
        lemma_dot_with_zeros(xs.drop_last(), zeros.drop_last(), before);
        assert(is_zero(zeros.last()));
    }
}

/// The product of a matrix and a matrix of zeros is the matrix of zeros that
/// has the rows of the one and the columns of the other, where zero absorbs
/// in the arithmetic of the elements.
pub proof fn lemma_zero_matrix_absorbs<T: Default + Add<Output = T> + Mul<Output = T>>(
    left: TensorView<T>,
    zeros: TensorView<T>,
    product: TensorView<T>,
)
    requires
        left.well_formed(),
        zeros.well_formed(),
        left.fits(zeros),
        zero_absorbs::<T>(),
        forall|p: int| 0 <= p < zeros.values.len() ==> is_zero(#[trigger] zeros.values[p]),
        is_product_of(left, zeros, product),
    ensures
        product.shape == seq![left.shape[0], zeros.shape[1]],
        product.values.len() == left.rows() * zeros.cols(),
        forall|p: int| 0 <= p < product.values.len() ==> is_zero(#[trigger] product.values[p]),
{
    let n = left.rows();
    let k = left.cols();
    let m = zeros.cols();
    lemma_product_of_two(left.shape);
    lemma_product_of_two(zeros.shape);
    assert forall|p: int| 0 <= p < product.values.len() implies is_zero(
        #[trigger] product.values[p],
    ) by {
        lemma_position_joins(p, n, m);
        let i = p / m;
        let j = p % m;
        assert(product.at(i, j) == product.values[p]);
        lemma_row_in_grid(i, n, k);
        assert forall|c: int| 0 <= c < zeros.col(j).len() implies is_zero(
            #[trigger] zeros.col(j)[c],
        ) by {
            lemma_position_in_grid(c, j, k, m);
        }
        lemma_dot_with_zeros(left.row(i), zeros.col(j), product.at(i, j));
    }
}

/// `matrix` is the identity in the arithmetic of `T`, of which `one` is the
/// unit: a square matrix with `one` on the diagonal and zero elsewhere.
pub open spec fn is_identity<T: Default>(matrix: TensorView<T>, one: T) -> bool {
    &&& matrix.is_matrix()
    &&& matrix.rows() == matrix.cols()
    &&& forall|i: int, j: int|
        0 <= i < matrix.rows() && 0 <= j < matrix.cols() ==> if i == j {
            #[trigger] matrix.at(i, j) == one
        } else {
            is_zero(matrix.at(i, j))
        }
}

/// In the arithmetic of `T`, `one` is the unit of multiplication from the
/// right, zero is the unit of addition, and a product with zero is zero.
pub open spec fn zero_and_one_are_neutral<T: Default + Add<Output = T> + Mul<Output = T>>(
    one: T,
) -> bool {
    &&& forall|x: T, product: T| #[trigger] product_of(x, one, product) ==> product == x
    &&& forall|x: T, zero: T, product: T| #[trigger]
        is_zero(zero) && #[trigger] product_of(x, zero, product) ==> is_zero(product)
    &&& forall|x: T, zero: T, sum: T| #[trigger]
        is_zero(zero) && #[trigger] sum_of(x, zero, sum) ==> sum == x
    &&& forall|x: T, zero: T, sum: T| #[trigger]
        is_zero(zero) && #[trigger] sum_of(zero, x, sum) ==> sum == x
}

/// The inner product of `xs` with a sequence that holds `one` at `at` and
/// zero elsewhere, taken over the first `terms` terms: zero before the term
/// at `at` has been added, and `xs[at]` from then on.
pub proof fn lemma_dot_with_unit<T: Default + Add<Output = T> + Mul<Output = T>>(
    xs: Seq<T>,
    unit: Seq<T>,
    at: int,
    one: T,
    terms: int,
    total: T,
)
    requires
        zero_and_one_are_neutral(one),
        xs.len() == unit.len(),
        0 <= at < unit.len(),
        unit[at] == one,
        forall|c: int| 0 <= c < unit.len() && c != at ==> is_zero(#[trigger] unit[c]),
        0 <= terms <= xs.len(),
        dot_of(xs.take(terms), unit.take(terms), total),
    ensures
        terms <= at ==> is_zero(total),
        terms > at ==> total == xs[at],
    decreases terms,
{
    let some_xs = xs.take(terms);
    let some_unit = unit.take(terms);
    if terms > 0 {
        let (before, term) = choose|before: T, term: T|
            {
                &&& dot_of(some_xs.drop_last(), some_unit.drop_last(), before)
                &&& #[trigger] product_of(some_xs.last(), some_unit.last(), term)
                &&& #[trigger] sum_of(before, term, total)
            };
        assert(some_xs.drop_last() == xs.take(terms - 1));
        assert(some_unit.drop_last() == unit.take(terms - 1));
        assert(some_xs.last() == xs[terms - 1]);
        assert(some_unit.last() == unit[terms - 1]);
        lemma_dot_with_unit(xs, unit, at, one, terms - 1, before);
        if terms - 1 != at {
            assert(is_zero(unit[terms - 1]));
        }
    }
}

/// The product of a square matrix and the identity of its size is the
/// matrix, values and shape, where zero and one are neutral in the
/// arithmetic of the elements.
pub proof fn lemma_identity_is_neutral<T: Default + Add<Output = T> + Mul<Output = T>>(
    a: TensorView<T>,
    identity: TensorView<T>,
    one: T,
    product: TensorView<T>,
)
    requires
        a.well_formed(),
        identity.well_formed(),
        a.is_matrix(),
        a.rows() == a.cols(),
        identity.shape == a.shape,
        is_identity(identity, one),
        zero_and_one_are_neutral(one),
        is_product_of(a, identity, product),
    ensures
        product == a,
{
    let n = a.rows();
    lemma_product_of_two(a.shape);
    lemma_product_of_two(identity.shape);
    assert(product.shape =~= a.shape);
    assert forall|p: int| 0 <= p < a.values.len() implies product.values[p] == a.values[p] by {
        lemma_position_joins(p, n, n);
        let i = p / n;
        let j = p % n;
        assert(product.at(i, j) == product.values[p]);
        lemma_row_in_grid(i, n, n);
        let xs = a.row(i);
        let unit = identity.col(j);
        assert(unit[j] == identity.at(j, j));
        assert forall|c: int| 0 <= c < unit.len() && c != j implies is_zero(#[trigger] unit[c]) by {
            assert(unit[c] == identity.at(c, j));
        }
        assert(xs.take(n) =~= xs);
        assert(unit.take(n) =~= unit);
        lemma_dot_with_unit(xs, unit, j, one, n, product.at(i, j));
        assert(xs[j] == a.values[p]);
    }
    assert(product.values =~= a.values);
}

/// The products of three values, one of each of three matrices, of which the
/// value at row `i` and column `j` of the product of the three is the sum:
/// for `c` and `d`, `a[i, d] * (b[d, c] * c[c, j])`.
pub open spec fn triple_products<T: Mul<Output = T>>(
    a: TensorView<T>,
    b: TensorView<T>,
    c: TensorView<T>,
    i: int,
    j: int,
) -> spec_fn(int, int) -> T {
    |at_c: int, at_d: int| a.at(i, at_d).mul_spec(b.at(at_d, at_c).mul_spec(c.at(at_c, j)))
}

/// A value of `(a b) c` is the sum of the triple products, taken over the
/// columns of `a` first.
proof fn lemma_left_grouping<T: Default + Add<Output = T> + Mul<Output = T>>(
    a: TensorView<T>,
    b: TensorView<T>,
    c: TensorView<T>,
    ab: TensorView<T>,
    ab_c: TensorView<T>,
    zero: T,
    i: int,
    j: int,
)
    requires
        a.well_formed(),
        b.well_formed(),
        c.well_formed(),
        a.fits(b),
        b.fits(c),
        is_semiring(zero),
        is_product_of(a, b, ab),
        is_product_of(ab, c, ab_c),
        0 <= i < a.rows(),
        0 <= j < c.cols(),
    ensures
        ab_c.at(i, j) == sum_to(
            zero,
            b.cols(),
            sums_over_second(zero, a.cols(), triple_products(a, b, c, i, j)),
        ),
{
    let n = a.rows();
    let k = a.cols();
    let m = b.cols();
    let g = triple_products(a, b, c, i, j);
    lemma_product_of_two(a.shape);
    lemma_product_of_two(b.shape);
    lemma_product_of_two(c.shape);
    lemma_row_in_grid(i, n, m);
    lemma_row_in_grid(i, n, k);
    let xs = ab.row(i);
    let ys = c.col(j);
    assert(xs.len() == m);
    lemma_dot_is_sum(zero, xs, ys, ab_c.at(i, j));
    assert forall|at_c: int| 0 <= at_c < m implies #[trigger] terms(xs, ys)(at_c) == sums_over_second(
        zero,
        k,
        g,
    )(at_c) by {
        let column = b.col(at_c);
        let inner = terms(a.row(i), column);
        let factor = c.at(at_c, j);
        assert(xs[at_c] == ab.at(i, at_c));
        lemma_dot_is_sum(zero, a.row(i), column, ab.at(i, at_c));
        lemma_sum_scaled_right(zero, k, inner, factor);
        assert forall|at_d: int| 0 <= at_d < k implies #[trigger] scaled_right(inner, factor)(at_d)
            == along_second(g, at_c)(at_d) by {
            assert(a.row(i)[at_d] == a.at(i, at_d));
            lemma_times_is_associative(zero, a.at(i, at_d), b.at(at_d, at_c), factor);
        }
        lemma_sum_of_same(zero, k, scaled_right(inner, factor), along_second(g, at_c));
    }
    lemma_sum_of_same(zero, m, terms(xs, ys), sums_over_second(zero, k, g));
}

/// A value of `a (b c)` is the sum of the triple products, taken over the
/// rows of `c` first.
proof fn lemma_right_grouping<T: Default + Add<Output = T> + Mul<Output = T>>(
    a: TensorView<T>,
    b: TensorView<T>,
    c: TensorView<T>,
    bc: TensorView<T>,
    a_bc: TensorView<T>,
    zero: T,
    i: int,
    j: int,
)
    requires
        a.well_formed(),
        b.well_formed(),
        c.well_formed(),
        a.fits(b),
        b.fits(c),
        is_semiring(zero),
        is_product_of(b, c, bc),
        is_product_of(a, bc, a_bc),
        0 <= i < a.rows(),
        0 <= j < c.cols(),
    ensures
        a_bc.at(i, j) == sum_to(
            zero,
            a.cols(),
            sums_over_first(zero, b.cols(), triple_products(a, b, c, i, j)),
        ),
{
    let n = a.rows();
    let k = a.cols();
    let m = b.cols();
    let g = triple_products(a, b, c, i, j);
    lemma_product_of_two(a.shape);
    lemma_product_of_two(b.shape);
    lemma_product_of_two(c.shape);
    lemma_row_in_grid(i, n, k);
    let xs = a.row(i);
    let ys = bc.col(j);
    assert(xs.len() == k);
    lemma_dot_is_sum(zero, xs, ys, a_bc.at(i, j));
    assert forall|at_d: int| 0 <= at_d < k implies #[trigger] terms(xs, ys)(at_d) == sums_over_first(
        zero,
        m,
        g,
    )(at_d) by {
        let row = b.row(at_d);
        let inner = terms(row, c.col(j));
        let factor = a.at(i, at_d);
        lemma_row_in_grid(at_d, k, m);
        assert(row.len() == m);
        assert(xs[at_d] == factor);
        assert(ys[at_d] == bc.at(at_d, j));
        lemma_dot_is_sum(zero, row, c.col(j), bc.at(at_d, j));
        lemma_sum_scaled_left(zero, m, factor, inner);
        assert forall|at_c: int| 0 <= at_c < m implies #[trigger] scaled_left(factor, inner)(at_c)
            == along_first(g, at_d)(at_c) by {
            assert(row[at_c] == b.at(at_d, at_c));
        }
        lemma_sum_of_same(zero, m, scaled_left(factor, inner), along_first(g, at_d));
    }
    lemma_sum_of_same(zero, k, terms(xs, ys), sums_over_first(zero, m, g));
}

/// Matrix multiplication is associative where the arithmetic of the elements
/// is that of a semiring: `(a b) c` and `a (b c)` are the same matrix.
pub proof fn lemma_matmul_is_associative<T: Default + Add<Output = T> + Mul<Output = T>>(
    a: TensorView<T>,
    b: TensorView<T>,
    c: TensorView<T>,
    ab: TensorView<T>,
    bc: TensorView<T>,
    ab_c: TensorView<T>,
    a_bc: TensorView<T>,
    zero: T,
)
    requires
        a.well_formed(),
        b.well_formed(),
        c.well_formed(),
        a.fits(b),
        b.fits(c),
        is_semiring(zero),
        is_product_of(a, b, ab),
        is_product_of(ab, c, ab_c),
        is_product_of(b, c, bc),
        is_product_of(a, bc, a_bc),
    ensures
        ab_c == a_bc,
{
    let n = a.rows();
    let q = c.cols();
    assert(ab_c.shape =~= a_bc.shape);
    assert(ab_c.values.len() == n * q);
    assert(a_bc.values.len() == n * q);
    assert forall|p: int| 0 <= p < n * q implies ab_c.values[p] == a_bc.values[p] by {
        lemma_position_joins(p, n, q);
        let i = p / q;
        let j = p % q;
        assert(ab_c.at(i, j) == ab_c.values[p]);
        assert(a_bc.at(i, j) == a_bc.values[p]);
        lemma_left_grouping(a, b, c, ab, ab_c, zero, i, j);
        lemma_right_grouping(a, b, c, bc, a_bc, zero, i, j);
        lemma_sum_exchange(zero, b.cols(), a.cols(), triple_products(a, b, c, i, j));
    }
    assert(ab_c.values =~= a_bc.values);
}

} // verus!
