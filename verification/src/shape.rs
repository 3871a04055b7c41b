//! Shapes: the number of elements a shape asks for, and row-major positions.

use vstd::prelude::*;
use vstd::arithmetic::div_mod::lemma_fundamental_div_mod;
use vstd::arithmetic::div_mod::lemma_fundamental_div_mod_converse;
use vstd::arithmetic::div_mod::lemma_mod_bound;
use vstd::arithmetic::div_mod::lemma_multiply_divide_lt;
use vstd::arithmetic::div_mod::lemma_div_pos_is_pos;

verus! {

/// The number of elements of a tensor of the given shape: the product of its
/// dimensions. The empty shape asks for one element.
pub open spec fn shape_product(shape: Seq<usize>) -> nat
    decreases shape.len(),
{
    if shape.len() == 0 {
        1
    } else {
        shape_product(shape.drop_last()) * (shape.last() as nat)
    }
}

/// A shape that has a dimension of size zero asks for no element.
pub proof fn lemma_zero_dimension(shape: Seq<usize>, at: int)
    requires
        0 <= at < shape.len(),
        shape[at] == 0,
    ensures
        shape_product(shape) == 0,
    decreases shape.len(),
{
    if at < shape.len() - 1 {
        lemma_zero_dimension(shape.drop_last(), at);
        assert(shape_product(shape.drop_last()) * (shape.last() as nat) == 0) by (nonlinear_arith)
            requires
                shape_product(shape.drop_last()) == 0,
        ;
    } else {
        assert(shape_product(shape.drop_last()) * (shape.last() as nat) == 0) by (nonlinear_arith)
            requires
                shape.last() as nat == 0,
        ;
    }
}

/// The product of a shape of two dimensions.
pub proof fn lemma_product_of_two(shape: Seq<usize>)
    requires
        shape.len() == 2,
    ensures
        shape_product(shape) == shape[0] * shape[1],
{
    let front = shape.drop_last();
    assert(front.drop_last().len() == 0);
    assert(shape_product(front.drop_last()) == 1);
    assert(shape_product(front) == 1 * (front.last() as nat));
    assert(front.last() == shape[0]);
    assert(shape.last() == shape[1]);
}

/// The number of elements that `shape` asks for, where it can be held in a
/// `usize`.
pub fn element_count(shape: &[usize]) -> (count: Option<usize>)
    ensures
        match count {
            Some(n) => n == shape_product(shape@),
            None => shape_product(shape@) > usize::MAX,
        },
{
    let mut at: usize = 0;
    while at < shape.len()
        invariant
            at <= shape.len(),
            forall|i: int| 0 <= i < at ==> shape@[i] > 0,
        decreases shape.len() - at,
    {
        if shape[at] == 0 {
            proof {
                lemma_zero_dimension(shape@, at as int);
            }
            return Some(0);
        }
        at += 1;
    }
    let mut count: usize = 1;
    let mut done: usize = 0;
    assert(shape@.take(0).len() == 0);
    while done < shape.len()
        invariant
            done <= shape.len(),
            forall|i: int| 0 <= i < shape.len() ==> shape@[i] > 0,
            count == shape_product(shape@.take(done as int)),
        decreases shape.len() - done,
    {
        let ghost before = shape@.take(done as int);
        let ghost after = shape@.take(done + 1);
        proof {
            assert(after.drop_last() == before);
            assert(after.last() == shape@[done as int]);
        }
        match count.checked_mul(shape[done]) {
            Some(next) => {
                count = next;
            },
            None => {
                proof {
                    assert(shape_product(after) > usize::MAX);
                    lemma_product_grows(shape@, done + 1);
                }
                return None;
            },
        }
        done += 1;
    }
    assert(shape@.take(done as int) == shape@);
    Some(count)
}

/// Where no dimension is zero, the product of a prefix of a shape is at most
/// the product of the whole shape.
proof fn lemma_product_grows(shape: Seq<usize>, upto: int)
    requires
        0 <= upto <= shape.len(),
        forall|i: int| 0 <= i < shape.len() ==> shape[i] > 0,
    ensures
        shape_product(shape.take(upto)) <= shape_product(shape),
    decreases shape.len() - upto,
{
    if upto == shape.len() {
        assert(shape.take(upto) == shape);
    } else {
        lemma_product_grows(shape, upto + 1);
        let longer = shape.take(upto + 1);
        assert(longer.drop_last() == shape.take(upto));
        assert(longer.last() == shape[upto]);
        assert(shape_product(shape.take(upto)) <= shape_product(shape.take(upto)) * (
        shape[upto] as nat)) by (nonlinear_arith)
            requires
                shape[upto] as nat >= 1,
        ;
    }
}

/// Piece number `index` of a buffer that is cut into pieces of `size` values
/// each: in a row-major buffer, a row.
pub open spec fn chunk<T>(values: Seq<T>, index: int, size: int) -> Seq<T> {
    values.subrange(index * size, index * size + size)
}

/// In a row-major grid of `rows` rows and `cols` columns, row `i` lies
/// within the grid, and after the rows before it.
pub proof fn lemma_row_in_grid(i: int, rows: int, cols: int)
    requires
        0 <= i < rows,
        0 <= cols,
    ensures
        0 <= i * cols,
        i * cols + cols <= rows * cols,
{
    assert(i * cols + cols <= rows * cols) by (nonlinear_arith)
        requires
            0 <= i < rows,
            0 <= cols,
    ;
    assert(0 <= i * cols) by (nonlinear_arith)
        requires
            0 <= i,
            0 <= cols,
    ;
}

/// In a row-major grid, an earlier row ends where a later row begins, or
/// before.
pub proof fn lemma_rows_in_order(earlier: int, later: int, cols: int)
    requires
        0 <= earlier < later,
        0 <= cols,
    ensures
        earlier * cols + cols <= later * cols,
{
    assert(earlier * cols + cols <= later * cols) by (nonlinear_arith)
        requires
            0 <= earlier < later,
            0 <= cols,
    ;
}

/// In a row-major grid of `rows` rows and `cols` columns, row `i` and column
/// `j` lie at a position within the grid.
pub proof fn lemma_position_in_grid(i: int, j: int, rows: int, cols: int)
    requires
        0 <= i < rows,
        0 <= j < cols,
    ensures
        0 <= i * cols + j < rows * cols,
{
    lemma_row_in_grid(i, rows, cols);
}

/// The position of row `i` and column `j` gives back `i` and `j`.
pub proof fn lemma_position_splits(i: int, j: int, cols: int)
    requires
        0 <= j < cols,
    ensures
        (i * cols + j) / cols == i,
        (i * cols + j) % cols == j,
{
    lemma_fundamental_div_mod_converse(i * cols + j, cols, i, j);
}

/// Every position of a grid is that of one row and one column.
pub proof fn lemma_position_joins(p: int, rows: int, cols: int)
    requires
        0 <= p < rows * cols,
        0 <= rows,
        0 <= cols,
    ensures
        0 <= p / cols < rows,
        0 <= p % cols < cols,
        (p / cols) * cols + p % cols == p,
{
    assert(cols > 0) by (nonlinear_arith)
        requires
            0 <= p < rows * cols,
            0 <= rows,
            0 <= cols,
    ;
    lemma_fundamental_div_mod(p, cols);
    lemma_mod_bound(p, cols);
    lemma_div_pos_is_pos(p, cols);
    assert(p < cols * rows) by (nonlinear_arith)
        requires
            p < rows * cols,
    ;
    lemma_multiply_divide_lt(p, cols, rows);
    assert((p / cols) * cols == cols * (p / cols)) by (nonlinear_arith);
}

} // verus!
