//! What the library asks of, and knows about, the arithmetic of an element
//! type.
//!
//! A tensor is generic in its element type `T`. Its operations reach the
//! arithmetic of `T` through `+`, `-`, `*` and `T::default()` alone, and the
//! contracts speak of it through the predicates below: each says that a value
//! is one that the operator may return for given operands. Nothing is assumed
//! about an operator beyond its own contract, so the contracts hold as they
//! stand for element types whose arithmetic rounds.

use vstd::prelude::*;
use core::ops::Add;
use core::ops::Sub;
use core::ops::Mul;

verus! {

/// `zero` is a value that `T::default()` may return. For the numeric types of
/// the standard library that is the number zero.
pub open spec fn is_zero<T: Default>(zero: T) -> bool {
    call_ensures(T::default, (), zero)
}

/// `x + y` may be evaluated.
pub open spec fn can_add<T: Add<Output = T>>(x: T, y: T) -> bool {
    call_requires(<T as Add>::add, (x, y))
}

/// `sum` is a value that `x + y` may return.
pub open spec fn sum_of<T: Add<Output = T>>(x: T, y: T, sum: T) -> bool {
    call_ensures(<T as Add>::add, (x, y), sum)
}

/// `x - y` may be evaluated.
pub open spec fn can_sub<T: Sub<Output = T>>(x: T, y: T) -> bool {
    call_requires(<T as Sub>::sub, (x, y))
}

/// `difference` is a value that `x - y` may return.
pub open spec fn difference_of<T: Sub<Output = T>>(x: T, y: T, difference: T) -> bool {
    call_ensures(<T as Sub>::sub, (x, y), difference)
}

/// `x * y` may be evaluated.
pub open spec fn can_mul<T: Mul<Output = T>>(x: T, y: T) -> bool {
    call_requires(<T as Mul>::mul, (x, y))
}

/// `product` is a value that `x * y` may return.
pub open spec fn product_of<T: Mul<Output = T>>(x: T, y: T, product: T) -> bool {
    call_ensures(<T as Mul>::mul, (x, y), product)
}

/// `total` is a value that the inner product of `xs` and `ys` may have when it
/// is accumulated from the left, starting from zero:
/// `(..((0 + xs[0] * ys[0]) + xs[1] * ys[1]) + ..) + xs[n - 1] * ys[n - 1]`.
///
/// The order of the additions is part of the statement: where the arithmetic
/// of `T` rounds, another order may give another value.
pub open spec fn dot_of<T: Default + Add<Output = T> + Mul<Output = T>>(
    xs: Seq<T>,
    ys: Seq<T>,
    total: T,
) -> bool
    recommends
        xs.len() == ys.len(),
    decreases xs.len(),
{
    if xs.len() == 0 {
        is_zero(total)
    } else {
        exists|before: T, term: T|
            {
                &&& dot_of(xs.drop_last(), ys.drop_last(), before)
                &&& #[trigger] product_of(xs.last(), ys.last(), term)
                &&& #[trigger] sum_of(before, term, total)
            }
    }
}

/// Every operation that accumulating the inner product of `xs` and `ys` from
/// the left performs may be evaluated, whatever the earlier ones returned.
pub open spec fn can_dot<T: Default + Add<Output = T> + Mul<Output = T>>(
    xs: Seq<T>,
    ys: Seq<T>,
) -> bool
    recommends
        xs.len() == ys.len(),
{
    &&& forall|c: int| 0 <= c < xs.len() ==> #[trigger] can_mul(xs[c], ys[c])
    &&& forall|c: int, before: T, term: T|
        0 <= c < xs.len() && #[trigger] dot_of(xs.take(c), ys.take(c), before)
            && #[trigger] product_of(xs[c], ys[c], term) ==> can_add(before, term)
}

/// One more step of an accumulation: from a value of the inner product of the
/// first `c` terms to a value of the inner product of the first `c + 1`.
pub proof fn lemma_dot_step<T: Default + Add<Output = T> + Mul<Output = T>>(
    xs: Seq<T>,
    ys: Seq<T>,
    c: int,
    before: T,
    term: T,
    total: T,
)
    requires
        0 <= c < xs.len(),
        c < ys.len(),
        dot_of(xs.take(c), ys.take(c), before),
        product_of(xs[c], ys[c], term),
        sum_of(before, term, total),
    ensures
        dot_of(xs.take(c + 1), ys.take(c + 1), total),
{
    let xs1 = xs.take(c + 1);
    let ys1 = ys.take(c + 1);
    assert(xs1.drop_last() == xs.take(c));
    assert(ys1.drop_last() == ys.take(c));
    assert(xs1.last() == xs[c]);
    assert(ys1.last() == ys[c]);
    assert(product_of(xs1.last(), ys1.last(), term));
}

} // verus!
