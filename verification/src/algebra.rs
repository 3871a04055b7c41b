//! Sums in a semiring.
//!
//! The associativity of matrix multiplication rests on the arithmetic of the
//! elements being that of a semiring. This module says what that means and
//! proves what the law needs of finite sums in one.

use vstd::prelude::*;
use vstd::std_specs::ops::AddSpec;
use vstd::std_specs::ops::MulSpec;
use core::ops::Add;
use core::ops::Mul;
use crate::element::dot_of;
use crate::element::is_zero;
use crate::element::product_of;
use crate::element::sum_of;

verus! {

/// The arithmetic of `T` is that of a semiring with the zero `zero`.
///
/// `+` and `*` are functions of their operands, and `T::default()` is
/// `zero`. Addition is associative and commutative and has `zero` as its
/// unit; multiplication is associative, distributes over addition from both
/// sides, and gives `zero` where an operand is `zero`.
#[verifier::opaque]
pub open spec fn is_semiring<T: Default + Add<Output = T> + Mul<Output = T>>(zero: T) -> bool {
    &&& T::obeys_add_spec()
    &&& T::obeys_mul_spec()
    &&& forall|z: T| #[trigger] is_zero(z) ==> z == zero
    &&& forall|x: T| #[trigger] zero.add_spec(x) == x
    &&& forall|x: T, y: T| #[trigger] x.add_spec(y) == y.add_spec(x)
    &&& forall|x: T, y: T, z: T| #[trigger] x.add_spec(y).add_spec(z) == x.add_spec(y.add_spec(z))
    &&& forall|x: T, y: T, z: T| #[trigger] x.mul_spec(y).mul_spec(z) == x.mul_spec(y.mul_spec(z))
    &&& forall|x: T, y: T, z: T| #[trigger]
        x.mul_spec(y.add_spec(z)) == x.mul_spec(y).add_spec(x.mul_spec(z))
    &&& forall|x: T, y: T, z: T| #[trigger]
        x.add_spec(y).mul_spec(z) == x.mul_spec(z).add_spec(y.mul_spec(z))
    &&& forall|x: T| #[trigger] zero.mul_spec(x) == zero
    &&& forall|x: T| #[trigger] x.mul_spec(zero) == zero
}

/// The sum `f(0) + f(1) + .. + f(n - 1)`, added up from the left starting
/// from `zero`.
pub open spec fn sum_to<T: Add<Output = T>>(zero: T, n: int, f: spec_fn(int) -> T) -> T
    decreases n,
{
    if n <= 0 {
        zero
    } else {
        sum_to(zero, n - 1, f).add_spec(f(n - 1))
    }
}

/// The products of the values of `xs` and `ys` at the same position.
pub open spec fn terms<T: Mul<Output = T>>(xs: Seq<T>, ys: Seq<T>) -> spec_fn(int) -> T {
    |c: int| xs[c].mul_spec(ys[c])
}

/// The values of `f` and of `g` added position by position.
pub open spec fn added<T: Add<Output = T>>(f: spec_fn(int) -> T, g: spec_fn(int) -> T) -> spec_fn(
    int,
) -> T {
    |c: int| f(c).add_spec(g(c))
}

/// The values of `f`, each multiplied by `y` from the right.
pub open spec fn scaled_right<T: Mul<Output = T>>(f: spec_fn(int) -> T, y: T) -> spec_fn(int) -> T {
    |c: int| f(c).mul_spec(y)
}

/// The values of `f`, each multiplied by `x` from the left.
pub open spec fn scaled_left<T: Mul<Output = T>>(x: T, f: spec_fn(int) -> T) -> spec_fn(int) -> T {
    |c: int| x.mul_spec(f(c))
}

/// The values of `g` along its second argument, for the first one `c`.
pub open spec fn along_second<T>(g: spec_fn(int, int) -> T, c: int) -> spec_fn(int) -> T {
    |d: int| g(c, d)
}

/// The values of `g` along its first argument, for the second one `d`.
pub open spec fn along_first<T>(g: spec_fn(int, int) -> T, d: int) -> spec_fn(int) -> T {
    |c: int| g(c, d)
}

/// For each first argument, the sum of `g` over the first `k` second ones.
pub open spec fn sums_over_second<T: Add<Output = T>>(
    zero: T,
    k: int,
    g: spec_fn(int, int) -> T,
) -> spec_fn(int) -> T {
    |c: int| sum_to(zero, k, along_second(g, c))
}

/// For each second argument, the sum of `g` over the first `m` first ones.
pub open spec fn sums_over_first<T: Add<Output = T>>(
    zero: T,
    m: int,
    g: spec_fn(int, int) -> T,
) -> spec_fn(int) -> T {
    |d: int| sum_to(zero, m, along_first(g, d))
}

/// In a semiring the operators are functions, and there is one zero.
pub proof fn lemma_semiring_is_single_valued<T: Default + Add<Output = T> + Mul<Output = T>>(zero: T)
    requires
        is_semiring(zero),
    ensures
        forall|z: T| #[trigger] is_zero(z) ==> z == zero,
        forall|x: T, y: T, sum: T| #[trigger] sum_of(x, y, sum) ==> sum == x.add_spec(y),
        forall|x: T, y: T, product: T| #[trigger] product_of(x, y, product) ==> product == x.mul_spec(y),
{
    reveal(is_semiring);
}

proof fn lemma_zero_plus<T: Default + Add<Output = T> + Mul<Output = T>>(zero: T, x: T)
    requires
        is_semiring(zero),
    ensures
        zero.add_spec(x) == x,
        x.add_spec(zero) == x,
{
    reveal(is_semiring);
}

proof fn lemma_zero_times<T: Default + Add<Output = T> + Mul<Output = T>>(zero: T, x: T)
    requires
        is_semiring(zero),
    ensures
        zero.mul_spec(x) == zero,
        x.mul_spec(zero) == zero,
{
    reveal(is_semiring);
}

pub proof fn lemma_times_is_associative<T: Default + Add<Output = T> + Mul<Output = T>>(
    zero: T,
    x: T,
    y: T,
    z: T,
)
    requires
        is_semiring(zero),
    ensures
        x.mul_spec(y).mul_spec(z) == x.mul_spec(y.mul_spec(z)),
{
    reveal(is_semiring);
}

proof fn lemma_distributes<T: Default + Add<Output = T> + Mul<Output = T>>(zero: T, x: T, y: T, z: T)
    requires
        is_semiring(zero),
    ensures
        x.mul_spec(y.add_spec(z)) == x.mul_spec(y).add_spec(x.mul_spec(z)),
        x.add_spec(y).mul_spec(z) == x.mul_spec(z).add_spec(y.mul_spec(z)),
{
    reveal(is_semiring);
}

/// `(a + b) + (c + d)` is `(a + c) + (b + d)`.
proof fn lemma_plus_interchange<T: Default + Add<Output = T> + Mul<Output = T>>(
    zero: T,
    a: T,
    b: T,
    c: T,
    d: T,
)
    requires
        is_semiring(zero),
    ensures
        a.add_spec(b).add_spec(c.add_spec(d)) == a.add_spec(c).add_spec(b.add_spec(d)),
{
    reveal(is_semiring);
    let bcd = b.add_spec(c.add_spec(d));
    let cbd = c.add_spec(b.add_spec(d));
    assert(a.add_spec(b).add_spec(c.add_spec(d)) == a.add_spec(bcd));
    assert(bcd == b.add_spec(c).add_spec(d));
    assert(b.add_spec(c) == c.add_spec(b));
    assert(c.add_spec(b).add_spec(d) == cbd);
    assert(a.add_spec(c).add_spec(b.add_spec(d)) == a.add_spec(cbd));
}

/// Sums of the same values are the same.
pub proof fn lemma_sum_of_same<T: Add<Output = T>>(
    zero: T,
    n: int,
    f: spec_fn(int) -> T,
    g: spec_fn(int) -> T,
)
    requires
        forall|c: int| 0 <= c < n ==> #[trigger] f(c) == g(c),
    ensures
        sum_to(zero, n, f) == sum_to(zero, n, g),
    decreases n,
{
    if n > 0 {
        lemma_sum_of_same(zero, n - 1, f, g);
        assert(f(n - 1) == g(n - 1));
    }
}

/// A sum of zeros is zero.
proof fn lemma_sum_of_zeros<T: Default + Add<Output = T> + Mul<Output = T>>(
    zero: T,
    n: int,
    f: spec_fn(int) -> T,
)
    requires
        is_semiring(zero),
        forall|c: int| 0 <= c < n ==> #[trigger] f(c) == zero,
    ensures
        sum_to(zero, n, f) == zero,
    decreases n,
{
    if n > 0 {
        lemma_sum_of_zeros(zero, n - 1, f);
        assert(f(n - 1) == zero);
        lemma_zero_plus(zero, zero);
    }
}

/// The sum of sums position by position is the sum of the two sums.
proof fn lemma_sum_of_added<T: Default + Add<Output = T> + Mul<Output = T>>(
    zero: T,
    n: int,
    f: spec_fn(int) -> T,
    g: spec_fn(int) -> T,
)
    requires
        is_semiring(zero),
    ensures
        sum_to(zero, n, added(f, g)) == sum_to(zero, n, f).add_spec(sum_to(zero, n, g)),
    decreases n,
{
    if n <= 0 {
        lemma_zero_plus(zero, zero);
    } else {
        lemma_sum_of_added(zero, n - 1, f, g);
        assert(added(f, g)(n - 1) == f(n - 1).add_spec(g(n - 1)));
        lemma_plus_interchange(
            zero,
            sum_to(zero, n - 1, f),
            sum_to(zero, n - 1, g),
            f(n - 1),
            g(n - 1),
        );
    }
}

/// A sum times `y` is the sum of the values times `y`.
pub proof fn lemma_sum_scaled_right<T: Default + Add<Output = T> + Mul<Output = T>>(
    zero: T,
    n: int,
    f: spec_fn(int) -> T,
    y: T,
)
    requires
        is_semiring(zero),
    ensures
        sum_to(zero, n, f).mul_spec(y) == sum_to(zero, n, scaled_right(f, y)),
    decreases n,
{
    if n <= 0 {
        lemma_zero_times(zero, y);
    } else {
        lemma_sum_scaled_right(zero, n - 1, f, y);
        assert(scaled_right(f, y)(n - 1) == f(n - 1).mul_spec(y));
        lemma_distributes(zero, sum_to(zero, n - 1, f), f(n - 1), y);
    }
}

/// `x` times a sum is the sum of `x` times the values.
pub proof fn lemma_sum_scaled_left<T: Default + Add<Output = T> + Mul<Output = T>>(
    zero: T,
    n: int,
    x: T,
    f: spec_fn(int) -> T,
)
    requires
        is_semiring(zero),
    ensures
        x.mul_spec(sum_to(zero, n, f)) == sum_to(zero, n, scaled_left(x, f)),
    decreases n,
{
    if n <= 0 {
        lemma_zero_times(zero, x);
    } else {
        lemma_sum_scaled_left(zero, n - 1, x, f);
        assert(scaled_left(x, f)(n - 1) == x.mul_spec(f(n - 1)));
        lemma_distributes(zero, x, sum_to(zero, n - 1, f), f(n - 1));
    }
}

/// A sum over two arguments may be taken over either argument first.
pub proof fn lemma_sum_exchange<T: Default + Add<Output = T> + Mul<Output = T>>(
    zero: T,
    m: int,
    k: int,
    g: spec_fn(int, int) -> T,
)
    requires
        is_semiring(zero),
    ensures
        sum_to(zero, m, sums_over_second(zero, k, g)) == sum_to(zero, k, sums_over_first(zero, m, g)),
    decreases m,
{
    if m <= 0 {
        assert forall|d: int| 0 <= d < k implies #[trigger] sums_over_first(zero, m, g)(d) == zero by {
        }
        lemma_sum_of_zeros(zero, k, sums_over_first(zero, m, g));
    } else {
        lemma_sum_exchange(zero, m - 1, k, g);
        let last = along_second(g, m - 1);
        let earlier = sums_over_first(zero, m - 1, g);
        assert forall|d: int| 0 <= d < k implies #[trigger] sums_over_first(zero, m, g)(d) == added(
            earlier,
            last,
        )(d) by {
            assert(along_first(g, d)(m - 1) == g(m - 1, d));
            assert(last(d) == g(m - 1, d));
        }
        lemma_sum_of_same(zero, k, sums_over_first(zero, m, g), added(earlier, last));
        lemma_sum_of_added(zero, k, earlier, last);
        assert(sums_over_second(zero, k, g)(m - 1) == sum_to(zero, k, last));
    }
}

/// In a semiring a value of an inner product is the sum of the products of
/// its terms.
pub proof fn lemma_dot_is_sum<T: Default + Add<Output = T> + Mul<Output = T>>(
    zero: T,
    xs: Seq<T>,
    ys: Seq<T>,
    total: T,
)
    requires
        is_semiring(zero),
        xs.len() == ys.len(),
        dot_of(xs, ys, total),
    ensures
        total == sum_to(zero, xs.len() as int, terms(xs, ys)),
    decreases xs.len(),
{
    lemma_semiring_is_single_valued(zero);
    if xs.len() > 0 {
        let n = xs.len() as int;
        let (before, term) = choose|before: T, term: T|
            {
                &&& dot_of(xs.drop_last(), ys.drop_last(), before)
                &&& #[trigger] product_of(xs.last(), ys.last(), term)
                &&& #[trigger] sum_of(before, term, total)
            };
        lemma_dot_is_sum(zero, xs.drop_last(), ys.drop_last(), before);
        assert forall|c: int| 0 <= c < n - 1 implies #[trigger] terms(xs.drop_last(), ys.drop_last())(c)
            == terms(xs, ys)(c) by {
        }
        lemma_sum_of_same(zero, n - 1, terms(xs.drop_last(), ys.drop_last()), terms(xs, ys));
        assert(terms(xs, ys)(n - 1) == xs.last().mul_spec(ys.last()));
    }
}

} // verus!
