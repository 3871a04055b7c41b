//! Elementwise arithmetic: sum, difference and product of two tensors of one
//! shape, and the product of a tensor with a scalar.

use vstd::prelude::*;
use core::ops::Add;
use core::ops::Sub;
use core::ops::Mul;
use crate::element::can_add;
use crate::element::can_mul;
use crate::element::can_sub;
use crate::element::difference_of;
use crate::element::product_of;
use crate::element::sum_of;
use crate::error::Error;
use crate::tensor::Tensor;
use crate::tensor::TensorView;

verus! {

/// `sum` is a tensor that adding `right` to `left` value by value may give.
pub open spec fn is_sum_of<T: Add<Output = T>>(
    left: TensorView<T>,
    right: TensorView<T>,
    sum: TensorView<T>,
) -> bool
    recommends
        left.shape == right.shape,
{
    &&& sum.shape == left.shape
    &&& sum.values.len() == left.values.len()
    &&& forall|p: int|
        0 <= p < left.values.len() ==> sum_of(left.values[p], right.values[p], #[trigger] sum.values[p])
}

/// `difference` is a tensor that subtracting `right` from `left` value by
/// value may give.
pub open spec fn is_difference_of<T: Sub<Output = T>>(
    left: TensorView<T>,
    right: TensorView<T>,
    difference: TensorView<T>,
) -> bool
    recommends
        left.shape == right.shape,
{
    &&& difference.shape == left.shape
    &&& difference.values.len() == left.values.len()
    &&& forall|p: int|
        0 <= p < left.values.len() ==> difference_of(
            left.values[p],
            right.values[p],
            #[trigger] difference.values[p],
        )
}

/// `product` is a tensor that multiplying `left` by `right` value by value
/// may give: a Hadamard product.
pub open spec fn is_elementwise_product_of<T: Mul<Output = T>>(
    left: TensorView<T>,
    right: TensorView<T>,
    product: TensorView<T>,
) -> bool
    recommends
        left.shape == right.shape,
{
    &&& product.shape == left.shape
    &&& product.values.len() == left.values.len()
    &&& forall|p: int|
        0 <= p < left.values.len() ==> product_of(
            left.values[p],
            right.values[p],
            #[trigger] product.values[p],
        )
}

/// `scaled` is a tensor that multiplying every value of `tensor` by `scalar`
/// may give.
pub open spec fn is_scaled_by<T: Mul<Output = T>>(
    tensor: TensorView<T>,
    scalar: T,
    scaled: TensorView<T>,
) -> bool {
    &&& scaled.shape == tensor.shape
    &&& scaled.values.len() == tensor.values.len()
    &&& forall|p: int|
        0 <= p < tensor.values.len() ==> product_of(tensor.values[p], scalar, #[trigger] scaled.values[p])
}

/// Whether two shapes are the same.
pub(crate) fn same_shape(left: &Vec<usize>, right: &Vec<usize>) -> (same: bool)
    ensures
        same == (left@ == right@),
{
    if left.len() != right.len() {
        return false;
    }
    let mut at: usize = 0;
    while at < left.len()
        invariant
            at <= left.len(),
            left.len() == right.len(),
            forall|d: int| 0 <= d < at ==> left@[d] == right@[d],
        decreases left.len() - at,
    {
        if left[at] != right[at] {
            return false;
        }
        at += 1;
    }
    assert(left@ =~= right@);
    true
}

/// The values that `combine` gives for the pairs of values at the same
/// position of two buffers of one length, in the order of the buffers.
fn combine_pairs<T: Copy, F: Fn(T, T) -> T>(left: &Vec<T>, right: &Vec<T>, combine: F) -> (out: Vec<T>)
    requires
        left@.len() == right@.len(),
        forall|p: int| 0 <= p < left@.len() ==> call_requires(combine, (left@[p], right@[p])),
    ensures
        out@.len() == left@.len(),
        forall|p: int|
            0 <= p < left@.len() ==> call_ensures(combine, (left@[p], right@[p]), #[trigger] out@[p]),
{
    let mut out: Vec<T> = Vec::with_capacity(left.len());
    let mut at: usize = 0;
    while at < left.len()
        invariant
            at <= left.len(),
            left@.len() == right@.len(),
            out@.len() == at,
            forall|p: int| 0 <= p < left@.len() ==> call_requires(combine, (left@[p], right@[p])),
            forall|p: int|
                0 <= p < at ==> call_ensures(combine, (left@[p], right@[p]), #[trigger] out@[p]),
        decreases left.len() - at,
    {
        out.push(combine(left[at], right[at]));
        at += 1;
    }
    out
}

impl<T: Copy + Add<Output = T>> Tensor<T> {
    /// The elementwise sum of two tensors of one shape.
    ///
    /// Fails with `ShapeMismatchError` exactly when the shapes differ.
    pub fn add(&self, other_tensor: &Tensor<T>) -> (result: Result<Tensor<T>, Error>)
        requires
            self@.shape == other_tensor@.shape ==> forall|p: int|
                0 <= p < self@.values.len() ==> #[trigger] can_add(
                    self@.values[p],
                    other_tensor@.values[p],
                ),
        ensures
            match result {
                Ok(sum) => {
                    &&& self@.shape == other_tensor@.shape
                    &&& sum@.well_formed()
                    &&& is_sum_of(self@, other_tensor@, sum@)
                },
                Err(error) => {
                    &&& self@.shape != other_tensor@.shape
                    &&& error == Error::ShapeMismatchError
                },
            },
    {
        if !same_shape(self.shape(), other_tensor.shape()) {
            return Err(Error::ShapeMismatchError);
        }
        let plus = |a: T, b: T| -> (sum: T)
            requires
                can_add(a, b),
            ensures
                sum_of(a, b, sum),
            {
                a + b
            };
        let new_tensor_data = combine_pairs(self.data(), other_tensor.data(), plus);
        Ok(Tensor::from_parts(new_tensor_data, self.shape().clone()))
    }
}

impl<T: Copy + Sub<Output = T>> Tensor<T> {
    /// The elementwise difference of two tensors of one shape.
    ///
    /// Fails with `ShapeMismatchError` exactly when the shapes differ.
    pub fn sub(&self, other_tensor: &Tensor<T>) -> (result: Result<Tensor<T>, Error>)
        requires
            self@.shape == other_tensor@.shape ==> forall|p: int|
                0 <= p < self@.values.len() ==> #[trigger] can_sub(
                    self@.values[p],
                    other_tensor@.values[p],
                ),
        ensures
            match result {
                Ok(difference) => {
                    &&& self@.shape == other_tensor@.shape
                    &&& difference@.well_formed()
                    &&& is_difference_of(self@, other_tensor@, difference@)
                },
                Err(error) => {
                    &&& self@.shape != other_tensor@.shape
                    &&& error == Error::ShapeMismatchError
                },
            },
    {
        if !same_shape(self.shape(), other_tensor.shape()) {
            return Err(Error::ShapeMismatchError);
        }
        let minus = |a: T, b: T| -> (difference: T)
            requires
                can_sub(a, b),
            ensures
                difference_of(a, b, difference),
            {
                a - b
            };
        let new_tensor_data = combine_pairs(self.data(), other_tensor.data(), minus);
        Ok(Tensor::from_parts(new_tensor_data, self.shape().clone()))
    }
}

impl<T: Copy + Mul<Output = T>> Tensor<T> {
    /// The elementwise (Hadamard) product of two tensors of one shape.
    ///
    /// Fails with `ShapeMismatchError` exactly when the shapes differ.
    pub fn mul(&self, other_tensor: &Tensor<T>) -> (result: Result<Tensor<T>, Error>)
        requires
            self@.shape == other_tensor@.shape ==> forall|p: int|
                0 <= p < self@.values.len() ==> #[trigger] can_mul(
                    self@.values[p],
                    other_tensor@.values[p],
                ),
        ensures
            match result {
                Ok(product) => {
                    &&& self@.shape == other_tensor@.shape
                    &&& product@.well_formed()
                    &&& is_elementwise_product_of(self@, other_tensor@, product@)
                },
                Err(error) => {
                    &&& self@.shape != other_tensor@.shape
                    &&& error == Error::ShapeMismatchError
                },
            },
    {
        if !same_shape(self.shape(), other_tensor.shape()) {
            return Err(Error::ShapeMismatchError);
        }
        let times = |a: T, b: T| -> (product: T)
            requires
                can_mul(a, b),
            ensures
                product_of(a, b, product),
            {
                a * b
            };
        let new_tensor_data = combine_pairs(self.data(), other_tensor.data(), times);
        Ok(Tensor::from_parts(new_tensor_data, self.shape().clone()))
    }

    /// The tensor of the same shape whose every value is the value of this
    /// one times `scalar`.
    pub fn mul_scalar(&self, scalar: T) -> (scaled: Tensor<T>)
        requires
            forall|p: int| 0 <= p < self@.values.len() ==> #[trigger] can_mul(self@.values[p], scalar),
        ensures
            scaled@.well_formed(),
            is_scaled_by(self@, scalar, scaled@),
    {
        let values = self.data();
        let mut new_tensor_data: Vec<T> = Vec::with_capacity(values.len());
        let mut at: usize = 0;
        while at < values.len()
            invariant
                at <= values.len(),
                values@ == self@.values,
                new_tensor_data@.len() == at,
                forall|p: int| 0 <= p < values@.len() ==> #[trigger] can_mul(values@[p], scalar),
                forall|p: int|
                    0 <= p < at ==> product_of(values@[p], scalar, #[trigger] new_tensor_data@[p]),
            decreases values.len() - at,
        {
            assert(can_mul(values@[at as int], scalar));
            new_tensor_data.push(values[at] * scalar);
            at += 1;
        }
        Tensor::from_parts(new_tensor_data, self.shape().clone())
    }
}

} // verus!
