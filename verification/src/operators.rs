//! The operators `+`, `-` and `*` on references to tensors: other names for
//! `add`, `sub` and `mul`, with their contracts.
//!
//! Where the arithmetic of the elements is no function of the operands, what
//! an operator on tensors returns is none either. So no operator is given a
//! value for ghost code (`obeys_add_spec` and its like are false), and what
//! an operator returns is stated by its `ensures`.

use vstd::prelude::*;
use vstd::std_specs::ops::AddSpecImpl;
use vstd::std_specs::ops::MulSpecImpl;
use vstd::std_specs::ops::SubSpecImpl;
use core::ops::Add;
use core::ops::Mul;
use core::ops::Sub;
use crate::element::can_add;
use crate::element::can_mul;
use crate::element::can_sub;
use crate::elementwise::is_difference_of;
use crate::elementwise::is_elementwise_product_of;
use crate::elementwise::is_sum_of;
use crate::error::Error;
use crate::tensor::Tensor;

verus! {

impl<'a, 'b, T: Copy + Add<Output = T>> AddSpecImpl<&'b Tensor<T>> for &'a Tensor<T> {
    open spec fn obeys_add_spec() -> bool {
        false
    }

    open spec fn add_req(self, other_tensor: &'b Tensor<T>) -> bool {
        self@.shape == other_tensor@.shape ==> forall|p: int|
            0 <= p < self@.values.len() ==> #[trigger] can_add(self@.values[p], other_tensor@.values[p])
    }

    open spec fn add_spec(self, other_tensor: &'b Tensor<T>) -> Result<Tensor<T>, Error> {
        arbitrary()
    }
}

impl<'a, 'b, T: Copy + Add<Output = T>> Add<&'b Tensor<T>> for &'a Tensor<T> {
    type Output = Result<Tensor<T>, Error>;

    /// `&a + &b` is `a.add(&b)`.
    fn add(self, other_tensor: &'b Tensor<T>) -> (result: Result<Tensor<T>, Error>)
        ensures
            match result {
                Ok(sum) => {
                    &&& self@.shape == other_tensor@.shape
                    &&& sum@.well_formed()
                    &&& is_sum_of(self@, other_tensor@, sum@)
                },
                Err(error) => {
                    &&& self@.shape != other_tensor@.shape
                    &&& error == Error::ShapeMismatchError
                },
            },
    {
        Tensor::add(self, other_tensor)
    }
}

impl<'a, 'b, T: Copy + Sub<Output = T>> SubSpecImpl<&'b Tensor<T>> for &'a Tensor<T> {
    open spec fn obeys_sub_spec() -> bool {
        false
    }

    open spec fn sub_req(self, other_tensor: &'b Tensor<T>) -> bool {
        self@.shape == other_tensor@.shape ==> forall|p: int|
            0 <= p < self@.values.len() ==> #[trigger] can_sub(self@.values[p], other_tensor@.values[p])
    }

    open spec fn sub_spec(self, other_tensor: &'b Tensor<T>) -> Result<Tensor<T>, Error> {
        arbitrary()
    }
}

impl<'a, 'b, T: Copy + Sub<Output = T>> Sub<&'b Tensor<T>> for &'a Tensor<T> {
    type Output = Result<Tensor<T>, Error>;

    /// `&a - &b` is `a.sub(&b)`.
    fn sub(self, other_tensor: &'b Tensor<T>) -> (result: Result<Tensor<T>, Error>)
        ensures
            match result {
                Ok(difference) => {
                    &&& self@.shape == other_tensor@.shape
                    &&& difference@.well_formed()
                    &&& is_difference_of(self@, other_tensor@, difference@)
                },
                Err(error) => {
                    &&& self@.shape != other_tensor@.shape
                    &&& error == Error::ShapeMismatchError
                },
            },
    {
        Tensor::sub(self, other_tensor)
    }
}

impl<'a, 'b, T: Copy + Mul<Output = T>> MulSpecImpl<&'b Tensor<T>> for &'a Tensor<T> {
    open spec fn obeys_mul_spec() -> bool {
        false
    }

    open spec fn mul_req(self, other_tensor: &'b Tensor<T>) -> bool {
        self@.shape == other_tensor@.shape ==> forall|p: int|
            0 <= p < self@.values.len() ==> #[trigger] can_mul(self@.values[p], other_tensor@.values[p])
    }

    open spec fn mul_spec(self, other_tensor: &'b Tensor<T>) -> Result<Tensor<T>, Error> {
        arbitrary()
    }
}

impl<'a, 'b, T: Copy + Mul<Output = T>> Mul<&'b Tensor<T>> for &'a Tensor<T> {
    type Output = Result<Tensor<T>, Error>;

    /// `&a * &b` is `a.mul(&b)`, the elementwise product.
    fn mul(self, other_tensor: &'b Tensor<T>) -> (result: Result<Tensor<T>, Error>)
        ensures
            match result {
                Ok(product) => {
                    &&& self@.shape == other_tensor@.shape
                    &&& product@.well_formed()
                    &&& is_elementwise_product_of(self@, other_tensor@, product@)
                },
                Err(error) => {
                    &&& self@.shape != other_tensor@.shape
                    &&& error == Error::ShapeMismatchError
                },
            },
    {
        Tensor::mul(self, other_tensor)
    }
}

} // verus!
