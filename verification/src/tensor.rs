//! The tensor: a flat buffer of values in row-major order, and its shape.

use vstd::prelude::*;
use vstd::slice::slice_to_vec;
use crate::element::is_zero;
use crate::error::Error;
use crate::shape::chunk;
use crate::shape::element_count;
use crate::shape::shape_product;

verus! {

/// What a tensor is: its values in row-major order, and the size of each of
/// its dimensions.
pub struct TensorView<T> {
    pub values: Seq<T>,
    pub shape: Seq<usize>,
}

impl<T> TensorView<T> {
    /// There are as many values as the shape asks for.
    pub open spec fn well_formed(self) -> bool {
        self.values.len() == shape_product(self.shape)
    }

    /// The tensor has two dimensions.
    pub open spec fn is_matrix(self) -> bool {
        self.shape.len() == 2
    }

    /// The size of the outer dimension.
    pub open spec fn rows(self) -> int
        recommends
            self.shape.len() >= 1,
    {
        self.shape[0] as int
    }

    /// The size of the second dimension.
    pub open spec fn cols(self) -> int
        recommends
            self.shape.len() >= 2,
    {
        self.shape[1] as int
    }

    /// Where the value at row `i` and column `j` lies in the buffer.
    pub open spec fn position(self, i: int, j: int) -> int
        recommends
            self.shape.len() >= 2,
    {
        i * self.cols() + j
    }

    /// The value at row `i` and column `j`.
    pub open spec fn at(self, i: int, j: int) -> T
        recommends
            self.shape.len() >= 2,
    {
        self.values[self.position(i, j)]
    }

    /// Row `i` of a matrix, from left to right: a contiguous piece of the
    /// buffer.
    pub open spec fn row(self, i: int) -> Seq<T>
        recommends
            self.is_matrix(),
            0 <= i < self.rows(),
    {
        chunk(self.values, i, self.cols())
    }

    /// Column `j` of a matrix, from top to bottom.
    pub open spec fn col(self, j: int) -> Seq<T>
        recommends
            self.is_matrix(),
            0 <= j < self.cols(),
    {
        Seq::new(self.rows() as nat, |i: int| self.at(i, j))
    }

    /// `coords` names a value that an indexed read can reach: one coordinate
    /// for each dimension, at least two of them, the first two within their
    /// dimensions, and the position that they give within the buffer.
    pub open spec fn addresses(self, coords: Seq<usize>) -> bool {
        &&& coords.len() == self.shape.len()
        &&& coords.len() >= 2
        &&& coords[0] < self.shape[0]
        &&& coords[1] < self.shape[1]
        &&& self.position(coords[0] as int, coords[1] as int) < self.values.len()
    }
}

/// A dense tensor of elements of type `T`.
///
/// The values lie in one buffer in row-major order. The buffer always holds
/// exactly as many values as the shape asks for.
#[derive(Debug)]
pub struct Tensor<T> {
    data: Vec<T>,
    shape: Vec<usize>,
}

impl<T> View for Tensor<T> {
    type V = TensorView<T>;

    closed spec fn view(&self) -> TensorView<T> {
        TensorView { values: self.data@, shape: self.shape@ }
    }
}

impl<T> Tensor<T> {
    #[verifier::type_invariant]
    spec fn holds_what_shape_asks(&self) -> bool {
        self.data@.len() == shape_product(self.shape@)
    }

    /// Makes a tensor of a buffer and a shape that fit.
    pub(crate) fn from_parts(data: Vec<T>, shape: Vec<usize>) -> (tensor: Tensor<T>)
        requires
            data@.len() == shape_product(shape@),
        ensures
            tensor@ == (TensorView { values: data@, shape: shape@ }),
    {
        Tensor { data, shape }
    }

    /// The values of the tensor, in row-major order.
    pub fn data(&self) -> (values: &Vec<T>)
        ensures
            values@ == self@.values,
            self@.well_formed(),
    {
        proof {
            use_type_invariant(self);
        }
        &self.data
    }

    /// The size of each dimension of the tensor.
    pub fn shape(&self) -> (shape: &Vec<usize>)
        ensures
            shape@ == self@.shape,
            self@.well_formed(),
    {
        proof {
            use_type_invariant(self);
        }
        &self.shape
    }
}

impl<T> Tensor<T> {
    /// A tensor of the given shape whose values are what `make` returns,
    /// called once for each value, in row-major order.
    ///
    /// This is the way to fill a tensor from a source outside the library,
    /// such as a random number generator.
    pub fn from_fn<F: Fn() -> T>(shape: Vec<usize>, make: F) -> (tensor: Tensor<T>)
        requires
            shape_product(shape@) <= usize::MAX,
            call_requires(make, ()),
        ensures
            tensor@.shape == shape@,
            tensor@.well_formed(),
            forall|p: int|
                0 <= p < tensor@.values.len() ==> call_ensures(make, (), #[trigger] tensor@.values[p]),
    {
        let total_size: usize = match element_count(shape.as_slice()) {
            Some(count) => count,
            None => unreached(),
        };
        let mut data: Vec<T> = Vec::with_capacity(total_size);
        let mut done: usize = 0;
        while done < total_size
            invariant
                done <= total_size,
                data@.len() == done,
                call_requires(make, ()),
                forall|p: int| 0 <= p < done ==> call_ensures(make, (), #[trigger] data@[p]),
            decreases total_size - done,
        {
            data.push(make());
            done += 1;
        }
        Tensor { data, shape }
    }
}

impl<T: Clone> Clone for Tensor<T> {
    /// A tensor of the same shape that holds a clone of each value.
    fn clone(&self) -> (copy: Tensor<T>)
        ensures
            copy@.shape == self@.shape,
            copy@.values.len() == self@.values.len(),
            forall|p: int|
                0 <= p < self@.values.len() ==> cloned(self@.values[p], #[trigger] copy@.values[p]),
    {
        proof {
            use_type_invariant(self);
        }
        Tensor { data: self.data.clone(), shape: self.shape.clone() }
    }
}

impl<T: Copy> Tensor<T> {
    /// A tensor of the given values and shape.
    ///
    /// Fails with `NumbersOfElementsError` exactly when the number of values
    /// is not the product of the dimensions of the shape.
    pub fn new(data: &[T], shape: &[usize]) -> (made: Result<Tensor<T>, Error>)
        ensures
            match made {
                Ok(tensor) => {
                    &&& data@.len() == shape_product(shape@)
                    &&& tensor@.values == data@
                    &&& tensor@.shape == shape@
                    &&& tensor@.well_formed()
                },
                Err(error) => {
                    &&& data@.len() != shape_product(shape@)
                    &&& error == Error::NumbersOfElementsError
                },
            },
    {
        match element_count(shape) {
            Some(count) => {
                if data.len() != count {
                    return Err(Error::NumbersOfElementsError);
                }
            },
            None => {
                assert(data.len() <= usize::MAX);
                return Err(Error::NumbersOfElementsError);
            },
        }
        Ok(Tensor { data: slice_to_vec(data), shape: slice_to_vec(shape) })
    }

    /// The value at the given coordinates: for coordinates `[i, j, ..]`, the
    /// value at position `i * cols + j` of the buffer.
    ///
    /// Fails with `PositionValueError` exactly when the coordinates do not
    /// address a value of the tensor.
    pub fn get_value(&self, coords: &[usize]) -> (found: Result<T, Error>)
        ensures
            match found {
                Ok(value) => {
                    &&& self@.addresses(coords@)
                    &&& value == self@.at(coords@[0] as int, coords@[1] as int)
                },
                Err(error) => {
                    &&& !self@.addresses(coords@)
                    &&& error == Error::PositionValueError
                },
            },
    {
        if coords.len() != self.shape.len() || coords.len() < 2 {
            return Err(Error::PositionValueError);
        }
        let row: usize = coords[0];
        let col: usize = coords[1];
        let width: usize = self.shape[1];
        if row >= self.shape[0] || col >= width {
            return Err(Error::PositionValueError);
        }
        assert(self.data.len() <= usize::MAX);
        let start: usize = match row.checked_mul(width) {
            Some(start) => start,
            None => {
                return Err(Error::PositionValueError);
            },
        };
        let index: usize = match start.checked_add(col) {
            Some(index) => index,
            None => {
                return Err(Error::PositionValueError);
            },
        };
        if index >= self.data.len() {
            return Err(Error::PositionValueError);
        }
        Ok(self.data[index])
    }
}

impl<T: Copy + Default> Tensor<T> {
    /// A tensor of the given shape whose every value is the zero of `T`.
    pub fn zeros(shape: Vec<usize>) -> (tensor: Tensor<T>)
        requires
            shape_product(shape@) <= usize::MAX,
        ensures
            tensor@.shape == shape@,
            tensor@.well_formed(),
            forall|p: int| 0 <= p < tensor@.values.len() ==> is_zero(#[trigger] tensor@.values[p]),
    {
        let total_size: usize = match element_count(shape.as_slice()) {
            Some(count) => count,
            None => unreached(),
        };
        let data = filled(T::default(), total_size);
        Tensor { data, shape }
    }
}

/// A buffer of `count` copies of `value`.
pub(crate) fn filled<T: Copy>(value: T, count: usize) -> (buffer: Vec<T>)
    ensures
        buffer@.len() == count,
        forall|p: int| 0 <= p < count ==> buffer@[p] == value,
{
    let mut buffer: Vec<T> = Vec::with_capacity(count);
    let mut done: usize = 0;
    while done < count
        invariant
            done <= count,
            buffer@.len() == done,
            forall|p: int| 0 <= p < done ==> buffer@[p] == value,
        decreases count - done,
    {
        buffer.push(value);
        done += 1;
    }
    buffer
}

} // verus!
