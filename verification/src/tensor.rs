//! Tensor shapes and the parameters that operations carry.

use vstd::prelude::*;
use crate::convolution::ConvolutionDescription;

verus! {

/// The extents of a tensor as they are known when a graph is built.
///
/// `rows` is the feature dimension. A vector has one column; a weight matrix
/// has one column for each input feature. The batch size is not part of a
/// shape: `batched` only records that the tensor holds one value per sample.
#[derive(Clone, Copy, Debug, PartialEq, Eq, Structural)]
pub struct Shape {
    pub rows: usize,
    pub cols: usize,
    pub batched: bool,
}

impl Shape {
    /// Whether two shapes agree in rows and columns.
    pub open spec fn same_extent(self, other: Shape) -> bool {
        self.rows == other.rows && self.cols == other.cols
    }

    /// The shape with the given extents and the batch flag of `self`.
    pub open spec fn resized(self, rows: usize, cols: usize) -> Shape {
        Shape { rows, cols, batched: self.batched }
    }

    /// The shape of a single number that is shared by the whole batch.
    pub open spec fn spec_scalar() -> Shape {
        Shape { rows: 1, cols: 1, batched: false }
    }

    /// The number of entries that a tensor of this shape holds for a batch
    /// of `batch_size` samples: those of one sample, once for every sample
    /// if the shape is batched.
    pub open spec fn spec_buffer_len(self, batch_size: nat) -> nat {
        if self.batched {
            (self.rows * self.cols * batch_size) as nat
        } else {
            (self.rows * self.cols) as nat
        }
    }

    /// The shape of a single number that is shared by the whole batch.
    #[verifier::when_used_as_spec(spec_scalar)]
    pub fn scalar() -> (shape: Shape)
        ensures
            shape == Shape::spec_scalar(),
    {
        Shape { rows: 1, cols: 1, batched: false }
    }

    /// The shape of a matrix that the whole batch shares, such as weights.
    pub fn matrix(rows: usize, cols: usize) -> (shape: Shape)
        ensures
            shape == (Shape { rows, cols, batched: false }),
    {
        Shape { rows, cols, batched: false }
    }

    /// The shape of a column vector that the whole batch shares, such as a
    /// bias.
    pub fn vector(rows: usize) -> (shape: Shape)
        ensures
            shape == (Shape { rows, cols: 1, batched: false }),
    {
        Shape { rows, cols: 1, batched: false }
    }

    /// The shape of a column vector of which every sample has its own, such
    /// as an input.
    pub fn batched_vector(rows: usize) -> (shape: Shape)
        ensures
            shape == (Shape { rows, cols: 1, batched: true }),
    {
        Shape { rows, cols: 1, batched: true }
    }

    /// The number of features: the rows.
    pub fn feature_dimension(&self) -> (rows: usize)
        ensures
            rows == self.rows,
    {
        self.rows
    }

    /// Whether every sample of a batch has its own value.
    pub fn is_batched(&self) -> (batched: bool)
        ensures
            batched == self.batched,
    {
        self.batched
    }

    /// The length of the buffer that holds a tensor of this shape for a batch
    /// of `batch_size` samples, where it fits in `usize`.
    pub fn buffer_len(&self, batch_size: usize) -> (len: Option<usize>)
        ensures
            match len {
                Some(n) => n == self.spec_buffer_len(batch_size as nat),
                None => self.spec_buffer_len(batch_size as nat) > usize::MAX,
            },
    {
        if !self.batched {
            return self.rows.checked_mul(self.cols);
        }
        if batch_size == 0 {
            assert(self.rows * self.cols * 0 == 0) by (nonlinear_arith);
            return Some(0);
        }
        match self.rows.checked_mul(self.cols) {
            Some(sample) => sample.checked_mul(batch_size),
            None => {
                proof {
                    lemma_product_grows(self.rows * self.cols, batch_size as int);
                }
                None
            },
        }
    }

    /// The number of entries of one sample, where it fits in `usize`.
    pub fn size(&self) -> (size: Option<usize>)
        ensures
            match size {
                Some(n) => n == self.rows * self.cols,
                None => self.rows * self.cols > usize::MAX,
            },
    {
        self.rows.checked_mul(self.cols)
    }
}

/// A product does not shrink when it is multiplied by a positive number.
pub(crate) proof fn lemma_product_grows(product: int, factor: int)
    requires
        0 <= product,
        1 <= factor,
    ensures
        product <= product * factor,
{
    assert(product <= product * factor) by (nonlinear_arith)
        requires
            0 <= product,
            1 <= factor,
    ;
}

/// The elementwise nonlinearity that an activation or a fused operation applies.
#[derive(Clone, Copy, Debug, PartialEq, Eq, Structural)]
pub enum Activation {
    Identity,
    ReLU,
    CReLU,
    SCReLU,
    SqrReLU,
    Sigmoid,
}

/// One computation of the catalogue, with the parameters it carries. The
/// operands are not part of it: they are given when a node is created.
#[derive(Clone, Copy, Debug, PartialEq, Eq, Structural)]
pub enum Operation {
    /// Applies the nonlinearity to every entry.
    Activate(Activation),
    /// Adds two tensors entry by entry.
    Add,
    /// Multiplies the input by the weights and adds the bias.
    Affine,
    /// Stacks the rows of the second operand below those of the first.
    Concat,
    /// Multiplies the input by the weights.
    Linear,
    /// The mean of the absolute difference raised to a power. The power is
    /// held as the bits of an IEEE 754 single-precision number.
    AbsPowerError(u32),
    /// Multiplies the entries of the operand in disjoint pairs, which halves
    /// the rows. With `true` the operand is taken as two accumulators stacked
    /// on each other, and the pairs are formed within each of them.
    PairwiseMul(bool),
    /// Picks, for each sample, the column of the first operand that the
    /// second operand marks.
    Select,
    /// Applies the same affine map and activation to two inputs and stacks
    /// the two results.
    SparseAffineDual(Activation),
    /// Softmax followed by cross-entropy against the target.
    SoftmaxCrossEntropyLoss,
    /// Softmax cross-entropy over the entries that a mask names.
    SparseSoftmaxCrossEntropyLoss,
    /// Keeps the rows from the first bound up to, not including, the second.
    SliceRows(usize, usize),
    /// A convolution of the input with the filters.
    Convolution(ConvolutionDescription),
}

} // verus!
