//! The shape rule of each operation: which operand shapes it accepts and the
//! shape of its result.

use vstd::prelude::*;
use crate::tensor::{Operation, Shape};

verus! {

/// An operand whose shape an operation does not accept, by its position among
/// the operands, and the shape that would have been accepted in its place.
///
/// The expected shape keeps the batch flag of the operand, which no rule
/// constrains. Where a rule leaves more than one shape open, the expected
/// shape is the nearest one: the next lower even row count for a pairwise
/// product, the end bound for a slice, the largest row count that still fits
/// where the result would overflow.
#[derive(Clone, Copy, Debug, PartialEq, Eq, Structural)]
pub struct ShapeFault {
    pub operand: usize,
    pub expected: Shape,
}

/// Why an operation cannot be applied to operands of given shapes.
#[derive(Clone, Copy, Debug, PartialEq, Eq, Structural)]
pub enum RuleViolation {
    /// The operation takes `required` operands and was given `given`.
    Arity { required: usize, given: usize },
    /// One operand has a shape that the operation does not accept.
    Shape(ShapeFault),
}

/// Whether a shape has exactly the given extents.
pub open spec fn fits(shape: Shape, rows: usize, cols: usize) -> bool {
    shape.rows == rows && shape.cols == cols
}

/// The fault that names operand `k` and expects the given extents of it.
pub open spec fn fault(shapes: Seq<Shape>, k: usize, rows: usize, cols: usize) -> ShapeFault {
    ShapeFault { operand: k, expected: shapes[k as int].resized(rows, cols) }
}

/// Whether any of the shapes is batched.
pub open spec fn any_batched(shapes: Seq<Shape>) -> bool {
    exists|k: int| 0 <= k < shapes.len() && #[trigger] shapes[k].batched
}

/// The result shape of an operation with the given rows, as a column vector
/// that is batched when any operand is.
pub open spec fn column(shapes: Seq<Shape>, rows: usize) -> Shape {
    Shape { rows, cols: 1, batched: any_batched(shapes) }
}

impl Operation {
    /// The number of operands that the operation takes.
    pub open spec fn spec_arity(&self) -> usize {
        match *self {
            Operation::Activate(_) => 1,
            Operation::Add => 2,
            Operation::Affine => 3,
            Operation::Concat => 2,
            Operation::Linear => 2,
            Operation::AbsPowerError(_) => 2,
            Operation::PairwiseMul(_) => 1,
            Operation::Select => 2,
            Operation::SparseAffineDual(_) => 4,
            Operation::SoftmaxCrossEntropyLoss => 2,
            Operation::SparseSoftmaxCrossEntropyLoss => 3,
            Operation::SliceRows(_, _) => 1,
            Operation::Convolution(_) => 2,
        }
    }

    /// The shape rule on operands `s`, whose number is the operation's arity:
    /// the shape of the result, or the first operand that breaks the rule.
    pub open spec fn accepts(self, s: Seq<Shape>) -> Result<Shape, ShapeFault>
        recommends
            s.len() == self.spec_arity(),
    {
        match self {
            Operation::Activate(_) => Ok(s[0]),
            Operation::Add => if !s[1].same_extent(s[0]) {
                Err(fault(s, 1, s[0].rows, s[0].cols))
            } else {
                Ok(Shape { rows: s[0].rows, cols: s[0].cols, batched: any_batched(s) })
            },
            Operation::Affine => if !fits(s[1], s[0].cols, 1) {
                Err(fault(s, 1, s[0].cols, 1))
            } else if !fits(s[2], s[0].rows, 1) {
                Err(fault(s, 2, s[0].rows, 1))
            } else {
                Ok(column(s, s[0].rows))
            },
            Operation::Concat => if s[1].cols != s[0].cols {
                Err(fault(s, 1, s[1].rows, s[0].cols))
            } else if s[0].rows + s[1].rows > usize::MAX {
                Err(fault(s, 1, (usize::MAX - s[0].rows) as usize, s[0].cols))
            } else {
                Ok(
                    Shape {
                        rows: (s[0].rows + s[1].rows) as usize,
                        cols: s[0].cols,
                        batched: any_batched(s),
                    },
                )
            },
            Operation::Linear => if !fits(s[1], s[0].cols, 1) {
                Err(fault(s, 1, s[0].cols, 1))
            } else {
                Ok(column(s, s[0].rows))
            },
            Operation::AbsPowerError(_) => if !s[1].same_extent(s[0]) {
                Err(fault(s, 1, s[0].rows, s[0].cols))
            } else {
                Ok(Shape::scalar())
            },
            Operation::PairwiseMul(_) => if s[0].rows % 2 != 0 {
                Err(fault(s, 0, (s[0].rows - 1) as usize, s[0].cols))
            } else {
                Ok(s[0].resized(s[0].rows / 2, s[0].cols))
            },
            Operation::Select => if !fits(s[1], s[0].cols, 1) {
                Err(fault(s, 1, s[0].cols, 1))
            } else {
                Ok(column(s, s[0].rows))
            },
            Operation::SparseAffineDual(_) => if !fits(s[1], s[0].cols, 1) {
                Err(fault(s, 1, s[0].cols, 1))
            } else if !fits(s[2], s[0].cols, 1) {
                Err(fault(s, 2, s[0].cols, 1))
            } else if !fits(s[3], s[0].rows, 1) {
                Err(fault(s, 3, s[0].rows, 1))
            } else if 2 * s[0].rows > usize::MAX {
                Err(fault(s, 0, usize::MAX / 2, s[0].cols))
            } else {
                Ok(column(s, (2 * s[0].rows) as usize))
            },
            Operation::SoftmaxCrossEntropyLoss => if !s[1].same_extent(s[0]) {
                Err(fault(s, 1, s[0].rows, s[0].cols))
            } else {
                Ok(Shape::scalar())
            },
            Operation::SparseSoftmaxCrossEntropyLoss => Ok(Shape::scalar()),
            Operation::SliceRows(start, end) => if !(start <= end <= s[0].rows) {
                Err(fault(s, 0, end, s[0].cols))
            } else {
                Ok(s[0].resized((end - start) as usize, s[0].cols))
            },
            Operation::Convolution(desc) => if !fits(
                s[0],
                desc@.filter_rows as usize,
                desc@.filter_cols as usize,
            ) {
                Err(fault(s, 0, desc@.filter_rows as usize, desc@.filter_cols as usize))
            } else if !fits(s[1], desc@.input_features as usize, 1) {
                Err(fault(s, 1, desc@.input_features as usize, 1))
            } else {
                Ok(column(s, desc@.output_features as usize))
            },
        }
    }

    /// What applying the operation to operands of the given shapes yields:
    /// the result shape, or the reason for which they are refused. The number
    /// of operands is checked before any shape.
    pub open spec fn spec_output_shape(self, shapes: Seq<Shape>) -> Result<Shape, RuleViolation> {
        if shapes.len() != self.spec_arity() {
            Err(RuleViolation::Arity { required: self.spec_arity(), given: shapes.len() as usize })
        } else {
            match self.accepts(shapes) {
                Ok(shape) => Ok(shape),
                Err(f) => Err(RuleViolation::Shape(f)),
            }
        }
    }

    /// The number of operands that the operation takes.
    #[verifier::when_used_as_spec(spec_arity)]
    pub fn arity(&self) -> (n: usize)
        ensures
            n == self.spec_arity(),
            1 <= n <= 4,
    {
        match self {
            Operation::Activate(_) => 1,
            Operation::Add => 2,
            Operation::Affine => 3,
            Operation::Concat => 2,
            Operation::Linear => 2,
            Operation::AbsPowerError(_) => 2,
            Operation::PairwiseMul(_) => 1,
            Operation::Select => 2,
            Operation::SparseAffineDual(_) => 4,
            Operation::SoftmaxCrossEntropyLoss => 2,
            Operation::SparseSoftmaxCrossEntropyLoss => 3,
            Operation::SliceRows(_, _) => 1,
            Operation::Convolution(_) => 2,
        }
    }
}

/// Whether any of the shapes is batched.
fn batched_among(shapes: &[Shape]) -> (batched: bool)
    ensures
        batched == any_batched(shapes@),
{
    let mut k: usize = 0;
    while k < shapes.len()
        invariant
            k <= shapes.len(),
            forall|j: int| 0 <= j < k ==> !(#[trigger] shapes@[j]).batched,
        decreases shapes.len() - k,
    {
        if shapes[k].batched {
            return true;
        }
        k += 1;
    }
    false
}

/// Tests operand `k` against the extents that a rule asks of it.
fn expect(shapes: &[Shape], k: usize, rows: usize, cols: usize) -> (r: Result<(), ShapeFault>)
    requires
        k < shapes.len(),
    ensures
        r is Ok <==> fits(shapes@[k as int], rows, cols),
        r is Err ==> r == Err::<(), ShapeFault>(fault(shapes@, k, rows, cols)),
{
    let actual = shapes[k];
    if actual.rows == rows && actual.cols == cols {
        Ok(())
    } else {
        Err(ShapeFault { operand: k, expected: Shape { rows, cols, batched: actual.batched } })
    }
}

/// Applies the shape rule of `operation` to operands of the given shapes.
pub fn output_shape(operation: Operation, shapes: &[Shape]) -> (r: Result<Shape, RuleViolation>)
    ensures
        r == operation.spec_output_shape(shapes@),
        r matches Err(RuleViolation::Shape(f)) ==> f.operand < shapes@.len(),
{
    let arity = operation.arity();
    if shapes.len() != arity {
        return Err(RuleViolation::Arity { required: arity, given: shapes.len() });
    }
    match accepted_shape(operation, shapes) {
        Ok(shape) => Ok(shape),
        Err(f) => Err(RuleViolation::Shape(f)),
    }
}

/// The shape rule proper, once the number of operands is known to be right.
fn accepted_shape(operation: Operation, shapes: &[Shape]) -> (r: Result<Shape, ShapeFault>)
    requires
        shapes@.len() == operation.spec_arity(),
    ensures
        r == operation.accepts(shapes@),
{
    let first = shapes[0];
    let batched = batched_among(shapes);
    match operation {
        Operation::Activate(_) => Ok(first),
        Operation::Add => {
            expect(shapes, 1, first.rows, first.cols)?;
            Ok(Shape { rows: first.rows, cols: first.cols, batched })
        },
        Operation::Affine => {
            expect(shapes, 1, first.cols, 1)?;
            expect(shapes, 2, first.rows, 1)?;
            Ok(Shape { rows: first.rows, cols: 1, batched })
        },
        Operation::Concat => {
            let second = shapes[1];
            expect(shapes, 1, second.rows, first.cols)?;
            match first.rows.checked_add(second.rows) {
                Some(rows) => Ok(Shape { rows, cols: first.cols, batched }),
                None => Err(
                    ShapeFault {
                        operand: 1,
                        expected: Shape {
                            rows: usize::MAX - first.rows,
                            cols: first.cols,
                            batched: second.batched,
                        },
                    },
                ),
            }
        },
        Operation::Linear => {
            expect(shapes, 1, first.cols, 1)?;
            Ok(Shape { rows: first.rows, cols: 1, batched })
        },
        Operation::AbsPowerError(_) | Operation::SoftmaxCrossEntropyLoss => {
            expect(shapes, 1, first.rows, first.cols)?;
            Ok(Shape::scalar())
        },
        Operation::PairwiseMul(_) => {
            if first.rows % 2 != 0 {
                Err(
                    ShapeFault {
                        operand: 0,
                        expected: Shape {
                            rows: first.rows - 1,
                            cols: first.cols,
                            batched: first.batched,
                        },
                    },
                )
            } else {
                Ok(Shape { rows: first.rows / 2, cols: first.cols, batched: first.batched })
            }
        },
        Operation::Select => {
            expect(shapes, 1, first.cols, 1)?;
            Ok(Shape { rows: first.rows, cols: 1, batched })
        },
        Operation::SparseAffineDual(_) => {
            expect(shapes, 1, first.cols, 1)?;
            expect(shapes, 2, first.cols, 1)?;
            expect(shapes, 3, first.rows, 1)?;
            if first.rows > usize::MAX / 2 {
                Err(
                    ShapeFault {
                        operand: 0,
                        expected: Shape {
                            rows: usize::MAX / 2,
                            cols: first.cols,
                            batched: first.batched,
                        },
                    },
                )
            } else {
                Ok(Shape { rows: 2 * first.rows, cols: 1, batched })
            }
        },
        Operation::SparseSoftmaxCrossEntropyLoss => Ok(Shape::scalar()),
        Operation::SliceRows(start, end) => {
            if start <= end && end <= first.rows {
                Ok(Shape { rows: end - start, cols: first.cols, batched: first.batched })
            } else {
                Err(
                    ShapeFault {
                        operand: 0,
                        expected: Shape { rows: end, cols: first.cols, batched: first.batched },
                    },
                )
            }
        },
        Operation::Convolution(desc) => {
            expect(shapes, 0, desc.filter_rows(), desc.filter_cols())?;
            expect(shapes, 1, desc.input_features(), 1)?;
            Ok(Shape { rows: desc.output_features(), cols: 1, batched })
        },
    }
}

} // verus!
