//! The constructors of the operation catalogue. Each appends to a builder the
//! node that holds the result of one operation on nodes that exist already,
//! or returns the reason why the operands are refused.
//!
//! Every constructor states its effect twice: once through
//! [`GraphModel::creates`](crate::autograd::GraphModel::creates), which fixes
//! the returned value and the graph in every case, and once in terms of the
//! operand shapes, which says when it succeeds and what shape the new node has.

use vstd::prelude::*;
use crate::autograd::{GraphBuilder, GraphError, GraphModel, Node};
use crate::rules::any_batched;
use crate::convolution::ConvolutionDescription;
use crate::tensor::{Activation, Operation, Shape};

verus! {

/// The power of the squared error, 2.0, as the bits of an IEEE 754
/// single-precision number.
pub const SQUARED_ERROR_POWER: u32 = 0x4000_0000;

proof fn lemma_one_operand(g: GraphModel, a: Node)
    ensures
        g.contains_all(seq![a]) <==> g.contains(a),
        g.shapes_of(seq![a]) == seq![g.shape_of(a)],
        any_batched(g.shapes_of(seq![a])) == g.shape_of(a).batched,
{
    let given = seq![a];
    assert(given[0] == a);
    let shapes = g.shapes_of(given);
    assert(shapes =~= seq![g.shape_of(a)]);
    assert(shapes[0] == g.shape_of(a));
}

proof fn lemma_two_operands(g: GraphModel, a: Node, b: Node)
    ensures
        g.contains_all(seq![a, b]) <==> g.contains(a) && g.contains(b),
        g.shapes_of(seq![a, b]) == seq![g.shape_of(a), g.shape_of(b)],
        any_batched(g.shapes_of(seq![a, b])) == (g.shape_of(a).batched || g.shape_of(b).batched),
{
    let given = seq![a, b];
    assert(given[0] == a && given[1] == b);
    let shapes = g.shapes_of(given);
    assert(shapes =~= seq![g.shape_of(a), g.shape_of(b)]);
    assert(shapes[0] == g.shape_of(a) && shapes[1] == g.shape_of(b));
}

proof fn lemma_three_operands(g: GraphModel, a: Node, b: Node, c: Node)
    ensures
        g.contains_all(seq![a, b, c]) <==> g.contains(a) && g.contains(b) && g.contains(c),
        g.shapes_of(seq![a, b, c]) == seq![g.shape_of(a), g.shape_of(b), g.shape_of(c)],
        any_batched(g.shapes_of(seq![a, b, c])) == (g.shape_of(a).batched || g.shape_of(b).batched
            || g.shape_of(c).batched),
{
    let given = seq![a, b, c];
    assert(given[0] == a && given[1] == b && given[2] == c);
    let shapes = g.shapes_of(given);
    assert(shapes =~= seq![g.shape_of(a), g.shape_of(b), g.shape_of(c)]);
    assert(shapes[0] == g.shape_of(a) && shapes[1] == g.shape_of(b) && shapes[2] == g.shape_of(c));
}

proof fn lemma_four_operands(g: GraphModel, a: Node, b: Node, c: Node, d: Node)
    ensures
        g.contains_all(seq![a, b, c, d]) <==> g.contains(a) && g.contains(b) && g.contains(c)
            && g.contains(d),
        g.shapes_of(seq![a, b, c, d]) == seq![
            g.shape_of(a),
            g.shape_of(b),
            g.shape_of(c),
            g.shape_of(d),
        ],
        any_batched(g.shapes_of(seq![a, b, c, d])) == (g.shape_of(a).batched || g.shape_of(
            b,
        ).batched || g.shape_of(c).batched || g.shape_of(d).batched),
{
    let given = seq![a, b, c, d];
    assert(given[0] == a && given[1] == b && given[2] == c && given[3] == d);
    let shapes = g.shapes_of(given);
    assert(shapes =~= seq![g.shape_of(a), g.shape_of(b), g.shape_of(c), g.shape_of(d)]);
    assert(shapes[0] == g.shape_of(a) && shapes[1] == g.shape_of(b) && shapes[2] == g.shape_of(c)
        && shapes[3] == g.shape_of(d));
}

/// The activation applied to every entry of `input`. The result has the
/// shape of `input`.
pub fn activate(builder: &mut GraphBuilder, input: Node, activation: Activation) -> (result: Result<
    Node,
    GraphError,
>)
    ensures
        final(builder).wf(),
        old(builder)@.creates(
            Operation::Activate(activation),
            seq![input],
            result,
            final(builder)@,
        ),
        result is Ok <==> old(builder)@.contains(input),
        result matches Ok(node) ==> final(builder)@.shape_of(node) == old(builder)@.shape_of(input),
{
    let operands = [input];
    proof {
        assert(operands@ =~= seq![input]);
        builder@.lemma_check_passes(Operation::Activate(activation), seq![input]);
        lemma_one_operand(builder@, input);
    }
    builder.create_result_of_operation(Operation::Activate(activation), operands.as_slice())
}

/// The sum of two tensors of equal extents, entry by entry.
pub fn add(builder: &mut GraphBuilder, input1: Node, input2: Node) -> (result: Result<
    Node,
    GraphError,
>)
    ensures
        final(builder).wf(),
        old(builder)@.creates(Operation::Add, seq![input1, input2], result, final(builder)@),
        result is Ok <==> {
            &&& old(builder)@.contains(input1)
            &&& old(builder)@.contains(input2)
            &&& old(builder)@.shape_of(input2).same_extent(old(builder)@.shape_of(input1))
        },
        result matches Ok(node) ==> {
            &&& final(builder)@.shape_of(node).same_extent(old(builder)@.shape_of(input1))
            &&& final(builder)@.shape_of(node).batched == (old(builder)@.shape_of(input1).batched
                || old(builder)@.shape_of(input2).batched)
        },
{
    let operands = [input1, input2];
    proof {
        assert(operands@ =~= seq![input1, input2]);
        builder@.lemma_check_passes(Operation::Add, seq![input1, input2]);
        lemma_two_operands(builder@, input1, input2);
    }
    builder.create_result_of_operation(Operation::Add, operands.as_slice())
}

/// The weights times the input, plus the bias. The input must be a vector
/// with one row for each column of the weights, the bias a vector with one
/// row for each row of the weights; the result is a vector of that many rows.
pub fn affine(builder: &mut GraphBuilder, weights: Node, input: Node, bias: Node) -> (result:
    Result<Node, GraphError>)
    ensures
        final(builder).wf(),
        old(builder)@.creates(
            Operation::Affine,
            seq![weights, input, bias],
            result,
            final(builder)@,
        ),
        result is Ok <==> {
            &&& old(builder)@.contains(weights)
            &&& old(builder)@.contains(input)
            &&& old(builder)@.contains(bias)
            &&& old(builder)@.shape_of(input).rows == old(builder)@.shape_of(weights).cols
            &&& old(builder)@.shape_of(input).cols == 1
            &&& old(builder)@.shape_of(bias).rows == old(builder)@.shape_of(weights).rows
            &&& old(builder)@.shape_of(bias).cols == 1
        },
        result matches Ok(node) ==> {
            &&& final(builder)@.shape_of(node).rows == old(builder)@.shape_of(weights).rows
            &&& final(builder)@.shape_of(node).cols == 1
            &&& final(builder)@.shape_of(node).batched == (old(builder)@.shape_of(weights).batched
                || old(builder)@.shape_of(input).batched || old(builder)@.shape_of(bias).batched)
        },
{
    let operands = [weights, input, bias];
    proof {
        assert(operands@ =~= seq![weights, input, bias]);
        builder@.lemma_check_passes(Operation::Affine, seq![weights, input, bias]);
        lemma_three_operands(builder@, weights, input, bias);
    }
    builder.create_result_of_operation(Operation::Affine, operands.as_slice())
}

/// The rows of `input2` stacked below those of `input1`. The operands must
/// have the same number of columns, and the sum of their rows must fit in
/// `usize`.
pub fn concat(builder: &mut GraphBuilder, input1: Node, input2: Node) -> (result: Result<
    Node,
    GraphError,
>)
    ensures
        final(builder).wf(),
        old(builder)@.creates(Operation::Concat, seq![input1, input2], result, final(builder)@),
        result is Ok <==> {
            &&& old(builder)@.contains(input1)
            &&& old(builder)@.contains(input2)
            &&& old(builder)@.shape_of(input2).cols == old(builder)@.shape_of(input1).cols
            &&& old(builder)@.shape_of(input1).rows + old(builder)@.shape_of(input2).rows
                <= usize::MAX
        },
        result matches Ok(node) ==> {
            &&& final(builder)@.shape_of(node).rows == old(builder)@.shape_of(input1).rows
                + old(builder)@.shape_of(input2).rows
            &&& final(builder)@.shape_of(node).cols == old(builder)@.shape_of(input1).cols
            &&& final(builder)@.shape_of(node).batched == (old(builder)@.shape_of(input1).batched
                || old(builder)@.shape_of(input2).batched)
        },
{
    let operands = [input1, input2];
    proof {
        assert(operands@ =~= seq![input1, input2]);
        builder@.lemma_check_passes(Operation::Concat, seq![input1, input2]);
        lemma_two_operands(builder@, input1, input2);
    }
    builder.create_result_of_operation(Operation::Concat, operands.as_slice())
}

/// The weights times the input. The input must be a vector with one row for
/// each column of the weights; the result is a vector with one row for each
/// row of the weights.
pub fn matmul(builder: &mut GraphBuilder, weights: Node, input: Node) -> (result: Result<
    Node,
    GraphError,
>)
    ensures
        final(builder).wf(),
        old(builder)@.creates(Operation::Linear, seq![weights, input], result, final(builder)@),
        result is Ok <==> {
            &&& old(builder)@.contains(weights)
            &&& old(builder)@.contains(input)
            &&& old(builder)@.shape_of(input).rows == old(builder)@.shape_of(weights).cols
            &&& old(builder)@.shape_of(input).cols == 1
        },
        result matches Ok(node) ==> {
            &&& final(builder)@.shape_of(node).rows == old(builder)@.shape_of(weights).rows
            &&& final(builder)@.shape_of(node).cols == 1
            &&& final(builder)@.shape_of(node).batched == (old(builder)@.shape_of(weights).batched
                || old(builder)@.shape_of(input).batched)
        },
{
    let operands = [weights, input];
    proof {
        assert(operands@ =~= seq![weights, input]);
        builder@.lemma_check_passes(Operation::Linear, seq![weights, input]);
        lemma_two_operands(builder@, weights, input);
    }
    builder.create_result_of_operation(Operation::Linear, operands.as_slice())
}

/// The mean of `|predicted - target|` raised to a power, a scalar. `power`
/// holds the bits of the power as an IEEE 754 single-precision number. The
/// operands must have equal extents.
pub fn mpe(builder: &mut GraphBuilder, predicted: Node, target: Node, power: u32) -> (result:
    Result<Node, GraphError>)
    ensures
        final(builder).wf(),
        old(builder)@.creates(
            Operation::AbsPowerError(power),
            seq![predicted, target],
            result,
            final(builder)@,
        ),
        result is Ok <==> {
            &&& old(builder)@.contains(predicted)
            &&& old(builder)@.contains(target)
            &&& old(builder)@.shape_of(target).same_extent(old(builder)@.shape_of(predicted))
        },
        result matches Ok(node) ==> final(builder)@.shape_of(node) == Shape::scalar(),
{
    let operands = [predicted, target];
    proof {
        assert(operands@ =~= seq![predicted, target]);
        builder@.lemma_check_passes(Operation::AbsPowerError(power), seq![predicted, target]);
        lemma_two_operands(builder@, predicted, target);
    }
    builder.create_result_of_operation(Operation::AbsPowerError(power), operands.as_slice())
}

/// The mean squared error: [`mpe`] with the power 2.
pub fn mse(builder: &mut GraphBuilder, predicted: Node, target: Node) -> (result: Result<
    Node,
    GraphError,
>)
    ensures
        final(builder).wf(),
        old(builder)@.creates(
            Operation::AbsPowerError(SQUARED_ERROR_POWER),
            seq![predicted, target],
            result,
            final(builder)@,
        ),
        result is Ok <==> {
            &&& old(builder)@.contains(predicted)
            &&& old(builder)@.contains(target)
            &&& old(builder)@.shape_of(target).same_extent(old(builder)@.shape_of(predicted))
        },
        result matches Ok(node) ==> final(builder)@.shape_of(node) == Shape::scalar(),
{
    mpe(builder, predicted, target, SQUARED_ERROR_POWER)
}

/// The product of the entries of `input` in disjoint pairs. The number of
/// rows must be even; the result has half as many.
pub fn pairwise_mul(builder: &mut GraphBuilder, input: Node) -> (result: Result<Node, GraphError>)
    ensures
        final(builder).wf(),
        old(builder)@.creates(Operation::PairwiseMul(false), seq![input], result, final(builder)@),
        result is Ok <==> old(builder)@.contains(input) && old(builder)@.shape_of(input).rows % 2
            == 0,
        result matches Ok(node) ==> {
            &&& 2 * final(builder)@.shape_of(node).rows == old(builder)@.shape_of(input).rows
            &&& final(builder)@.shape_of(node).cols == old(builder)@.shape_of(input).cols
            &&& final(builder)@.shape_of(node).batched == old(builder)@.shape_of(input).batched
        },
        old(builder)@.contains(input) && old(builder)@.shape_of(input).rows % 2 != 0 ==> result
            == Err::<Node, GraphError>(
            GraphError::ShapeMismatch {
                node: input,
                operation: Operation::PairwiseMul(false),
                expected: old(builder)@.shape_of(input).resized(
                    (old(builder)@.shape_of(input).rows - 1) as usize,
                    old(builder)@.shape_of(input).cols,
                ),
                actual: old(builder)@.shape_of(input),
            },
        ),
{
    let operands = [input];
    proof {
        assert(operands@ =~= seq![input]);
        builder@.lemma_check_passes(Operation::PairwiseMul(false), seq![input]);
        lemma_one_operand(builder@, input);
    }
    builder.create_result_of_operation(Operation::PairwiseMul(false), operands.as_slice())
}

/// For each sample, the column of `input1` that `input2` marks. `input2`
/// must be a vector with one row for each column of `input1`; the result is
/// a vector with the rows of `input1`.
pub fn select(builder: &mut GraphBuilder, input1: Node, input2: Node) -> (result: Result<
    Node,
    GraphError,
>)
    ensures
        final(builder).wf(),
        old(builder)@.creates(Operation::Select, seq![input1, input2], result, final(builder)@),
        result is Ok <==> {
            &&& old(builder)@.contains(input1)
            &&& old(builder)@.contains(input2)
            &&& old(builder)@.shape_of(input2).rows == old(builder)@.shape_of(input1).cols
            &&& old(builder)@.shape_of(input2).cols == 1
        },
        result matches Ok(node) ==> {
            &&& final(builder)@.shape_of(node).rows == old(builder)@.shape_of(input1).rows
            &&& final(builder)@.shape_of(node).cols == 1
            &&& final(builder)@.shape_of(node).batched == (old(builder)@.shape_of(input1).batched
                || old(builder)@.shape_of(input2).batched)
        },
{
    let operands = [input1, input2];
    proof {
        assert(operands@ =~= seq![input1, input2]);
        builder@.lemma_check_passes(Operation::Select, seq![input1, input2]);
        lemma_two_operands(builder@, input1, input2);
    }
    builder.create_result_of_operation(Operation::Select, operands.as_slice())
}

/// One node for what would otherwise be five: the affine map of `stm` and
/// that of `nstm`, with the same weights and bias, each followed by the
/// activation, and the two results stacked.
///
/// ` stm_accumulator = activate(affine(weights,  stm, bias))`
///
/// `nstm_accumulator = activate(affine(weights, nstm, bias))`
///
/// `out = concat(stm_accumulator, nstm_accumulator)`
///
/// Both inputs must be vectors with one row for each column of the weights,
/// the bias a vector with one row for each row of the weights. The result is
/// a vector with twice the rows of the weights, which must fit in `usize`.
pub fn sparse_affine_dual_with_activation(
    builder: &mut GraphBuilder,
    weights: Node,
    stm: Node,
    nstm: Node,
    bias: Node,
    activation: Activation,
) -> (result: Result<Node, GraphError>)
    ensures
        final(builder).wf(),
        old(builder)@.creates(
            Operation::SparseAffineDual(activation),
            seq![weights, stm, nstm, bias],
            result,
            final(builder)@,
        ),
        result is Ok <==> {
            &&& old(builder)@.contains(weights)
            &&& old(builder)@.contains(stm)
            &&& old(builder)@.contains(nstm)
            &&& old(builder)@.contains(bias)
            &&& old(builder)@.shape_of(stm).rows == old(builder)@.shape_of(weights).cols
            &&& old(builder)@.shape_of(stm).cols == 1
            &&& old(builder)@.shape_of(nstm).rows == old(builder)@.shape_of(weights).cols
            &&& old(builder)@.shape_of(nstm).cols == 1
            &&& old(builder)@.shape_of(bias).rows == old(builder)@.shape_of(weights).rows
            &&& old(builder)@.shape_of(bias).cols == 1
            &&& 2 * old(builder)@.shape_of(weights).rows <= usize::MAX
        },
        result matches Ok(node) ==> {
            &&& final(builder)@.shape_of(node).rows == 2 * old(builder)@.shape_of(weights).rows
            &&& final(builder)@.shape_of(node).cols == 1
            &&& final(builder)@.shape_of(node).batched == (old(builder)@.shape_of(weights).batched
                || old(builder)@.shape_of(stm).batched || old(builder)@.shape_of(nstm).batched
                || old(builder)@.shape_of(bias).batched)
        },
{
    let operands = [weights, stm, nstm, bias];
    proof {
        assert(operands@ =~= seq![weights, stm, nstm, bias]);
        builder@.lemma_check_passes(
            Operation::SparseAffineDual(activation),
            seq![weights, stm, nstm, bias],
        );
        lemma_four_operands(builder@, weights, stm, nstm, bias);
    }
    builder.create_result_of_operation(Operation::SparseAffineDual(activation), operands.as_slice())
}

/// The pairwise product for an operand that holds two accumulators stacked
/// on each other, as [`sparse_affine_dual_with_activation`] gives it: the
/// pairs are formed within each accumulator, not across the two. The number
/// of rows must be even; the result has half as many.
pub fn pairwise_mul_post_sparse_affine_dual(builder: &mut GraphBuilder, input: Node) -> (result:
    Result<Node, GraphError>)
    ensures
        final(builder).wf(),
        old(builder)@.creates(Operation::PairwiseMul(true), seq![input], result, final(builder)@),
        result is Ok <==> old(builder)@.contains(input) && old(builder)@.shape_of(input).rows % 2
            == 0,
        result matches Ok(node) ==> {
            &&& 2 * final(builder)@.shape_of(node).rows == old(builder)@.shape_of(input).rows
            &&& final(builder)@.shape_of(node).cols == old(builder)@.shape_of(input).cols
            &&& final(builder)@.shape_of(node).batched == old(builder)@.shape_of(input).batched
        },
        old(builder)@.contains(input) && old(builder)@.shape_of(input).rows % 2 != 0 ==> result
            == Err::<Node, GraphError>(
            GraphError::ShapeMismatch {
                node: input,
                operation: Operation::PairwiseMul(true),
                expected: old(builder)@.shape_of(input).resized(
                    (old(builder)@.shape_of(input).rows - 1) as usize,
                    old(builder)@.shape_of(input).cols,
                ),
                actual: old(builder)@.shape_of(input),
            },
        ),
{
    let operands = [input];
    proof {
        assert(operands@ =~= seq![input]);
        builder@.lemma_check_passes(Operation::PairwiseMul(true), seq![input]);
        lemma_one_operand(builder@, input);
    }
    builder.create_result_of_operation(Operation::PairwiseMul(true), operands.as_slice())
}

/// The cross-entropy of the softmax of `predicted` against `target`, a
/// scalar. The operands must have equal extents.
pub fn softmax_crossentropy_loss(
    builder: &mut GraphBuilder,
    predicted: Node,
    target: Node,
) -> (result: Result<Node, GraphError>)
    ensures
        final(builder).wf(),
        old(builder)@.creates(
            Operation::SoftmaxCrossEntropyLoss,
            seq![predicted, target],
            result,
            final(builder)@,
        ),
        result is Ok <==> {
            &&& old(builder)@.contains(predicted)
            &&& old(builder)@.contains(target)
            &&& old(builder)@.shape_of(target).same_extent(old(builder)@.shape_of(predicted))
        },
        result matches Ok(node) ==> final(builder)@.shape_of(node) == Shape::scalar(),
{
    let operands = [predicted, target];
    proof {
        assert(operands@ =~= seq![predicted, target]);
        builder@.lemma_check_passes(Operation::SoftmaxCrossEntropyLoss, seq![predicted, target]);
        lemma_two_operands(builder@, predicted, target);
    }
    builder.create_result_of_operation(Operation::SoftmaxCrossEntropyLoss, operands.as_slice())
}

/// The softmax cross-entropy over the entries that `mask` names, a scalar.
/// No shape is asked of the three operands.
pub fn sparse_softmax_crossentropy_loss_masked(
    builder: &mut GraphBuilder,
    mask: Node,
    predicted: Node,
    target: Node,
) -> (result: Result<Node, GraphError>)
    ensures
        final(builder).wf(),
        old(builder)@.creates(
            Operation::SparseSoftmaxCrossEntropyLoss,
            seq![mask, predicted, target],
            result,
            final(builder)@,
        ),
        result is Ok <==> {
            &&& old(builder)@.contains(mask)
            &&& old(builder)@.contains(predicted)
            &&& old(builder)@.contains(target)
        },
        result matches Ok(node) ==> final(builder)@.shape_of(node) == Shape::scalar(),
{
    let operands = [mask, predicted, target];
    proof {
        assert(operands@ =~= seq![mask, predicted, target]);
        builder@.lemma_check_passes(
            Operation::SparseSoftmaxCrossEntropyLoss,
            seq![mask, predicted, target],
        );
        lemma_three_operands(builder@, mask, predicted, target);
    }
    builder.create_result_of_operation(
        Operation::SparseSoftmaxCrossEntropyLoss,
        operands.as_slice(),
    )
}

/// The rows of `input` from `start` up to, not including, `end`. The bounds
/// must be in order and `input` must have at least `end` rows.
pub fn slice_rows(builder: &mut GraphBuilder, input: Node, start: usize, end: usize) -> (result:
    Result<Node, GraphError>)
    ensures
        final(builder).wf(),
        old(builder)@.creates(
            Operation::SliceRows(start, end),
            seq![input],
            result,
            final(builder)@,
        ),
        result is Ok <==> old(builder)@.contains(input) && start <= end <= old(builder)@.shape_of(
            input,
        ).rows,
        result matches Ok(node) ==> {
            &&& final(builder)@.shape_of(node).rows == end - start
            &&& final(builder)@.shape_of(node).cols == old(builder)@.shape_of(input).cols
            &&& final(builder)@.shape_of(node).batched == old(builder)@.shape_of(input).batched
        },
{
    let operands = [input];
    proof {
        assert(operands@ =~= seq![input]);
        builder@.lemma_check_passes(Operation::SliceRows(start, end), seq![input]);
        lemma_one_operand(builder@, input);
    }
    builder.create_result_of_operation(Operation::SliceRows(start, end), operands.as_slice())
}

/// The convolution of `input` with `filters` that `desc` describes. The
/// filters must have the extents and the input the rows that the descriptor
/// gives; the result is a vector with the rows it gives for the output.
pub fn convolution(
    builder: &mut GraphBuilder,
    filters: Node,
    input: Node,
    desc: ConvolutionDescription,
) -> (result: Result<Node, GraphError>)
    ensures
        final(builder).wf(),
        old(builder)@.creates(
            Operation::Convolution(desc),
            seq![filters, input],
            result,
            final(builder)@,
        ),
        result is Ok <==> {
            &&& old(builder)@.contains(filters)
            &&& old(builder)@.contains(input)
            &&& old(builder)@.shape_of(filters).rows == desc@.filter_rows
            &&& old(builder)@.shape_of(filters).cols == desc@.filter_cols
            &&& old(builder)@.shape_of(input).rows == desc@.input_features
            &&& old(builder)@.shape_of(input).cols == 1
        },
        result matches Ok(node) ==> {
            &&& final(builder)@.shape_of(node).rows == desc@.output_features
            &&& final(builder)@.shape_of(node).cols == 1
            &&& final(builder)@.shape_of(node).batched == (old(builder)@.shape_of(filters).batched
                || old(builder)@.shape_of(input).batched)
        },
{
    let operands = [filters, input];
    proof {
        assert(operands@ =~= seq![filters, input]);
        builder@.lemma_check_passes(Operation::Convolution(desc), seq![filters, input]);
        lemma_two_operands(builder@, filters, input);
        desc.lemma_sizes_fit();
    }
    builder.create_result_of_operation(Operation::Convolution(desc), operands.as_slice())
}

} // verus!
