//! What holds of the library as a whole: how the constructors relate to each
//! other, and what the order of a pass guarantees.

use vstd::prelude::*;
use crate::autograd::{GraphError, GraphModel, Node};
use crate::operations::SQUARED_ERROR_POWER;
use crate::rules::any_batched;
use crate::tensor::{Activation, Operation, Shape};

verus! {

/// Creating a node has one outcome: the graph before, the operation and the
/// operands fix both what is returned and the graph after.
pub proof fn lemma_creation_is_determined(
    g: GraphModel,
    operation: Operation,
    operands: Seq<Node>,
    first: Result<Node, GraphError>,
    after_first: GraphModel,
    second: Result<Node, GraphError>,
    after_second: GraphModel,
)
    requires
        g.creates(operation, operands, first, after_first),
        g.creates(operation, operands, second, after_second),
    ensures
        first == second,
        after_first == after_second,
{
    if g.check(operation, operands) is Ok {
        Node::lemma_same_position(first->Ok_0, second->Ok_0);
    }
}

/// The mean squared error is the mean power error with the power 2: on the
/// same graph and the same operands, `mse` and `mpe` with the bits of 2.0
/// return the same and leave the same graph.
pub proof fn lemma_mse_is_mpe_with_power_two(
    g: GraphModel,
    predicted: Node,
    target: Node,
    by_mse: Result<Node, GraphError>,
    after_mse: GraphModel,
    by_mpe: Result<Node, GraphError>,
    after_mpe: GraphModel,
)
    requires
        g.creates(
            Operation::AbsPowerError(SQUARED_ERROR_POWER),
            seq![predicted, target],
            by_mse,
            after_mse,
        ),
        g.creates(
            Operation::AbsPowerError(0x4000_0000u32),
            seq![predicted, target],
            by_mpe,
            after_mpe,
        ),
    ensures
        by_mse == by_mpe,
        after_mse == after_mpe,
{
    lemma_creation_is_determined(
        g,
        Operation::AbsPowerError(SQUARED_ERROR_POWER),
        seq![predicted, target],
        by_mse,
        after_mse,
        by_mpe,
        after_mpe,
    );
}

/// Slicing a concatenation at the boundary gives back the extents of the two
/// operands: where `joined` is the node that `concat` made of `a` and `b`, the
/// slice of its first rows, as many as `a` has, is accepted and has the rows
/// and columns of `a`; the slice of its remaining rows is accepted and has
/// the rows and columns of `b`.
pub proof fn lemma_slices_of_concat_have_operand_extents(
    g: GraphModel,
    a: Node,
    b: Node,
    joined: Node,
    after: GraphModel,
)
    requires
        g.well_formed(),
        g.creates(Operation::Concat, seq![a, b], Ok(joined), after),
    ensures
        after.shape_of(joined).rows == g.shape_of(a).rows + g.shape_of(b).rows,
        after.check(Operation::SliceRows(0, g.shape_of(a).rows), seq![joined]) matches Ok(upper)
            && upper.same_extent(g.shape_of(a)),
        after.check(
            Operation::SliceRows(g.shape_of(a).rows, after.shape_of(joined).rows),
            seq![joined],
        ) matches Ok(lower) && lower.same_extent(g.shape_of(b)),
{
    let given = seq![a, b];
    g.lemma_check_passes(Operation::Concat, given);
    assert(given[0] == a && given[1] == b);
    let shapes = g.shapes_of(given);
    assert(shapes[0] == g.shape_of(a) && shapes[1] == g.shape_of(b));
    let rows = g.shape_of(a).rows;
    let all = after.shape_of(joined).rows;
    let one = seq![joined];
    assert(one[0] == joined);
    assert(after.contains_all(one));
    assert(after.shapes_of(one)[0] == after.shape_of(joined));
    after.lemma_check_passes(Operation::SliceRows(0, rows), one);
    after.lemma_check_passes(Operation::SliceRows(rows, all), one);
}

/// The shape that the five nodes give which a fused dual affine stands for:
/// the affine map of each input with the shared weights and bias, the
/// activation of each, and the concatenation of the two. `None` where one of
/// the five is refused.
pub open spec fn unfused_dual_shape(
    weights: Shape,
    stm: Shape,
    nstm: Shape,
    bias: Shape,
    activation: Activation,
) -> Option<Shape> {
    match (
        Operation::Affine.accepts(seq![weights, stm, bias]),
        Operation::Affine.accepts(seq![weights, nstm, bias]),
    ) {
        (Ok(left), Ok(right)) => match (
            Operation::Activate(activation).accepts(seq![left]),
            Operation::Activate(activation).accepts(seq![right]),
        ) {
            (Ok(left), Ok(right)) => match Operation::Concat.accepts(seq![left, right]) {
                Ok(shape) => Some(shape),
                Err(_) => None,
            },
            _ => None,
        },
        _ => None,
    }
}

/// The fused dual affine is accepted on exactly the operand shapes on which
/// the five nodes it stands for are accepted, and gives the shape that they
/// give.
pub proof fn lemma_dual_shape_is_unfused_shape(
    weights: Shape,
    stm: Shape,
    nstm: Shape,
    bias: Shape,
    activation: Activation,
)
    ensures
        Operation::SparseAffineDual(activation).accepts(seq![weights, stm, nstm, bias]) is Ok
            <==> unfused_dual_shape(weights, stm, nstm, bias, activation) is Some,
        Operation::SparseAffineDual(activation).accepts(seq![weights, stm, nstm, bias]) matches Ok(
            shape,
        ) ==> unfused_dual_shape(weights, stm, nstm, bias, activation) == Some(shape),
{
    let fused = seq![weights, stm, nstm, bias];
    let upper = seq![weights, stm, bias];
    let lower = seq![weights, nstm, bias];
    assert(fused[0] == weights && fused[1] == stm && fused[2] == nstm && fused[3] == bias);
    assert(upper[0] == weights && upper[1] == stm && upper[2] == bias);
    assert(lower[0] == weights && lower[1] == nstm && lower[2] == bias);
    assert(any_batched(fused) == (weights.batched || stm.batched || nstm.batched || bias.batched));
    assert(any_batched(upper) == (weights.batched || stm.batched || bias.batched));
    assert(any_batched(lower) == (weights.batched || nstm.batched || bias.batched));
    if let (Ok(left), Ok(right)) = (
        Operation::Affine.accepts(upper),
        Operation::Affine.accepts(lower),
    ) {
        let both = seq![left, right];
        assert(both[0] == left && both[1] == right);
        assert(any_batched(both) == (left.batched || right.batched));
        assert(seq![left][0] == left);
        assert(seq![right][0] == right);
    }
}

/// A node that nothing consumes receives no gradient: a backward pass has a
/// step into a node exactly if the node's consumer count is not zero. The
/// gradient of an unconsumed node therefore stays as it was before the pass,
/// zero for every node but the one that was seeded.
pub proof fn lemma_gradient_reaches_consumed_nodes_only(g: GraphModel, n: nat)
    requires
        g.well_formed(),
        n < g.nodes.len(),
    ensures
        g.nodes[n as int].consumer_count == 0 <==> forall|k: int|
            0 <= k < g.backward_pass().len() ==> (#[trigger] g.backward_pass()[k]).target != n,
{
    let pass = g.backward_pass();
    let len = g.nodes.len();
    assert(g.consumers_counted(n as int));
    g.lemma_consumers_zero(n, len);
    g.lemma_backward_steps(len);
    if g.nodes[n as int].consumer_count == 0 {
        assert forall|k: int| 0 <= k < pass.len() implies (#[trigger] pass[k]).target != n by {
            assert(g.routes(pass[k]));
            let source = pass[k].source as int;
            if pass[k].target == n {
                assert(g.nodes[source].operands[pass[k].slot as int] == n);
                assert(g.nodes[source].operands.contains(n));
            }
        }
    } else {
        let j = choose|j: int| 0 <= j < len && (#[trigger] g.nodes[j]).operands.contains(n);
        let slot = choose|slot: int|
            0 <= slot < g.nodes[j].operands.len() && g.nodes[j].operands[slot] == n;
        g.lemma_backward_steps_complete(len, j as nat, slot as nat);
        let k = choose|k: int|
            0 <= k < pass.len() && pass[k] == (crate::passes::StepModel {
                source: j as nat,
                slot: slot as nat,
                target: n,
            });
        assert(pass[k].target == n);
    }
}

/// In a backward pass the gradient of a node is complete before it is used:
/// every step into a node comes before every step out of it.
pub proof fn lemma_gradient_complete_before_use(g: GraphModel, into: int, out: int)
    requires
        g.well_formed(),
        0 <= into < g.backward_pass().len(),
        0 <= out < g.backward_pass().len(),
        g.backward_pass()[into].target == g.backward_pass()[out].source,
    ensures
        into < out,
{
    let pass = g.backward_pass();
    g.lemma_backward_steps(g.nodes.len());
    assert(g.routes(pass[into]));
    assert(g.nodes[pass[into].source as int].operands[pass[into].slot as int] < pass[into].source);
    if out <= into {
        assert(pass[out].source >= pass[into].source);
    }
}

/// In a forward pass every value is there before it is read: an operand of a
/// node that the pass computes is a leaf, or the pass computes it earlier.
pub proof fn lemma_operands_ready_in_forward_pass(g: GraphModel, at: int, slot: int)
    requires
        g.well_formed(),
        0 <= at < g.forward_pass().len(),
        0 <= slot < g.nodes[g.forward_pass()[at] as int].operands.len(),
    ensures
        ({
            let operand = g.nodes[g.forward_pass()[at] as int].operands[slot];
            g.nodes[operand as int].operation is None || exists|earlier: int|
                0 <= earlier < at && g.forward_pass()[earlier] == operand
        }),
{
    let pass = g.forward_pass();
    g.lemma_forward_steps(g.nodes.len());
    let node = pass[at];
    let operand = g.nodes[node as int].operands[slot];
    assert(operand < node);
    if g.nodes[operand as int].operation is Some {
        assert(pass.contains(operand));
        let earlier = choose|earlier: int| 0 <= earlier < pass.len() && pass[earlier] == operand;
        if earlier >= at {
            if earlier > at {
                assert(pass[at] < pass[earlier]);
            }
        }
        assert(0 <= earlier < at && pass[earlier] == operand);
    }
}

} // verus!
