use bullet::autograd::{GraphBuilder, GraphError, Node};
use bullet::operations;
use bullet::tensor::{Operation, Shape};

fn shape(rows: usize, cols: usize, batched: bool) -> Shape {
    Shape { rows, cols, batched }
}

#[test]
fn new_builder_is_empty() {
    let builder = GraphBuilder::new();
    assert_eq!(builder.graph().len(), 0);
    assert!(builder.graph().node(0).is_none());
}

#[test]
fn leaves_get_consecutive_identifiers() {
    let mut builder = GraphBuilder::new();
    let a = builder.create_leaf(shape(3, 1, true));
    let b = builder.create_leaf(shape(2, 3, false));
    assert_eq!(a.index(), 0);
    assert_eq!(b.index(), 1);
    let graph = builder.build();
    assert_eq!(graph.len(), 2);
    let record = graph.get(b).unwrap();
    assert_eq!(record.operation(), None);
    assert!(record.operands().is_empty());
    assert_eq!(record.output_shape(), shape(2, 3, false));
    assert_eq!(record.consumer_count(), 0);
}

#[test]
fn affine_then_mse_builds_a_scalar_loss() {
    let mut builder = GraphBuilder::new();
    let w = builder.create_leaf(shape(1, 1, false));
    let x = builder.create_leaf(shape(1, 1, true));
    let b = builder.create_leaf(shape(1, 1, false));
    let y = builder.create_leaf(shape(1, 1, true));
    let out = operations::affine(&mut builder, w, x, b).unwrap();
    let loss = operations::mse(&mut builder, out, y).unwrap();
    let graph = builder.build();
    assert_eq!(graph.len(), 6);
    assert_eq!(out.index(), 4);
    assert_eq!(loss.index(), 5);
    let affine = graph.get(out).unwrap();
    assert_eq!(affine.operation(), Some(Operation::Affine));
    assert_eq!(affine.operands(), &[w, x, b][..]);
    assert_eq!(affine.output_shape(), shape(1, 1, true));
    let record = graph.get(loss).unwrap();
    assert_eq!(record.operation(), Some(Operation::AbsPowerError(0x4000_0000)));
    assert_eq!(record.operands(), &[out, y][..]);
    assert_eq!(record.output_shape(), shape(1, 1, false));
    assert_eq!(record.consumer_count(), 0);
    assert_eq!(graph.get(w).unwrap().consumer_count(), 1);
    assert_eq!(graph.get(out).unwrap().consumer_count(), 1);
}

#[test]
fn result_of_operation_is_appended_last() {
    let mut builder = GraphBuilder::new();
    let a = builder.create_leaf(shape(4, 1, true));
    let b = builder.create_leaf(shape(4, 1, false));
    let sum = builder.create_result_of_operation(Operation::Add, &[a, b]).unwrap();
    assert_eq!(sum.index(), 2);
    assert_eq!(builder.graph().len(), 3);
    let record = builder.graph().get(sum).unwrap();
    assert_eq!(record.operation(), Some(Operation::Add));
    assert_eq!(record.operands(), &[a, b][..]);
    assert_eq!(record.output_shape(), shape(4, 1, true));
}

#[test]
fn too_few_operands_is_an_arity_error() {
    let mut builder = GraphBuilder::new();
    let a = builder.create_leaf(shape(4, 1, true));
    let result = builder.create_result_of_operation(Operation::Add, &[a]);
    assert_eq!(
        result,
        Err(GraphError::ArityError { operation: Operation::Add, required: 2, given: 1 })
    );
    assert_eq!(builder.graph().len(), 1);
}

#[test]
fn too_many_operands_is_an_arity_error() {
    let mut builder = GraphBuilder::new();
    let a = builder.create_leaf(shape(4, 1, true));
    let result = builder.create_result_of_operation(Operation::PairwiseMul(false), &[a, a]);
    assert_eq!(
        result,
        Err(GraphError::ArityError {
            operation: Operation::PairwiseMul(false),
            required: 1,
            given: 2
        })
    );
}

#[test]
fn no_operation_takes_zero_operands() {
    let mut builder = GraphBuilder::new();
    let result = builder.create_result_of_operation(Operation::Affine, &[]);
    assert_eq!(
        result,
        Err(GraphError::ArityError { operation: Operation::Affine, required: 3, given: 0 })
    );
    assert_eq!(builder.graph().len(), 0);
}

fn foreign_node(position: usize) -> Node {
    let mut other = GraphBuilder::new();
    let mut last = other.create_leaf(shape(1, 1, false));
    while last.index() < position {
        last = other.create_leaf(shape(1, 1, false));
    }
    last
}

#[test]
fn operand_of_another_graph_is_an_invalid_node_reference() {
    let stranger = foreign_node(5);
    let mut builder = GraphBuilder::new();
    let a = builder.create_leaf(shape(4, 1, true));
    let result = operations::add(&mut builder, a, stranger);
    assert_eq!(result, Err(GraphError::InvalidNodeReference { node: stranger }));
    assert_eq!(builder.graph().len(), 1);
    assert_eq!(builder.graph().get(a).unwrap().consumer_count(), 0);
}

#[test]
fn first_unknown_operand_is_reported() {
    let near = foreign_node(3);
    let far = foreign_node(7);
    let mut builder = GraphBuilder::new();
    let a = builder.create_leaf(shape(4, 1, true));
    let result = operations::affine(&mut builder, far, a, near);
    assert_eq!(result, Err(GraphError::InvalidNodeReference { node: far }));
    let result = operations::affine(&mut builder, a, near, far);
    assert_eq!(result, Err(GraphError::InvalidNodeReference { node: near }));
}

#[test]
fn arity_is_checked_before_node_references() {
    let stranger = foreign_node(5);
    let mut builder = GraphBuilder::new();
    let result = builder.create_result_of_operation(Operation::Add, &[stranger]);
    assert_eq!(
        result,
        Err(GraphError::ArityError { operation: Operation::Add, required: 2, given: 1 })
    );
}

#[test]
fn node_references_are_checked_before_shapes() {
    let stranger = foreign_node(5);
    let mut builder = GraphBuilder::new();
    let a = builder.create_leaf(shape(3, 1, true));
    let result = operations::pairwise_mul(&mut builder, stranger);
    assert_eq!(result, Err(GraphError::InvalidNodeReference { node: stranger }));
    let result = operations::pairwise_mul(&mut builder, a);
    assert!(matches!(result, Err(GraphError::ShapeMismatch { .. })));
}

#[test]
fn shape_mismatch_names_node_operation_and_shapes() {
    let mut builder = GraphBuilder::new();
    let a = builder.create_leaf(shape(3, 1, false));
    let b = builder.create_leaf(shape(4, 1, true));
    let result = operations::add(&mut builder, a, b);
    assert_eq!(
        result,
        Err(GraphError::ShapeMismatch {
            node: b,
            operation: Operation::Add,
            expected: shape(3, 1, true),
            actual: shape(4, 1, true),
        })
    );
}

#[test]
fn failed_creation_leaves_the_graph_as_it_was() {
    let mut builder = GraphBuilder::new();
    let a = builder.create_leaf(shape(3, 1, false));
    let b = builder.create_leaf(shape(4, 1, true));
    assert!(operations::add(&mut builder, a, b).is_err());
    assert!(operations::concat(&mut builder, a, foreign_node(9)).is_err());
    let graph = builder.build();
    assert_eq!(graph.len(), 2);
    assert_eq!(graph.get(a).unwrap().consumer_count(), 0);
    assert_eq!(graph.get(b).unwrap().consumer_count(), 0);
}

#[test]
fn consumer_count_counts_consuming_nodes() {
    let mut builder = GraphBuilder::new();
    let x = builder.create_leaf(shape(4, 1, true));
    let y = builder.create_leaf(shape(4, 1, true));
    let doubled = operations::add(&mut builder, x, x).unwrap();
    assert_eq!(builder.graph().get(x).unwrap().consumer_count(), 1);
    let sum = operations::add(&mut builder, x, y).unwrap();
    let both = operations::concat(&mut builder, doubled, sum).unwrap();
    let graph = builder.build();
    assert_eq!(graph.get(x).unwrap().consumer_count(), 2);
    assert_eq!(graph.get(y).unwrap().consumer_count(), 1);
    assert_eq!(graph.get(doubled).unwrap().consumer_count(), 1);
    assert_eq!(graph.get(sum).unwrap().consumer_count(), 1);
    assert_eq!(graph.get(both).unwrap().consumer_count(), 0);
}

#[test]
fn earlier_entries_keep_operation_operands_and_shape() {
    let mut builder = GraphBuilder::new();
    let x = builder.create_leaf(shape(4, 1, true));
    let half = operations::pairwise_mul(&mut builder, x).unwrap();
    let before = (
        builder.graph().get(half).unwrap().operation(),
        builder.graph().get(half).unwrap().operands().to_vec(),
        builder.graph().get(half).unwrap().output_shape(),
    );
    let _ = operations::add(&mut builder, half, half).unwrap();
    let _ = operations::slice_rows(&mut builder, half, 0, 1).unwrap();
    let _ = builder.create_leaf(shape(9, 9, false));
    let after = (
        builder.graph().get(half).unwrap().operation(),
        builder.graph().get(half).unwrap().operands().to_vec(),
        builder.graph().get(half).unwrap().output_shape(),
    );
    assert_eq!(before, after);
    assert_eq!(builder.graph().get(half).unwrap().consumer_count(), 2);
}

#[test]
fn operands_precede_the_node_that_consumes_them() {
    let mut builder = GraphBuilder::new();
    let w = builder.create_leaf(shape(8, 4, false));
    let x = builder.create_leaf(shape(4, 1, true));
    let h = operations::matmul(&mut builder, w, x).unwrap();
    let p = operations::pairwise_mul(&mut builder, h).unwrap();
    let s = operations::add(&mut builder, p, p).unwrap();
    let graph = builder.build();
    for position in 0..graph.len() {
        let node = graph.node(position).unwrap();
        for operand in graph.get(node).unwrap().operands() {
            assert!(operand.index() < node.index());
        }
    }
    assert_eq!(s.index(), 4);
}

#[test]
fn graph_answers_for_known_and_unknown_nodes() {
    let mut builder = GraphBuilder::new();
    let a = builder.create_leaf(shape(2, 1, false));
    let graph = builder.build();
    let stranger = foreign_node(3);
    assert!(graph.contains(a));
    assert!(!graph.contains(stranger));
    assert!(graph.get(stranger).is_none());
    assert_eq!(graph.node(0), Some(a));
    assert_eq!(graph.node(1), None);
}
