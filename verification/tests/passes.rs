use bullet::autograd::{Graph, GraphBuilder, Node};
use bullet::operations;
use bullet::passes::GradientStep;
use bullet::tensor::Shape;

fn shape(rows: usize, cols: usize, batched: bool) -> Shape {
    Shape { rows, cols, batched }
}

fn step(source: Node, slot: usize, target: Node) -> GradientStep {
    GradientStep { source, slot, target }
}

/// loss = mse(affine(w, x, b), y), with a leaf that nothing consumes.
fn regression() -> (Graph, [Node; 7]) {
    let mut builder = GraphBuilder::new();
    let w = builder.create_leaf(shape(1, 1, false));
    let x = builder.create_leaf(shape(1, 1, true));
    let b = builder.create_leaf(shape(1, 1, false));
    let unused = builder.create_leaf(shape(4, 1, false));
    let y = builder.create_leaf(shape(1, 1, true));
    let out = operations::affine(&mut builder, w, x, b).unwrap();
    let loss = operations::mse(&mut builder, out, y).unwrap();
    (builder.build(), [w, x, b, unused, y, out, loss])
}

#[test]
fn forward_pass_computes_the_results_in_creation_order() {
    let (graph, [_, _, _, _, _, out, loss]) = regression();
    assert_eq!(graph.forward_pass(), vec![out, loss]);
}

#[test]
fn forward_pass_of_leaves_alone_computes_nothing() {
    let mut builder = GraphBuilder::new();
    builder.create_leaf(shape(1, 1, false));
    builder.create_leaf(shape(2, 1, true));
    assert!(builder.graph().forward_pass().is_empty());
    assert!(GraphBuilder::new().build().forward_pass().is_empty());
}

#[test]
fn backward_pass_visits_the_nodes_in_reverse_creation_order() {
    let (graph, [w, x, b, _, y, out, loss]) = regression();
    assert_eq!(
        graph.backward_pass(),
        vec![
            step(loss, 0, out),
            step(loss, 1, y),
            step(out, 0, w),
            step(out, 1, x),
            step(out, 2, b),
        ]
    );
}

#[test]
fn backward_pass_of_leaves_alone_is_empty() {
    let mut builder = GraphBuilder::new();
    builder.create_leaf(shape(1, 1, false));
    assert!(builder.graph().backward_pass().is_empty());
    assert!(GraphBuilder::new().build().backward_pass().is_empty());
}

#[test]
fn backward_pass_has_a_step_for_each_use_of_a_node() {
    let mut builder = GraphBuilder::new();
    let x = builder.create_leaf(shape(4, 1, true));
    let doubled = operations::add(&mut builder, x, x).unwrap();
    let joined = operations::concat(&mut builder, doubled, x).unwrap();
    let graph = builder.build();
    assert_eq!(
        graph.backward_pass(),
        vec![
            step(joined, 0, doubled),
            step(joined, 1, x),
            step(doubled, 0, x),
            step(doubled, 1, x),
        ]
    );
    assert_eq!(graph.get(x).unwrap().consumer_count(), 2);
}

#[test]
fn no_gradient_reaches_a_node_that_nothing_consumes() {
    let (graph, nodes) = regression();
    let steps = graph.backward_pass();
    for node in nodes {
        let consumed = graph.get(node).unwrap().consumer_count() > 0;
        let reached = steps.iter().any(|s| s.target == node);
        assert_eq!(consumed, reached);
    }
    let [_, _, _, unused, _, _, loss] = nodes;
    assert_eq!(graph.get(unused).unwrap().consumer_count(), 0);
    assert_eq!(graph.get(loss).unwrap().consumer_count(), 0);
    assert!(steps.iter().all(|s| s.target != unused && s.target != loss));
}

#[test]
fn every_step_into_a_node_comes_before_every_step_out_of_it() {
    let mut builder = GraphBuilder::new();
    let w = builder.create_leaf(shape(8, 4, false));
    let x = builder.create_leaf(shape(4, 1, true));
    let h = operations::matmul(&mut builder, w, x).unwrap();
    let p = operations::pairwise_mul(&mut builder, h).unwrap();
    let q = operations::slice_rows(&mut builder, h, 0, 4).unwrap();
    let s = operations::add(&mut builder, p, q).unwrap();
    let _ = operations::concat(&mut builder, s, h).unwrap();
    let steps = builder.graph().backward_pass();
    assert_eq!(steps.len(), 8);
    for (into, a) in steps.iter().enumerate() {
        assert!(a.target.index() < a.source.index());
        for (out, b) in steps.iter().enumerate() {
            if a.target == b.source {
                assert!(into < out);
            }
        }
    }
}

#[test]
fn every_operand_is_ready_when_the_forward_pass_reads_it() {
    let mut builder = GraphBuilder::new();
    let w = builder.create_leaf(shape(8, 4, false));
    let x = builder.create_leaf(shape(4, 1, true));
    let h = operations::matmul(&mut builder, w, x).unwrap();
    let late = builder.create_leaf(shape(8, 1, false));
    let s = operations::add(&mut builder, h, late).unwrap();
    let graph = builder.build();
    let order = graph.forward_pass();
    assert_eq!(order, vec![h, s]);
    for (at, node) in order.iter().enumerate() {
        for operand in graph.get(*node).unwrap().operands() {
            let leaf = graph.get(*operand).unwrap().operation().is_none();
            assert!(leaf || order[..at].contains(operand));
        }
    }
}
