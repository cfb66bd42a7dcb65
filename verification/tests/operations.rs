use bullet::autograd::{GraphBuilder, GraphError, Node};
use bullet::operations;
use bullet::convolution::ConvolutionDescription;
use bullet::tensor::{Activation, Operation, Shape};

fn shape(rows: usize, cols: usize, batched: bool) -> Shape {
    Shape { rows, cols, batched }
}

fn shape_of(builder: &GraphBuilder, node: Node) -> Shape {
    builder.graph().get(node).unwrap().output_shape()
}

fn operation_of(builder: &GraphBuilder, node: Node) -> Option<Operation> {
    builder.graph().get(node).unwrap().operation()
}

#[test]
fn activate_keeps_the_shape() {
    let mut builder = GraphBuilder::new();
    let x = builder.create_leaf(shape(7, 3, true));
    let y = operations::activate(&mut builder, x, Activation::SCReLU).unwrap();
    assert_eq!(shape_of(&builder, y), shape(7, 3, true));
    assert_eq!(operation_of(&builder, y), Some(Operation::Activate(Activation::SCReLU)));
    assert_eq!(builder.graph().get(y).unwrap().operands(), &[x][..]);
}

#[test]
fn add_takes_equal_extents() {
    let mut builder = GraphBuilder::new();
    let a = builder.create_leaf(shape(5, 2, false));
    let b = builder.create_leaf(shape(5, 2, false));
    let sum = operations::add(&mut builder, a, b).unwrap();
    assert_eq!(shape_of(&builder, sum), shape(5, 2, false));
    assert_eq!(operation_of(&builder, sum), Some(Operation::Add));
}

#[test]
fn add_of_a_batched_operand_is_batched() {
    let mut builder = GraphBuilder::new();
    let a = builder.create_leaf(shape(5, 1, false));
    let b = builder.create_leaf(shape(5, 1, true));
    let sum = operations::add(&mut builder, a, b).unwrap();
    assert_eq!(shape_of(&builder, sum), shape(5, 1, true));
    let sum = operations::add(&mut builder, b, a).unwrap();
    assert_eq!(shape_of(&builder, sum), shape(5, 1, true));
}

#[test]
fn add_rejects_different_columns() {
    let mut builder = GraphBuilder::new();
    let a = builder.create_leaf(shape(5, 2, false));
    let b = builder.create_leaf(shape(5, 1, false));
    assert_eq!(
        operations::add(&mut builder, a, b),
        Err(GraphError::ShapeMismatch {
            node: b,
            operation: Operation::Add,
            expected: shape(5, 2, false),
            actual: shape(5, 1, false),
        })
    );
}

#[test]
fn affine_maps_input_features_to_output_features() {
    let mut builder = GraphBuilder::new();
    let w = builder.create_leaf(shape(16, 768, false));
    let x = builder.create_leaf(shape(768, 1, true));
    let b = builder.create_leaf(shape(16, 1, false));
    let out = operations::affine(&mut builder, w, x, b).unwrap();
    assert_eq!(shape_of(&builder, out), shape(16, 1, true));
    assert_eq!(operation_of(&builder, out), Some(Operation::Affine));
    assert_eq!(builder.graph().get(out).unwrap().operands(), &[w, x, b][..]);
}

#[test]
fn affine_rejects_an_input_of_the_wrong_length() {
    let mut builder = GraphBuilder::new();
    let w = builder.create_leaf(shape(16, 768, false));
    let x = builder.create_leaf(shape(700, 1, true));
    let b = builder.create_leaf(shape(16, 1, false));
    assert_eq!(
        operations::affine(&mut builder, w, x, b),
        Err(GraphError::ShapeMismatch {
            node: x,
            operation: Operation::Affine,
            expected: shape(768, 1, true),
            actual: shape(700, 1, true),
        })
    );
}

#[test]
fn affine_rejects_a_bias_of_the_wrong_length() {
    let mut builder = GraphBuilder::new();
    let w = builder.create_leaf(shape(16, 768, false));
    let x = builder.create_leaf(shape(768, 1, true));
    let b = builder.create_leaf(shape(768, 1, false));
    assert_eq!(
        operations::affine(&mut builder, w, x, b),
        Err(GraphError::ShapeMismatch {
            node: b,
            operation: Operation::Affine,
            expected: shape(16, 1, false),
            actual: shape(768, 1, false),
        })
    );
}

#[test]
fn affine_checks_the_input_before_the_bias() {
    let mut builder = GraphBuilder::new();
    let w = builder.create_leaf(shape(16, 768, false));
    let x = builder.create_leaf(shape(768, 2, true));
    let b = builder.create_leaf(shape(3, 1, false));
    assert_eq!(
        operations::affine(&mut builder, w, x, b),
        Err(GraphError::ShapeMismatch {
            node: x,
            operation: Operation::Affine,
            expected: shape(768, 1, true),
            actual: shape(768, 2, true),
        })
    );
}

#[test]
fn concat_adds_the_rows() {
    let mut builder = GraphBuilder::new();
    let a = builder.create_leaf(shape(3, 1, true));
    let b = builder.create_leaf(shape(5, 1, false));
    let joined = operations::concat(&mut builder, a, b).unwrap();
    assert_eq!(shape_of(&builder, joined), shape(8, 1, true));
    assert_eq!(operation_of(&builder, joined), Some(Operation::Concat));
}

#[test]
fn concat_rejects_different_columns() {
    let mut builder = GraphBuilder::new();
    let a = builder.create_leaf(shape(3, 2, true));
    let b = builder.create_leaf(shape(5, 1, true));
    assert_eq!(
        operations::concat(&mut builder, a, b),
        Err(GraphError::ShapeMismatch {
            node: b,
            operation: Operation::Concat,
            expected: shape(5, 2, true),
            actual: shape(5, 1, true),
        })
    );
}

#[test]
fn concat_rejects_rows_that_do_not_fit() {
    let mut builder = GraphBuilder::new();
    let a = builder.create_leaf(shape(usize::MAX - 2, 1, true));
    let b = builder.create_leaf(shape(3, 1, false));
    assert_eq!(
        operations::concat(&mut builder, a, b),
        Err(GraphError::ShapeMismatch {
            node: b,
            operation: Operation::Concat,
            expected: shape(2, 1, false),
            actual: shape(3, 1, false),
        })
    );
    let c = builder.create_leaf(shape(2, 1, false));
    let joined = operations::concat(&mut builder, a, c).unwrap();
    assert_eq!(shape_of(&builder, joined), shape(usize::MAX, 1, true));
}

#[test]
fn matmul_maps_input_features_to_output_features() {
    let mut builder = GraphBuilder::new();
    let w = builder.create_leaf(shape(1, 32, false));
    let x = builder.create_leaf(shape(32, 1, true));
    let out = operations::matmul(&mut builder, w, x).unwrap();
    assert_eq!(shape_of(&builder, out), shape(1, 1, true));
    assert_eq!(operation_of(&builder, out), Some(Operation::Linear));
}

#[test]
fn matmul_rejects_an_input_of_the_wrong_length() {
    let mut builder = GraphBuilder::new();
    let w = builder.create_leaf(shape(1, 32, false));
    let x = builder.create_leaf(shape(16, 1, true));
    assert_eq!(
        operations::matmul(&mut builder, w, x),
        Err(GraphError::ShapeMismatch {
            node: x,
            operation: Operation::Linear,
            expected: shape(32, 1, true),
            actual: shape(16, 1, true),
        })
    );
}

#[test]
fn mpe_is_a_scalar_that_holds_its_power() {
    let mut builder = GraphBuilder::new();
    let p = builder.create_leaf(shape(3, 1, true));
    let t = builder.create_leaf(shape(3, 1, true));
    let loss = operations::mpe(&mut builder, p, t, 2.5f32.to_bits()).unwrap();
    assert_eq!(shape_of(&builder, loss), shape(1, 1, false));
    match operation_of(&builder, loss) {
        Some(Operation::AbsPowerError(bits)) => assert_eq!(f32::from_bits(bits), 2.5),
        other => panic!("unexpected operation {:?}", other),
    }
}

#[test]
fn mpe_rejects_different_extents() {
    let mut builder = GraphBuilder::new();
    let p = builder.create_leaf(shape(3, 1, true));
    let t = builder.create_leaf(shape(1, 1, true));
    let power = 3.0f32.to_bits();
    assert_eq!(
        operations::mpe(&mut builder, p, t, power),
        Err(GraphError::ShapeMismatch {
            node: t,
            operation: Operation::AbsPowerError(power),
            expected: shape(3, 1, true),
            actual: shape(1, 1, true),
        })
    );
}

#[test]
fn squared_error_power_is_two() {
    assert_eq!(operations::SQUARED_ERROR_POWER, 2.0f32.to_bits());
    assert_eq!(f32::from_bits(operations::SQUARED_ERROR_POWER), 2.0);
}

#[test]
fn mse_is_mpe_with_power_two() {
    let mut by_mse = GraphBuilder::new();
    let mut by_mpe = GraphBuilder::new();
    for builder in [&mut by_mse, &mut by_mpe] {
        builder.create_leaf(shape(4, 1, true));
        builder.create_leaf(shape(4, 1, true));
        builder.create_leaf(shape(5, 1, true));
    }
    let p = by_mse.graph().node(0).unwrap();
    let t = by_mse.graph().node(1).unwrap();
    let odd = by_mse.graph().node(2).unwrap();
    let first = operations::mse(&mut by_mse, p, t);
    let second = operations::mpe(&mut by_mpe, p, t, 2.0f32.to_bits());
    assert_eq!(first, second);
    assert!(first.is_ok());
    let first = operations::mse(&mut by_mse, p, odd);
    let second = operations::mpe(&mut by_mpe, p, odd, 2.0f32.to_bits());
    assert_eq!(first, second);
    assert!(first.is_err());
    assert_eq!(by_mse.graph().len(), by_mpe.graph().len());
    for position in 0..by_mse.graph().len() {
        let node = by_mse.graph().node(position).unwrap();
        let left = by_mse.graph().get(node).unwrap();
        let right = by_mpe.graph().get(node).unwrap();
        assert_eq!(left.operation(), right.operation());
        assert_eq!(left.operands(), right.operands());
        assert_eq!(left.output_shape(), right.output_shape());
        assert_eq!(left.consumer_count(), right.consumer_count());
    }
}

#[test]
fn pairwise_mul_halves_the_feature_dimension() {
    let mut builder = GraphBuilder::new();
    let x = builder.create_leaf(shape(512, 1, true));
    let y = operations::pairwise_mul(&mut builder, x).unwrap();
    assert_eq!(shape_of(&builder, y), shape(256, 1, true));
    assert_eq!(operation_of(&builder, y), Some(Operation::PairwiseMul(false)));
    let empty = builder.create_leaf(shape(0, 1, true));
    let y = operations::pairwise_mul(&mut builder, empty).unwrap();
    assert_eq!(shape_of(&builder, y), shape(0, 1, true));
}

#[test]
fn pairwise_mul_rejects_an_odd_feature_dimension() {
    let mut builder = GraphBuilder::new();
    let x = builder.create_leaf(shape(7, 1, true));
    assert_eq!(
        operations::pairwise_mul(&mut builder, x),
        Err(GraphError::ShapeMismatch {
            node: x,
            operation: Operation::PairwiseMul(false),
            expected: shape(6, 1, true),
            actual: shape(7, 1, true),
        })
    );
    let one = builder.create_leaf(shape(1, 4, false));
    assert_eq!(
        operations::pairwise_mul(&mut builder, one),
        Err(GraphError::ShapeMismatch {
            node: one,
            operation: Operation::PairwiseMul(false),
            expected: shape(0, 4, false),
            actual: shape(1, 4, false),
        })
    );
}

#[test]
fn pairwise_mul_post_sparse_affine_dual_halves_the_feature_dimension() {
    let mut builder = GraphBuilder::new();
    let x = builder.create_leaf(shape(1024, 1, true));
    let y = operations::pairwise_mul_post_sparse_affine_dual(&mut builder, x).unwrap();
    assert_eq!(shape_of(&builder, y), shape(512, 1, true));
    assert_eq!(operation_of(&builder, y), Some(Operation::PairwiseMul(true)));
    let odd = builder.create_leaf(shape(9, 1, true));
    assert_eq!(
        operations::pairwise_mul_post_sparse_affine_dual(&mut builder, odd),
        Err(GraphError::ShapeMismatch {
            node: odd,
            operation: Operation::PairwiseMul(true),
            expected: shape(8, 1, true),
            actual: shape(9, 1, true),
        })
    );
}

#[test]
fn select_picks_one_column() {
    let mut builder = GraphBuilder::new();
    let values = builder.create_leaf(shape(3, 8, true));
    let mask = builder.create_leaf(shape(8, 1, true));
    let picked = operations::select(&mut builder, values, mask).unwrap();
    assert_eq!(shape_of(&builder, picked), shape(3, 1, true));
    assert_eq!(operation_of(&builder, picked), Some(Operation::Select));
}

#[test]
fn select_rejects_a_mask_of_the_wrong_length() {
    let mut builder = GraphBuilder::new();
    let values = builder.create_leaf(shape(3, 8, true));
    let mask = builder.create_leaf(shape(3, 1, true));
    assert_eq!(
        operations::select(&mut builder, values, mask),
        Err(GraphError::ShapeMismatch {
            node: mask,
            operation: Operation::Select,
            expected: shape(8, 1, true),
            actual: shape(3, 1, true),
        })
    );
}

#[test]
fn sparse_affine_dual_gives_two_accumulators() {
    let mut builder = GraphBuilder::new();
    let w = builder.create_leaf(shape(256, 768, false));
    let stm = builder.create_leaf(shape(768, 1, true));
    let nstm = builder.create_leaf(shape(768, 1, true));
    let b = builder.create_leaf(shape(256, 1, false));
    let out = operations::sparse_affine_dual_with_activation(
        &mut builder,
        w,
        stm,
        nstm,
        b,
        Activation::CReLU,
    )
    .unwrap();
    assert_eq!(shape_of(&builder, out), shape(512, 1, true));
    assert_eq!(operation_of(&builder, out), Some(Operation::SparseAffineDual(Activation::CReLU)));
    assert_eq!(builder.graph().get(out).unwrap().operands(), &[w, stm, nstm, b][..]);
    assert_eq!(builder.graph().get(w).unwrap().consumer_count(), 1);
}

#[test]
fn sparse_affine_dual_has_the_shape_of_the_unfused_nodes() {
    let mut builder = GraphBuilder::new();
    let w = builder.create_leaf(shape(32, 64, false));
    let stm = builder.create_leaf(shape(64, 1, true));
    let nstm = builder.create_leaf(shape(64, 1, true));
    let b = builder.create_leaf(shape(32, 1, false));
    let act = Activation::SCReLU;
    let fused =
        operations::sparse_affine_dual_with_activation(&mut builder, w, stm, nstm, b, act).unwrap();
    let left = operations::affine(&mut builder, w, stm, b).unwrap();
    let left = operations::activate(&mut builder, left, act).unwrap();
    let right = operations::affine(&mut builder, w, nstm, b).unwrap();
    let right = operations::activate(&mut builder, right, act).unwrap();
    let unfused = operations::concat(&mut builder, left, right).unwrap();
    assert_eq!(shape_of(&builder, fused), shape_of(&builder, unfused));
    assert_eq!(shape_of(&builder, fused), shape(64, 1, true));
}

#[test]
fn sparse_affine_dual_rejects_what_the_unfused_nodes_reject() {
    let mut builder = GraphBuilder::new();
    let w = builder.create_leaf(shape(32, 64, false));
    let stm = builder.create_leaf(shape(64, 1, true));
    let nstm = builder.create_leaf(shape(63, 1, true));
    let b = builder.create_leaf(shape(32, 1, false));
    let act = Activation::ReLU;
    assert_eq!(
        operations::sparse_affine_dual_with_activation(&mut builder, w, stm, nstm, b, act),
        Err(GraphError::ShapeMismatch {
            node: nstm,
            operation: Operation::SparseAffineDual(act),
            expected: shape(64, 1, true),
            actual: shape(63, 1, true),
        })
    );
    assert!(operations::affine(&mut builder, w, stm, b).is_ok());
    assert!(operations::affine(&mut builder, w, nstm, b).is_err());
    let bias = builder.create_leaf(shape(64, 1, false));
    assert_eq!(
        operations::sparse_affine_dual_with_activation(&mut builder, w, stm, stm, bias, act),
        Err(GraphError::ShapeMismatch {
            node: bias,
            operation: Operation::SparseAffineDual(act),
            expected: shape(32, 1, false),
            actual: shape(64, 1, false),
        })
    );
}

#[test]
fn sparse_affine_dual_rejects_rows_that_do_not_fit_twice() {
    let mut builder = GraphBuilder::new();
    let rows = usize::MAX / 2 + 1;
    let w = builder.create_leaf(shape(rows, 4, false));
    let x = builder.create_leaf(shape(4, 1, true));
    let b = builder.create_leaf(shape(rows, 1, false));
    assert_eq!(
        operations::sparse_affine_dual_with_activation(
            &mut builder,
            w,
            x,
            x,
            b,
            Activation::Identity
        ),
        Err(GraphError::ShapeMismatch {
            node: w,
            operation: Operation::SparseAffineDual(Activation::Identity),
            expected: shape(usize::MAX / 2, 4, false),
            actual: shape(rows, 4, false),
        })
    );
}

#[test]
fn softmax_crossentropy_loss_is_a_scalar() {
    let mut builder = GraphBuilder::new();
    let p = builder.create_leaf(shape(64, 1, true));
    let t = builder.create_leaf(shape(64, 1, true));
    let loss = operations::softmax_crossentropy_loss(&mut builder, p, t).unwrap();
    assert_eq!(shape_of(&builder, loss), shape(1, 1, false));
    assert_eq!(operation_of(&builder, loss), Some(Operation::SoftmaxCrossEntropyLoss));
    let short = builder.create_leaf(shape(63, 1, true));
    assert_eq!(
        operations::softmax_crossentropy_loss(&mut builder, p, short),
        Err(GraphError::ShapeMismatch {
            node: short,
            operation: Operation::SoftmaxCrossEntropyLoss,
            expected: shape(64, 1, true),
            actual: shape(63, 1, true),
        })
    );
}

#[test]
fn sparse_softmax_crossentropy_loss_masked_is_a_scalar() {
    let mut builder = GraphBuilder::new();
    let mask = builder.create_leaf(shape(64, 1, true));
    let p = builder.create_leaf(shape(64, 1, true));
    let t = builder.create_leaf(shape(8, 1, true));
    let loss =
        operations::sparse_softmax_crossentropy_loss_masked(&mut builder, mask, p, t).unwrap();
    assert_eq!(shape_of(&builder, loss), shape(1, 1, false));
    assert_eq!(operation_of(&builder, loss), Some(Operation::SparseSoftmaxCrossEntropyLoss));
    assert_eq!(builder.graph().get(loss).unwrap().operands(), &[mask, p, t][..]);
}

#[test]
fn slice_rows_keeps_a_range_of_rows() {
    let mut builder = GraphBuilder::new();
    let x = builder.create_leaf(shape(10, 3, true));
    let part = operations::slice_rows(&mut builder, x, 2, 7).unwrap();
    assert_eq!(shape_of(&builder, part), shape(5, 3, true));
    assert_eq!(operation_of(&builder, part), Some(Operation::SliceRows(2, 7)));
    let all = operations::slice_rows(&mut builder, x, 0, 10).unwrap();
    assert_eq!(shape_of(&builder, all), shape(10, 3, true));
    let none = operations::slice_rows(&mut builder, x, 4, 4).unwrap();
    assert_eq!(shape_of(&builder, none), shape(0, 3, true));
}

#[test]
fn slice_rows_rejects_an_end_beyond_the_rows() {
    let mut builder = GraphBuilder::new();
    let x = builder.create_leaf(shape(10, 1, true));
    assert_eq!(
        operations::slice_rows(&mut builder, x, 2, 11),
        Err(GraphError::ShapeMismatch {
            node: x,
            operation: Operation::SliceRows(2, 11),
            expected: shape(11, 1, true),
            actual: shape(10, 1, true),
        })
    );
}

#[test]
fn slice_rows_rejects_bounds_out_of_order() {
    let mut builder = GraphBuilder::new();
    let x = builder.create_leaf(shape(10, 1, true));
    assert_eq!(
        operations::slice_rows(&mut builder, x, 5, 3),
        Err(GraphError::ShapeMismatch {
            node: x,
            operation: Operation::SliceRows(5, 3),
            expected: shape(3, 1, true),
            actual: shape(10, 1, true),
        })
    );
}

#[test]
fn concat_then_slice_rows_recovers_the_operand_extents() {
    let mut builder = GraphBuilder::new();
    let a = builder.create_leaf(shape(3, 2, true));
    let b = builder.create_leaf(shape(5, 2, true));
    let joined = operations::concat(&mut builder, a, b).unwrap();
    let upper = operations::slice_rows(&mut builder, joined, 0, 3).unwrap();
    let lower = operations::slice_rows(&mut builder, joined, 3, 8).unwrap();
    assert_eq!(shape_of(&builder, upper), shape_of(&builder, a));
    assert_eq!(shape_of(&builder, lower), shape_of(&builder, b));
}

#[test]
fn convolution_takes_the_shapes_of_its_descriptor() {
    let desc = ConvolutionDescription::new(8, 8, 12, 4, 3, 3, 1, 1).unwrap();
    let mut builder = GraphBuilder::new();
    let filters = builder.create_leaf(shape(9, 48, false));
    let input = builder.create_leaf(shape(768, 1, true));
    let out = operations::convolution(&mut builder, filters, input, desc).unwrap();
    assert_eq!(shape_of(&builder, out), shape(144, 1, true));
    assert_eq!(operation_of(&builder, out), Some(Operation::Convolution(desc)));
}

#[test]
fn convolution_rejects_other_shapes() {
    let desc = ConvolutionDescription::new(8, 8, 12, 4, 3, 3, 1, 1).unwrap();
    let mut builder = GraphBuilder::new();
    let filters = builder.create_leaf(shape(9, 48, false));
    let wrong_filters = builder.create_leaf(shape(48, 9, false));
    let input = builder.create_leaf(shape(768, 1, true));
    let wrong_input = builder.create_leaf(shape(64, 1, true));
    assert_eq!(
        operations::convolution(&mut builder, wrong_filters, input, desc),
        Err(GraphError::ShapeMismatch {
            node: wrong_filters,
            operation: Operation::Convolution(desc),
            expected: shape(9, 48, false),
            actual: shape(48, 9, false),
        })
    );
    assert_eq!(
        operations::convolution(&mut builder, filters, wrong_input, desc),
        Err(GraphError::ShapeMismatch {
            node: wrong_input,
            operation: Operation::Convolution(desc),
            expected: shape(768, 1, true),
            actual: shape(64, 1, true),
        })
    );
}

#[test]
fn a_two_layer_network_builds() {
    let mut builder = GraphBuilder::new();
    let stm = builder.create_leaf(shape(768, 1, true));
    let nstm = builder.create_leaf(shape(768, 1, true));
    let targets = builder.create_leaf(shape(1, 1, true));
    let l0w = builder.create_leaf(shape(128, 768, false));
    let l0b = builder.create_leaf(shape(128, 1, false));
    let l1w = builder.create_leaf(shape(1, 128, false));
    let l1b = builder.create_leaf(shape(1, 1, false));
    let l0 = operations::sparse_affine_dual_with_activation(
        &mut builder,
        l0w,
        stm,
        nstm,
        l0b,
        Activation::SCReLU,
    )
    .unwrap();
    let paired = operations::pairwise_mul_post_sparse_affine_dual(&mut builder, l0).unwrap();
    let l1 = operations::affine(&mut builder, l1w, paired, l1b).unwrap();
    let predicted = operations::activate(&mut builder, l1, Activation::Sigmoid).unwrap();
    let loss = operations::mse(&mut builder, predicted, targets).unwrap();
    assert_eq!(shape_of(&builder, l0), shape(256, 1, true));
    assert_eq!(shape_of(&builder, paired), shape(128, 1, true));
    assert_eq!(shape_of(&builder, predicted), shape(1, 1, true));
    assert_eq!(shape_of(&builder, loss), shape(1, 1, false));
    assert_eq!(builder.graph().len(), 12);
}
