use gpt::shape::checked_size;
use gpt::{Graph, Op, TensorError};

#[test]
fn leaves_and_operators_get_consecutive_ids() {
    let mut g = Graph::new();
    assert_eq!(g.allocate(vec![2, 3]), 0);
    assert_eq!(g.allocate(vec![3, 4]), 1);
    assert_eq!(g.call(Op::MatMul, vec![0, 1]), Ok(2));
    assert_eq!(g.len(), 3);
    assert_eq!(g.get(2).shape, vec![2, 4]);
    assert_eq!(g.get(2).inputs, vec![0, 1]);
}

#[test]
fn matrices_that_do_not_meet_are_refused() {
    let mut g = Graph::new();
    g.allocate(vec![2, 3]);
    g.allocate(vec![4, 5]);
    assert_eq!(g.call(Op::MatMul, vec![0, 1]), Err(TensorError::UnexpectedShape));
    assert_eq!(g.len(), 2);
}

#[test]
fn missing_operand_is_an_invalid_index() {
    let mut g = Graph::new();
    g.allocate(vec![2, 3]);
    assert_eq!(g.call(Op::Relu, vec![1]), Err(TensorError::InvalidIndex));
    assert_eq!(g.call(Op::Relu, vec![0]), Ok(1));
}

#[test]
fn sum_broadcasts_the_second_operand() {
    let mut g = Graph::new();
    g.allocate(vec![5, 3]);
    g.allocate(vec![3]);
    g.allocate(vec![5]);
    assert_eq!(g.call(Op::Add, vec![0, 1]), Ok(3));
    assert_eq!(g.get(3).shape, vec![5, 3]);
    assert_eq!(g.call(Op::Add, vec![0, 2]), Err(TensorError::UnexpectedShape));
    assert_eq!(g.call(Op::Add, vec![1, 0]), Err(TensorError::UnexpectedShape));
}

#[test]
fn normalisation_wants_scale_and_bias_of_the_last_axis() {
    let mut g = Graph::new();
    g.allocate(vec![5, 3]);
    g.allocate(vec![3]);
    g.allocate(vec![5]);
    assert_eq!(g.call(Op::LayerNorm, vec![0, 1, 1]), Ok(3));
    assert_eq!(g.get(3).shape, vec![5, 3]);
    assert_eq!(g.call(Op::LayerNorm, vec![0, 1, 2]), Err(TensorError::UnexpectedShape));
    assert_eq!(g.call(Op::LayerNorm, vec![0, 1]), Err(TensorError::UnexpectedShape));
}

#[test]
fn mask_wants_a_square_of_its_side() {
    let mut g = Graph::new();
    g.allocate(vec![4, 4]);
    g.allocate(vec![4, 3]);
    assert_eq!(g.call(Op::Mask(4), vec![0]), Ok(2));
    assert_eq!(g.call(Op::Mask(3), vec![0]), Err(TensorError::UnexpectedShape));
    assert_eq!(g.call(Op::Mask(4), vec![1]), Err(TensorError::UnexpectedShape));
}

#[test]
fn transpose_exchanges_the_axes() {
    let mut g = Graph::new();
    g.allocate(vec![2, 7]);
    g.allocate(vec![7]);
    assert_eq!(g.call(Op::Transpose, vec![0]), Ok(2));
    assert_eq!(g.get(2).shape, vec![7, 2]);
    assert_eq!(g.call(Op::Transpose, vec![1]), Err(TensorError::UnexpectedShape));
}

#[test]
fn concatenation_adds_the_columns() {
    let mut g = Graph::new();
    g.allocate(vec![4, 2]);
    g.allocate(vec![4, 3]);
    g.allocate(vec![5, 3]);
    assert_eq!(g.call(Op::Cat, vec![0, 1, 0]), Ok(3));
    assert_eq!(g.get(3).shape, vec![4, 7]);
    assert_eq!(g.call(Op::Cat, vec![0, 2]), Err(TensorError::UnexpectedShape));
    assert_eq!(g.call(Op::Cat, vec![]), Err(TensorError::UnexpectedShape));
}

#[test]
fn concatenation_beyond_the_machine_is_too_large() {
    let mut g = Graph::new();
    g.allocate(vec![1, usize::MAX]);
    assert_eq!(g.call(Op::Cat, vec![0, 0]), Err(TensorError::TooLarge));
}

#[test]
fn a_leaf_cannot_be_applied() {
    let mut g = Graph::new();
    g.allocate(vec![1]);
    assert_eq!(g.call(Op::Leaf, vec![]), Err(TensorError::UnexpectedShape));
}

#[test]
fn shape_preserving_operators_keep_the_shape() {
    let mut g = Graph::new();
    g.allocate(vec![3, 2]);
    for op in [Op::Coeff(2), Op::Dropout, Op::Relu, Op::Softmax] {
        let id = g.call(op, vec![0]).unwrap();
        assert_eq!(g.get(id).shape, vec![3, 2]);
        assert_eq!(g.get(id).op, op);
    }
    g.allocate(vec![]);
    let scalar = g.len() - 1;
    assert_eq!(g.call(Op::Softmax, vec![scalar]), Err(TensorError::UnexpectedShape));
}

#[test]
fn element_count_is_the_product_of_the_dimensions() {
    assert_eq!(checked_size(&[]), Some(1));
    assert_eq!(checked_size(&[7]), Some(7));
    assert_eq!(checked_size(&[3, 4, 5]), Some(60));
    assert_eq!(checked_size(&[usize::MAX, 2]), None);
    assert_eq!(checked_size(&[usize::MAX, 2, 0]), Some(0));
}
