use gpt::{Hyperparameters, Op, TensorError, GPT};

fn tiny() -> GPT {
    // vocabulary 4, width 3, context 4, one block, one head of size 2
    GPT::new(4, 3, 4, 1, 1, 2, 0).unwrap()
}

#[test]
fn tiny_model_counts_its_parameters() {
    // tables 4*3 + 4*3; block: norm 3+3, head 3*(3*2), projection 2*3 + 3,
    // second norm 3+3, feed-forward 3*12 + 12 + 12*3 + 3; last norm 3+3,
    // vocabulary projection 3*4 + 4
    let expected = 12 + 12 + (6 + 18 + 9 + 6 + 36 + 12 + 36 + 3) + 6 + 16;
    assert_eq!(expected, 172);
    assert_eq!(tiny().num_params(), 172);
}

#[test]
fn parameter_count_is_the_sum_of_the_registered_sizes() {
    let model = GPT::new(7, 5, 6, 3, 2, 4, 2).unwrap();
    let mut total = 0usize;
    for id in model.params().iter() {
        let node = model.graph().get(*id);
        assert_eq!(node.op, Op::Leaf);
        total += node.shape.iter().product::<usize>();
    }
    assert_eq!(model.num_params(), total);
}

#[test]
fn registered_tensors_are_as_many_as_the_architecture_says() {
    let model = GPT::new(7, 5, 6, 3, 2, 4, 2).unwrap();
    // 6 + layers * (10 + 3 * heads + 2 * hiddens)
    assert_eq!(model.params().len(), 6 + 3 * (10 + 3 * 2 + 2 * 2));
}

#[test]
fn one_more_layer_adds_the_parameters_of_one_block() {
    let e = 5usize;
    let (h, s, f) = (2usize, 4usize, 1usize);
    let two = GPT::new(9, e, 8, 2, h, s, f).unwrap().num_params();
    let three = GPT::new(9, e, 8, 3, h, s, f).unwrap().num_params();
    let block = 4 * (h * s * e) + f * (16 * e * e + 4 * e) + 8 * e * e + 10 * e;
    assert_eq!(three - two, block);
}

#[test]
fn one_more_head_adds_four_matrices_per_block() {
    let e = 5usize;
    let (l, s) = (3usize, 4usize);
    let two = GPT::new(9, e, 8, l, 2, s, 0).unwrap().num_params();
    let three = GPT::new(9, e, 8, l, 3, s, 0).unwrap().num_params();
    assert_eq!(three - two, l * 4 * s * e);
}

#[test]
fn registration_follows_the_order_of_construction() {
    let model = tiny();
    // node ids: 0..4 prologue; block at 5: norm 5,6,7; head 8..20; middle 21..35;
    // contraction 36..40; epilogue 41..47
    let expected: Vec<usize> =
        vec![0, 1, 5, 6, 8, 9, 10, 22, 23, 28, 29, 31, 32, 36, 37, 41, 42, 44, 45];
    assert_eq!(model.params(), &expected);
    assert_eq!(model.graph().len(), 48);
}

#[test]
fn additional_stages_register_between_expansion_and_contraction() {
    let model = GPT::new(4, 3, 4, 1, 1, 2, 1).unwrap();
    // the additional stage sits at 36..40, the contraction at 41..45
    let expected: Vec<usize> =
        vec![0, 1, 5, 6, 8, 9, 10, 22, 23, 28, 29, 31, 32, 36, 37, 41, 42, 46, 47, 49, 50];
    assert_eq!(model.params(), &expected);
}

#[test]
fn registered_tensors_are_exactly_the_leaves_but_the_inputs_in_rising_order() {
    for (l, h, f) in [(0usize, 0usize, 0usize), (1, 1, 0), (2, 3, 1), (3, 2, 4)] {
        let model = GPT::new(6, 4, 5, l, h, 2, f).unwrap();
        let g = model.graph();
        let leaves: Vec<usize> = (0..g.len())
            .filter(|id| g.get(*id).op == Op::Leaf)
            .filter(|id| *id != model.token_input() && *id != model.pos_input())
            .collect();
        assert_eq!(model.params(), &leaves);
        assert!(model.params().windows(2).all(|pair| pair[0] < pair[1]));
    }
}

#[test]
fn registered_shapes_follow_the_order_of_construction() {
    let model = GPT::new(7, 3, 5, 1, 1, 2, 1).unwrap();
    let shapes: Vec<Vec<usize>> =
        model.params().iter().map(|id| model.graph().get(*id).shape.clone()).collect();
    let expected: Vec<Vec<usize>> = vec![
        vec![7, 3],
        vec![5, 3],
        vec![3],
        vec![3],
        vec![3, 2],
        vec![3, 2],
        vec![3, 2],
        vec![2, 3],
        vec![3],
        vec![3],
        vec![3],
        vec![3, 12],
        vec![12],
        vec![12, 12],
        vec![12],
        vec![12, 3],
        vec![3],
        vec![3],
        vec![3],
        vec![3, 7],
        vec![7],
    ];
    assert_eq!(shapes, expected);
}

#[test]
fn graph_has_the_fixed_places() {
    let model = tiny();
    assert_eq!(model.token_embedding(), 0);
    assert_eq!(model.pos_embedding(), 1);
    assert_eq!(model.token_input(), 2);
    assert_eq!(model.pos_input(), 3);
    assert_eq!(model.output(), model.graph().len() - 1);
    assert_eq!(model.graph().get(0).shape, vec![4, 3]);
    assert_eq!(model.graph().get(1).shape, vec![4, 3]);
    assert_eq!(model.graph().get(2).shape, vec![4, 3]);
    assert_eq!(model.graph().get(3).shape, vec![4, 3]);
    let sum = model.graph().get(4);
    assert_eq!(sum.op, Op::Add);
    assert_eq!(sum.inputs, vec![2, 3]);
    let logits = model.graph().get(model.output());
    assert_eq!(logits.op, Op::Add);
    assert_eq!(logits.shape, vec![4, 4]);
}

#[test]
fn attention_head_is_wired_as_scaled_masked_scores() {
    let model = GPT::new(11, 6, 5, 1, 2, 3, 0).unwrap();
    let g = model.graph();
    // first head at 8, normalised input at 7
    for k in 0..3 {
        assert_eq!(g.get(8 + k).op, Op::Leaf);
        assert_eq!(g.get(8 + k).shape, vec![6, 3]);
        assert_eq!(g.get(11 + k).op, Op::MatMul);
        assert_eq!(g.get(11 + k).inputs, vec![7, 8 + k]);
        assert_eq!(g.get(11 + k).shape, vec![5, 3]);
    }
    assert_eq!(g.get(14).op, Op::Transpose);
    assert_eq!(g.get(14).inputs, vec![12]);
    assert_eq!(g.get(14).shape, vec![3, 5]);
    assert_eq!(g.get(15).op, Op::MatMul);
    assert_eq!(g.get(15).inputs, vec![11, 14]);
    assert_eq!(g.get(15).shape, vec![5, 5]);
    assert_eq!(g.get(16).op, Op::Coeff(3));
    assert_eq!(g.get(17).op, Op::Mask(5));
    assert_eq!(g.get(18).op, Op::Softmax);
    assert_eq!(g.get(18).inputs, vec![17]);
    assert_eq!(g.get(19).op, Op::Dropout);
    assert_eq!(g.get(20).op, Op::MatMul);
    assert_eq!(g.get(20).inputs, vec![19, 13]);
    // second head follows at 21, and both are concatenated at 34
    assert_eq!(g.get(34).op, Op::Cat);
    assert_eq!(g.get(34).inputs, vec![20, 33]);
    assert_eq!(g.get(34).shape, vec![5, 6]);
}

#[test]
fn every_normalisation_reads_the_causal_mask_of_this_context() {
    for t in [1usize, 3, 8] {
        let model = GPT::new(5, 4, t, 2, 3, 2, 1).unwrap();
        let g = model.graph();
        let mut seen = 0;
        for id in 0..g.len() {
            let node = g.get(id);
            if node.op == Op::Softmax {
                assert_eq!(node.inputs.len(), 1);
                assert_eq!(g.get(node.inputs[0]).op, Op::Mask(t));
                seen += 1;
            }
            if let Op::Mask(side) = node.op {
                assert_eq!(side, t);
            }
        }
        assert_eq!(seen, 2 * 3);
    }
}

#[test]
fn every_operand_is_an_earlier_node() {
    let model = GPT::new(5, 4, 3, 2, 2, 2, 2).unwrap();
    let g = model.graph();
    for id in 0..g.len() {
        for input in g.get(id).inputs.iter() {
            assert!(*input < id);
        }
    }
}

#[test]
fn model_without_blocks_projects_the_embeddings() {
    let model = GPT::new(4, 3, 2, 0, 0, 0, 0).unwrap();
    assert_eq!(model.graph().len(), 5 + 7);
    assert_eq!(model.num_params(), 12 + 6 + 6 + 12 + 4);
    let expected: Vec<usize> = vec![0, 1, 5, 6, 8, 9];
    assert_eq!(model.params(), &expected);
}

#[test]
fn block_without_heads_is_refused() {
    assert!(matches!(GPT::new(4, 3, 4, 1, 0, 2, 0), Err(TensorError::UnexpectedShape)));
}

#[test]
fn widths_beyond_the_machine_are_refused() {
    assert!(matches!(GPT::new(4, usize::MAX / 2, 4, 1, 1, 2, 0), Err(TensorError::TooLarge)));
    assert!(matches!(GPT::new(4, 3, 4, 1, usize::MAX, 2, 0), Err(TensorError::TooLarge)));
}

#[test]
fn parameter_count_beyond_the_machine_is_refused() {
    let big = 1usize << (usize::BITS / 2);
    assert!(matches!(GPT::new(big, big, 1, 0, 0, 0, 0), Err(TensorError::TooLarge)));
}

#[test]
fn model_remembers_its_sizes() {
    let model = GPT::new(7, 5, 6, 3, 2, 4, 1).unwrap();
    assert_eq!(
        model.hp(),
        Hyperparameters {
            vocab_size: 7,
            embedding_degree: 5,
            num_tokens: 6,
            num_layers: 3,
            num_heads: 2,
            head_size: 4,
            hiddens: 1,
        }
    );
    assert_eq!(model.vocab_size(), 7);
    assert_eq!(model.num_tokens(), 6);
}

#[test]
fn inputs_and_parameters_enter_the_output() {
    let model = GPT::new(6, 4, 5, 2, 3, 2, 2).unwrap();
    let g = model.graph();
    let mut enters = vec![false; g.len()];
    enters[model.output()] = true;
    for id in (0..g.len()).rev() {
        if enters[id] {
            for input in g.get(id).inputs.iter() {
                enters[*input] = true;
            }
        }
    }
    assert!(enters[model.token_input()]);
    assert!(enters[model.pos_input()]);
    for id in model.params().iter().skip(2) {
        assert!(enters[*id]);
    }
    // the tables are bound by copying, not wired
    assert!(!enters[model.token_embedding()]);
    assert!(!enters[model.pos_embedding()]);
    // nothing else is left dangling
    assert!(enters.iter().skip(2).all(|e| *e));
}

#[test]
fn graph_has_twelve_nodes_besides_its_blocks() {
    for (l, h, f) in [(0usize, 0usize, 0usize), (1, 1, 0), (2, 3, 1), (3, 2, 4)] {
        let model = GPT::new(6, 4, 5, l, h, 2, f).unwrap();
        assert_eq!(model.graph().len(), 12 + l * (23 + 13 * h + 5 * f));
    }
}
