use gpt::window::ContextWindow;
use gpt::{Generation, Step, TensorError, GPT};

fn expect_evaluate(g: &Generation) -> (Vec<usize>, usize) {
    match g.step() {
        Ok(Step::Evaluate { context, row }) => (context, row),
        _ => panic!("an evaluation was expected"),
    }
}

#[test]
fn window_starts_with_the_prompt_and_zeros() {
    let w = ContextWindow::new(5, &[7, 8]);
    assert_eq!(w.to_vec(), vec![7, 8, 0, 0, 0]);
    assert_eq!(w.cnt(), 2);
    assert_eq!(w.len(), 5);
}

#[test]
fn window_fills_then_slides() {
    let mut w = ContextWindow::new(3, &[1]);
    w.push(2);
    assert_eq!((w.to_vec(), w.cnt()), (vec![1, 2, 0], 2));
    w.push(3);
    assert_eq!((w.to_vec(), w.cnt()), (vec![1, 2, 3], 3));
    w.push(4);
    assert_eq!((w.to_vec(), w.cnt()), (vec![2, 3, 4], 3));
    w.push(5);
    assert_eq!((w.to_vec(), w.cnt()), (vec![3, 4, 5], 3));
    w.push(6);
    w.push(7);
    assert_eq!((w.to_vec(), w.cnt()), (vec![5, 6, 7], 3));
}

#[test]
fn window_of_one_slot_holds_the_last_token() {
    let mut w = ContextWindow::new(1, &[]);
    w.push(4);
    assert_eq!((w.to_vec(), w.cnt()), (vec![4], 1));
    w.push(9);
    assert_eq!((w.to_vec(), w.cnt()), (vec![9], 1));
}

#[test]
fn generation_reads_the_row_of_the_last_token() {
    let model = GPT::new(10, 3, 4, 1, 1, 2, 0).unwrap();
    let mut g = model.infer(&[5, 6], 3);
    assert_eq!(expect_evaluate(&g), (vec![5, 6, 0, 0], 1));
    g.accept(7);
    assert_eq!(expect_evaluate(&g), (vec![5, 6, 7, 0], 2));
    g.accept(8);
    assert_eq!(expect_evaluate(&g), (vec![5, 6, 7, 8], 3));
    g.accept(9);
    assert!(matches!(g.step(), Ok(Step::Finished)));
    assert_eq!(g.output(), &vec![5, 6, 7, 8, 9]);
    assert_eq!(g.into_output(), vec![5, 6, 7, 8, 9]);
}

#[test]
fn window_always_holds_the_most_recent_tokens() {
    let t = 4usize;
    let mut g = Generation::new(t, &[1, 2, 3], 20);
    let mut history: Vec<usize> = vec![1, 2, 3];
    for token in 10..30 {
        let (context, row) = expect_evaluate(&g);
        assert_eq!(context.len(), t);
        let cnt = row + 1;
        assert!(cnt <= t);
        assert_eq!(cnt, history.len().min(t));
        assert_eq!(&context[..cnt], &history[history.len() - cnt..]);
        assert!(context[cnt..].iter().all(|x| *x == 0));
        g.accept(token);
        history.push(token);
    }
    assert!(matches!(g.step(), Ok(Step::Finished)));
    assert_eq!(g.into_output(), history);
}

#[test]
fn full_prompt_slides_at_the_first_token() {
    let mut g = Generation::new(3, &[1, 2, 3], 2);
    assert_eq!(expect_evaluate(&g), (vec![1, 2, 3], 2));
    g.accept(4);
    assert_eq!(expect_evaluate(&g), (vec![2, 3, 4], 2));
    g.accept(5);
    assert_eq!(g.into_output(), vec![1, 2, 3, 4, 5]);
}

#[test]
fn nothing_to_generate_finishes_at_once() {
    let g = Generation::new(3, &[], 0);
    assert!(matches!(g.step(), Ok(Step::Finished)));
    assert_eq!(g.into_output(), Vec::<usize>::new());
}

#[test]
fn empty_prompt_has_no_row_to_read() {
    let g = Generation::new(3, &[], 1);
    assert!(matches!(g.step(), Err(TensorError::InvalidIndex)));
    let none = Generation::new(0, &[], 2);
    assert!(matches!(none.step(), Err(TensorError::InvalidIndex)));
}
