use gpt::dataset::{positions, sample_dataset, sample_window, window_at};
use gpt::gpt::CHECKPOINT_INTERVAL;
use gpt::unembed::unembed;
use gpt::{TensorError, GPT};

fn corpus() -> Vec<usize> {
    (0..16).map(|i| i % 4).collect()
}

#[test]
fn window_and_targets_are_shifted_by_one() {
    let data: Vec<usize> = vec![10, 11, 12, 13, 14];
    let sample = window_at(&data, 1, 3);
    assert_eq!(sample.xs, vec![11, 12, 13]);
    assert_eq!(sample.ys, vec![12, 13, 14]);
}

#[test]
fn window_wraps_around_a_short_corpus() {
    let data: Vec<usize> = vec![7, 8, 9];
    let sample = window_at(&data, 2, 5);
    assert_eq!(sample.xs, vec![9, 7, 8, 9, 7]);
    assert_eq!(sample.ys, vec![7, 8, 9, 7, 8]);
    let again = window_at(&data, 5, 5);
    assert_eq!(again.xs, sample.xs);
    assert_eq!(again.ys, sample.ys);
}

#[test]
fn empty_window_is_empty() {
    let data: Vec<usize> = vec![1];
    let sample = window_at(&data, 0, 0);
    assert!(sample.xs.is_empty());
    assert!(sample.ys.is_empty());
}

fn is_window(data: &[usize], xs: &[usize], ys: &[usize]) -> bool {
    (0..data.len()).any(|start| {
        let sample = window_at(data, start, xs.len());
        sample.xs == xs && sample.ys == ys
    })
}

#[test]
fn drawn_samples_are_windows_of_the_corpus() {
    let data: Vec<usize> = (0..23).map(|i| (i * 7) % 11).collect();
    let mut rng = rand::thread_rng();
    let samples = sample_dataset(&data, 40, 6, &mut rng);
    assert_eq!(samples.len(), 40);
    for sample in samples.iter() {
        assert_eq!(sample.xs.len(), 6);
        assert!(is_window(&data, &sample.xs, &sample.ys));
    }
}

#[test]
fn draws_reach_beyond_the_first_window() {
    let data: Vec<usize> = (0..16).collect();
    let mut rng = rand::thread_rng();
    let mut elsewhere = false;
    for _ in 0..64 {
        let sample = sample_window(&data, 4, &mut rng);
        assert!(sample.xs[0] < 16);
        if sample.xs[0] != 0 {
            elsewhere = true;
        }
    }
    assert!(elsewhere);
}

#[test]
fn positions_count_up_from_zero() {
    assert_eq!(positions(4), vec![0, 1, 2, 3]);
    assert!(positions(0).is_empty());
}

#[test]
fn positions_of_a_repeated_id_share_a_group() {
    let groups = unembed(&[2, 0, 2, 3, 2], 5).unwrap();
    let expected: Vec<Vec<usize>> = vec![vec![1], vec![], vec![0, 2, 4], vec![3], vec![]];
    assert_eq!(groups, expected);
}

#[test]
fn groups_share_out_every_position_once() {
    let ids: Vec<usize> = vec![3, 1, 4, 1, 5, 2, 6, 5, 3, 5];
    let groups = unembed(&ids, 7).unwrap();
    let mut seen = vec![0usize; ids.len()];
    for (row, group) in groups.iter().enumerate() {
        for p in group.iter() {
            assert_eq!(ids[*p], row);
            seen[*p] += 1;
        }
    }
    assert!(seen.iter().all(|n| *n == 1));
}

#[test]
fn id_outside_the_table_is_refused() {
    assert_eq!(unembed(&[0, 4, 1], 4), Err(TensorError::InvalidIndex));
    assert_eq!(unembed(&[0], 0), Err(TensorError::InvalidIndex));
    assert_eq!(unembed(&[], 0), Ok(vec![]));
}

#[test]
fn training_step_is_planned_for_every_worker() {
    let model = GPT::new(4, 3, 4, 1, 1, 2, 0).unwrap();
    let data = corpus();
    let plan = model.train(&data, 0, 5).unwrap();
    assert_eq!(plan.workers.len(), 5);
    assert_eq!(plan.poses, vec![0, 1, 2, 3]);
    let diagonal: Vec<Vec<usize>> = vec![vec![0], vec![1], vec![2], vec![3]];
    assert_eq!(plan.pos_groups, diagonal);
    for worker in plan.workers.iter() {
        let xs = &worker.sample.xs;
        let ys = &worker.sample.ys;
        assert_eq!(xs.len(), 4);
        assert!(is_window(&data, xs, ys));
        // in the cyclic corpus 0,1,2,3,... every token is followed by its successor
        for i in 0..4 {
            assert_eq!(ys[i], (xs[i] + 1) % 4);
        }
        assert_eq!(worker.token_groups, unembed(xs, 4).unwrap());
        for (row, group) in worker.token_groups.iter().enumerate() {
            assert_eq!(group.len(), 1);
            assert_eq!(xs[group[0]], row);
        }
    }
}

#[test]
fn checkpoint_falls_on_every_fiftieth_step() {
    assert_eq!(CHECKPOINT_INTERVAL, 50);
    let model = GPT::new(4, 3, 4, 1, 1, 2, 0).unwrap();
    let data = corpus();
    for step in 0..120 {
        let plan = model.train(&data, step, 1).unwrap();
        assert_eq!(plan.save, step % 50 == 0);
    }
}

#[test]
fn corpus_with_unknown_tokens_is_refused() {
    let model = GPT::new(4, 3, 4, 1, 1, 2, 0).unwrap();
    let data: Vec<usize> = vec![9, 9, 9];
    assert!(matches!(model.train(&data, 0, 2), Err(TensorError::InvalidIndex)));
}

#[test]
fn empty_batch_plans_no_worker() {
    let model = GPT::new(4, 3, 4, 1, 1, 2, 0).unwrap();
    let plan = model.train(&corpus(), 1, 0).unwrap();
    assert!(plan.workers.is_empty());
    assert!(!plan.save);
}

#[test]
fn checkpoint_follows_the_configured_interval() {
    let model = GPT::new(4, 3, 4, 1, 1, 2, 0).unwrap();
    let data = corpus();
    for interval in [1usize, 3, 7] {
        for step in 0..30 {
            let plan = model.train_every(&data, step, 1, interval).unwrap();
            assert_eq!(plan.save, step % interval == 0);
        }
    }
}

#[test]
fn empty_batch_draws_nothing_from_an_empty_corpus() {
    let model = GPT::new(4, 3, 4, 1, 1, 2, 0).unwrap();
    let plan = model.train(&[], 0, 0).unwrap();
    assert!(plan.workers.is_empty());
    assert_eq!(plan.poses, vec![0, 1, 2, 3]);
    assert!(plan.save);
    let mut rng = rand::thread_rng();
    assert!(sample_dataset(&[], 0, 4, &mut rng).is_empty());
}
