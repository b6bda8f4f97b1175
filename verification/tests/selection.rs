use gpt::mask::causal_mask;
use gpt::rank::rank;

#[test]
fn larger_keys_are_scanned_first() {
    assert_eq!(rank(&[10, 30, 20]), vec![1, 2, 0]);
}

#[test]
fn equal_keys_are_scanned_from_the_larger_id() {
    assert_eq!(rank(&[5, 5, 5, 5]), vec![3, 2, 1, 0]);
    assert_eq!(rank(&[1, 9, 1, 9, 0]), vec![3, 1, 2, 0, 4]);
}

#[test]
fn single_peak_is_scanned_first() {
    // probabilities 0, 0, 1, 0 quantised to three decimals
    let order = rank(&[0, 0, 1000, 0]);
    assert_eq!(order, vec![2, 3, 1, 0]);
    // the first candidate carries all the mass, so any draw below one stops at it
    let mass = [0.0f32, 0.0, 1.0, 0.0];
    for draw in [0.0f32, 0.25, 0.5, 0.999_999] {
        let mut accum = 0.0f32;
        let mut chosen = None;
        for id in order.iter() {
            accum += mass[*id];
            if draw < accum {
                chosen = Some(*id);
                break;
            }
        }
        assert_eq!(chosen, Some(2));
    }
}

#[test]
fn scan_order_is_the_stable_sort_read_backwards() {
    let keys: Vec<usize> = (0..200).map(|i| (i * 37 + 11) % 17).collect();
    let mut expected: Vec<usize> = (0..keys.len()).collect();
    expected.sort_by_key(|id| keys[*id]);
    expected.reverse();
    assert_eq!(rank(&keys), expected);
}

#[test]
fn no_candidate_gives_no_order() {
    assert_eq!(rank(&[]), Vec::<usize>::new());
    assert_eq!(rank(&[3]), vec![0]);
}

#[test]
fn mask_forbids_the_positions_to_come() {
    let mask = causal_mask(3);
    assert_eq!(
        mask,
        vec![
            vec![false, true, true],
            vec![false, false, true],
            vec![false, false, false],
        ]
    );
}

#[test]
fn mask_follows_the_context_length() {
    for n in [0usize, 1, 2, 7] {
        let mask = causal_mask(n);
        assert_eq!(mask.len(), n);
        for i in 0..n {
            assert_eq!(mask[i].len(), n);
            for j in 0..n {
                assert_eq!(mask[i][j], j > i);
            }
        }
    }
}
