use roulette_wheel::scan::checked_total;
use roulette_wheel::{RouletteWheel, WeightError};

#[test]
fn new_wheel_is_empty() {
    let rw = RouletteWheel::<u8>::new();
    assert_eq!(rw.len(), 0);
    assert!(rw.is_empty());
    assert_eq!(rw.total_fitness(), 0);
}

#[test]
fn with_capacity_is_empty() {
    let rw = RouletteWheel::<u8>::with_capacity(15);
    assert_eq!(rw.len(), 0);
    assert!(rw.is_empty());
    assert_eq!(rw.total_fitness(), 0);
}

#[test]
fn reserve_changes_nothing() {
    let mut rw = RouletteWheel::<u8>::new();
    rw.push(7, 1).unwrap();
    rw.reserve(20);
    assert_eq!(rw.len(), 1);
    assert_eq!(rw.total_fitness(), 7);
}

#[test]
fn push_adds_to_the_total() {
    let mut rw = RouletteWheel::new();
    assert_eq!(rw.push(30, 'r'), Ok(()));
    assert_eq!(rw.total_fitness(), 30);
    assert_eq!(rw.push(20, 'c'), Ok(()));
    assert_eq!(rw.total_fitness(), 50);
    assert_eq!(rw.push(15, 'a'), Ok(()));
    assert_eq!(rw.total_fitness(), 65);
    assert_eq!(rw.len(), 3);
    assert!(!rw.is_empty());
}

#[test]
fn push_accepts_zero() {
    let mut rw = RouletteWheel::new();
    assert_eq!(rw.push(0, 'z'), Ok(()));
    assert_eq!(rw.len(), 1);
    assert_eq!(rw.total_fitness(), 0);
}

#[test]
fn push_rejects_a_negative_fitness() {
    let mut rw = RouletteWheel::new();
    rw.push(3, 'a').unwrap();
    assert_eq!(rw.push(-1, 'b'), Err(WeightError::InvalidWeight));
    assert_eq!(rw.len(), 1);
    assert_eq!(rw.total_fitness(), 3);
    assert_eq!(rw.push(i64::MIN, 'c'), Err(WeightError::InvalidWeight));
    assert_eq!(rw.len(), 1);
    assert_eq!(rw.total_fitness(), 3);
}

#[test]
fn push_rejects_an_overflowing_total() {
    let mut rw = RouletteWheel::new();
    rw.push(i64::MAX - 1, 'a').unwrap();
    assert_eq!(rw.push(2, 'b'), Err(WeightError::WeightOverflow));
    assert_eq!(rw.len(), 1);
    assert_eq!(rw.total_fitness(), i64::MAX - 1);
    assert_eq!(rw.push(1, 'c'), Ok(()));
    assert_eq!(rw.len(), 2);
    assert_eq!(rw.total_fitness(), i64::MAX);
    assert_eq!(rw.push(1, 'd'), Err(WeightError::WeightOverflow));
    assert_eq!(rw.push(0, 'e'), Ok(()));
    assert_eq!(rw.len(), 3);
}

#[test]
fn a_negative_fitness_is_invalid_even_where_the_total_is_full() {
    let mut rw = RouletteWheel::new();
    rw.push(i64::MAX, 'a').unwrap();
    assert_eq!(rw.push(-1, 'b'), Err(WeightError::InvalidWeight));
}

#[test]
fn unchecked_push_adds_like_push() {
    let mut rw = RouletteWheel::new();
    rw.unchecked_push(10, 'r');
    rw.unchecked_push(10, 'c');
    rw.unchecked_push(10, 'a');
    assert_eq!(rw.len(), 3);
    assert_eq!(rw.total_fitness(), 30);
}

#[test]
fn clear_resets_entries_and_total() {
    let mut rw = RouletteWheel::from_pairs(vec![(1, 10), (2, 15), (5, 20)]).unwrap();
    assert_eq!(rw.len(), 3);
    assert_eq!(rw.total_fitness(), 8);
    rw.clear();
    assert_eq!(rw.len(), 0);
    assert!(rw.is_empty());
    assert_eq!(rw.total_fitness(), 0);
    rw.push(4, 30).unwrap();
    assert_eq!(rw.total_fitness(), 4);
}

#[test]
fn from_pairs_holds_the_pairs() {
    let rw = RouletteWheel::from_pairs(vec![(1, 10), (2, 15), (5, 20)]).unwrap();
    assert_eq!(rw.len(), 3);
    assert_eq!(rw.total_fitness(), 8);
    let mut iter = roulette_wheel::IntoSelectIter::from_rng(rw, ());
    // The sample zero selects the first entry, whatever is left.
    assert_eq!(iter.select(0), Some((1, 10)));
    assert_eq!(iter.select(0), Some((5, 20)));
    assert_eq!(iter.select(0), Some((2, 15)));
    assert_eq!(iter.select(0), None);
}

#[test]
fn from_pairs_of_nothing_is_empty() {
    let rw = RouletteWheel::<u8>::from_pairs(Vec::new()).unwrap();
    assert_eq!(rw.len(), 0);
    assert_eq!(rw.total_fitness(), 0);
}

#[test]
fn from_pairs_fails_as_the_first_rejected_push() {
    assert!(matches!(
        RouletteWheel::from_pairs(vec![(1, 'a'), (-2, 'b'), (i64::MAX, 'c')]),
        Err(WeightError::InvalidWeight)
    ));
    assert!(matches!(
        RouletteWheel::from_pairs(vec![(1, 'a'), (i64::MAX, 'b'), (-2, 'c')]),
        Err(WeightError::WeightOverflow)
    ));
    assert!(matches!(
        RouletteWheel::from_pairs(vec![(i64::MAX, 'a'), (0, 'b')]),
        Ok(_)
    ));
}

#[test]
fn pushes_and_from_pairs_agree() {
    let pairs = vec![(3, 'x'), (0, 'y'), (11, 'z'), (7, 'w')];
    let mut pushed = RouletteWheel::new();
    for &(fitness, individual) in pairs.iter() {
        pushed.push(fitness, individual).unwrap();
    }
    let built = RouletteWheel::from_pairs(pairs).unwrap();
    assert_eq!(pushed.len(), built.len());
    assert_eq!(pushed.total_fitness(), built.total_fitness());
    assert_eq!(built.len(), 4);
    assert_eq!(built.total_fitness(), 21);
}

#[test]
fn clone_keeps_entries_and_total() {
    let rw = RouletteWheel::from_pairs(vec![(1, 10), (2, 15), (5, 20)]).unwrap();
    let copy = rw.clone();
    assert_eq!(copy.len(), 3);
    assert_eq!(copy.total_fitness(), 8);
    let mut left = roulette_wheel::IntoSelectIter::from_rng(rw, ());
    let mut right = roulette_wheel::IntoSelectIter::from_rng(copy, ());
    for sample in [8_000_000, 3, 0] {
        assert_eq!(left.select(sample), right.select(sample));
    }
    assert_eq!(left.select(0), None);
    assert_eq!(right.select(0), None);
}

#[test]
fn recompute_keeps_a_right_total() {
    let mut rw = RouletteWheel::from_pairs(vec![(1, 10), (2, 15), (5, 20)]).unwrap();
    assert_eq!(rw.recompute_total_fitness(), Ok(()));
    assert_eq!(rw.total_fitness(), 8);
    assert_eq!(rw.len(), 3);
    let mut empty = RouletteWheel::<u8>::new();
    assert_eq!(empty.recompute_total_fitness(), Ok(()));
    assert_eq!(empty.total_fitness(), 0);
}

#[test]
fn checked_total_sums_up() {
    assert_eq!(checked_total(&vec![]), Ok(0));
    assert_eq!(checked_total(&vec![1, 2, 3, 4, 5]), Ok(15));
    assert_eq!(checked_total(&vec![i64::MAX - 3, 0, 3]), Ok(i64::MAX));
}

#[test]
fn checked_total_reports_what_is_wrong() {
    assert_eq!(checked_total(&vec![1, -1, 3]), Err(WeightError::InvalidWeight));
    assert_eq!(checked_total(&vec![i64::MAX, 1]), Err(WeightError::WeightOverflow));
    assert_eq!(checked_total(&vec![i64::MAX, i64::MAX, i64::MAX]), Err(WeightError::WeightOverflow));
    // A negative fitness comes first, wherever it stands.
    assert_eq!(checked_total(&vec![i64::MAX, 1, -1]), Err(WeightError::InvalidWeight));
}

#[test]
fn unchecked_push_takes_what_push_rejects() {
    let mut rw = RouletteWheel::new();
    rw.push(3, 'a').unwrap();
    rw.unchecked_push(-5, 'b');
    assert_eq!(rw.len(), 2);
    assert_eq!(rw.total_fitness(), -2);
    assert_eq!(rw.recompute_total_fitness(), Err(WeightError::InvalidWeight));
    assert_eq!(rw.len(), 2);
    assert_eq!(rw.total_fitness(), -2);
}

#[test]
fn unchecked_push_stops_the_total_at_the_bound() {
    let mut rw = RouletteWheel::new();
    rw.unchecked_push(i64::MAX, 'a');
    assert_eq!(rw.total_fitness(), i64::MAX);
    assert_eq!(rw.recompute_total_fitness(), Ok(()));
    rw.unchecked_push(i64::MAX, 'b');
    assert_eq!(rw.len(), 2);
    assert_eq!(rw.total_fitness(), i64::MAX);
    assert_eq!(rw.recompute_total_fitness(), Err(WeightError::WeightOverflow));
    assert_eq!(rw.total_fitness(), i64::MAX);

    let mut low = RouletteWheel::new();
    low.unchecked_push(i64::MIN, 'a');
    low.unchecked_push(-1, 'b');
    assert_eq!(low.total_fitness(), i64::MIN);
    assert_eq!(low.recompute_total_fitness(), Err(WeightError::InvalidWeight));
}

#[test]
fn recompute_passes_after_sound_unchecked_pushes() {
    let mut rw = RouletteWheel::new();
    rw.unchecked_push(4, 'a');
    rw.unchecked_push(0, 'b');
    rw.unchecked_push(6, 'c');
    assert_eq!(rw.recompute_total_fitness(), Ok(()));
    assert_eq!(rw.total_fitness(), 10);
    assert_eq!(rw.len(), 3);
}
