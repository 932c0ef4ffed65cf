use sync_prims::contention::{count_under_lock, lock_with_failures, race_to_init};

#[test]
fn every_increment_counts_round_robin() {
    let n = 4;
    let schedule: Vec<usize> = (0..64).map(|i| i % n).collect();
    let r = count_under_lock(n, &schedule);
    assert_eq!(r.finished, vec![true; n]);
    assert_eq!(r.counter, n);
}

#[test]
fn every_increment_counts_when_threads_interleave_badly() {
    // Each thread is scheduled twice in a row, so a second thread tries to
    // read while the first one holds the lock between its read and write.
    let schedule = vec![0, 1, 0, 1, 2, 0, 2, 1, 0, 1, 2, 1, 2, 1, 2, 2, 1, 2, 9, 2, 2, 2];
    let r = count_under_lock(3, &schedule);
    assert_eq!(r.finished, vec![true, true, true]);
    assert_eq!(r.counter, 3);
}

#[test]
fn partial_run_counts_written_increments() {
    let r = count_under_lock(3, &vec![2, 2, 2, 0]);
    assert_eq!(r.incremented, vec![false, false, true]);
    assert_eq!(r.finished, vec![false, false, false]);
    assert_eq!(r.counter, 1);
}

#[test]
fn single_thread_and_no_threads() {
    let r = count_under_lock(1, &vec![0, 0, 0, 0, 0]);
    assert_eq!(r.counter, 1);
    let r = count_under_lock(0, &vec![0, 1]);
    assert_eq!(r.counter, 0);
    assert!(r.finished.is_empty());
}

#[test]
fn one_initializer_wins_and_all_observe_it() {
    let values = vec![11, 22, 33, 44];
    let schedule: Vec<usize> = vec![2, 0, 1, 3, 2, 0, 1, 3, 0, 1, 3];
    let r = race_to_init(&values, &vec![false; 4], &schedule);
    assert_eq!(r.value, Some(33));
    assert_eq!(r.initialized, vec![false, false, true, false]);
    assert_eq!(r.observed, vec![Some(33); 4]);
}

#[test]
fn failed_first_initializer_lets_another_win() {
    let values = vec![1, 2];
    // Thread 0 claims and fails; thread 1 then claims and succeeds; thread 0
    // asks again and reads thread 1's value.
    let schedule = vec![0, 1, 0, 1, 1, 0];
    let r = race_to_init(&values, &vec![true, false], &schedule);
    assert_eq!(r.value, Some(2));
    assert_eq!(r.initialized, vec![false, true]);
    assert_eq!(r.observed, vec![Some(2), Some(2)]);
}

#[test]
fn failed_initializer_retried_by_the_same_thread() {
    let r = race_to_init(&vec![7], &vec![true], &vec![0, 0, 0, 0]);
    assert_eq!(r.value, Some(7));
    assert_eq!(r.observed, vec![Some(7)]);
    let r = race_to_init(&vec![7], &vec![true], &vec![0, 0]);
    assert_eq!(r.value, None);
    assert_eq!(r.observed, vec![None]);
}

#[test]
fn poison_is_seen_by_every_later_acquisition() {
    // Thread 1 fails while holding the lock; threads 2 and 0 come later.
    let fails = vec![false, true, false];
    let schedule = vec![1, 0, 2, 1, 2, 0, 2, 0];
    let r = lock_with_failures(&fails, &schedule);
    assert_eq!(r.order, vec![1, 2, 0]);
    assert_eq!(r.poisoned_seen, vec![false, true, true]);
    assert!(r.poisoned);
}

#[test]
fn no_failure_no_poison() {
    let r = lock_with_failures(&vec![false; 3], &vec![2, 1, 0, 2, 1, 0, 2, 1, 0]);
    assert_eq!(r.order.len(), 3);
    assert_eq!(r.poisoned_seen, vec![false; 3]);
    assert!(!r.poisoned);
}

#[test]
fn failure_before_release_is_not_yet_seen() {
    let r = lock_with_failures(&vec![true, false], &vec![0, 1]);
    assert_eq!(r.order, vec![0]);
    assert_eq!(r.poisoned_seen, vec![false]);
    assert!(!r.poisoned);
}

#[test]
fn one_after_another_every_thread_finishes() {
    let n = 5;
    let schedule: Vec<usize> = (0..4 * n).map(|j| j / 4).collect();
    let r = count_under_lock(n, &schedule);
    assert_eq!(r.finished, vec![true; n]);
    assert_eq!(r.counter, n);
}

#[test]
fn one_after_another_threads_acquire_in_order() {
    let fails = vec![false, true, false, false];
    let schedule: Vec<usize> = (0..8).map(|j| j / 2).collect();
    let r = lock_with_failures(&fails, &schedule);
    assert_eq!(r.order, vec![0, 1, 2, 3]);
    assert_eq!(r.poisoned_seen, vec![false, false, true, true]);
    assert!(r.poisoned);
}

#[test]
fn first_claimant_that_succeeds_stores_its_value() {
    let values = vec![5, 6, 7];
    let r = race_to_init(&values, &vec![false; 3], &vec![1, 1, 0, 2, 0, 2]);
    assert_eq!(r.value, Some(6));
    assert_eq!(r.initialized, vec![false, true, false]);
    assert_eq!(r.observed, vec![Some(6); 3]);
}
