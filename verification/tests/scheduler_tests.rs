use parallel_llm_trainer::{Batch, BatchScheduler};

#[test]
fn partition_covers_all_indices_in_order() {
    let batches = BatchScheduler::partition(10, 3);
    assert_eq!(
        batches,
        vec![
            Batch { start: 0, end: 3 },
            Batch { start: 3, end: 6 },
            Batch { start: 6, end: 9 },
            Batch { start: 9, end: 10 },
        ]
    );
    // Concatenated, the batches are exactly 0..10: contiguous, no overlap.
    let mut next: usize = 0;
    for b in &batches {
        assert_eq!(b.start, next);
        assert!(b.end > b.start);
        assert!(b.end - b.start <= 3);
        next = b.end;
    }
    assert_eq!(next, 10);
}

#[test]
fn partition_exact_multiple_has_equal_batches() {
    let batches = BatchScheduler::partition(4, 2);
    assert_eq!(batches.len(), 2);
    assert_eq!(batches[0], Batch { start: 0, end: 2 });
    assert_eq!(batches[1], Batch { start: 2, end: 4 });
}

#[test]
fn partition_of_empty_dataset_is_empty() {
    assert_eq!(BatchScheduler::partition(0, 5).len(), 0);
}

#[test]
fn partition_with_oversized_batch_is_one_short_batch() {
    let batches = BatchScheduler::partition(3, 10);
    assert_eq!(batches, vec![Batch { start: 0, end: 3 }]);
}

#[test]
fn only_last_batch_may_be_short() {
    let batches = BatchScheduler::partition(7, 3);
    assert_eq!(batches.len(), 3);
    for (k, b) in batches.iter().enumerate() {
        if k + 1 < batches.len() {
            assert_eq!(b.end - b.start, 3);
        }
    }
    assert_eq!(batches[2].end - batches[2].start, 1);
}
