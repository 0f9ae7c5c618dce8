use consistency::stats::{
    client_loss, count_batched, count_empty, distribution, max_batch, out_of_order,
    sequence_range, DistributionEntry,
};

#[test]
fn distribution_counts_every_tick_once() {
    let counts: Vec<u64> = vec![1, 1, 2, 0, 1];
    let d = distribution(&counts);
    assert_eq!(
        d,
        vec![
            DistributionEntry { count: 0, ticks: 1 },
            DistributionEntry { count: 1, ticks: 3 },
            DistributionEntry { count: 2, ticks: 1 },
        ]
    );
    let total: u64 = d.iter().map(|e| e.ticks).sum();
    assert_eq!(total as usize, counts.len());
}

#[test]
fn distribution_of_empty_run_is_empty() {
    let counts: Vec<u64> = Vec::new();
    assert!(distribution(&counts).is_empty());
}

#[test]
fn distribution_keys_ascend_whatever_the_order_of_arrival() {
    let counts: Vec<u64> = vec![9, 3, 7, 3, 9, 1];
    let d = distribution(&counts);
    assert_eq!(
        d,
        vec![
            DistributionEntry { count: 1, ticks: 1 },
            DistributionEntry { count: 3, ticks: 2 },
            DistributionEntry { count: 7, ticks: 1 },
            DistributionEntry { count: 9, ticks: 2 },
        ]
    );
}

#[test]
fn distribution_percentages_sum_to_one_hundred() {
    let counts: Vec<u64> = vec![0, 2, 2, 5, 1, 1, 1];
    let d = distribution(&counts);
    let total = counts.len() as f64;
    let pct_sum: f64 = d.iter().map(|e| (e.ticks as f64 / total) * 100.0).sum();
    assert!((pct_sum - 100.0).abs() < 1e-9);
}

#[test]
fn batched_and_empty_ticks_are_counted_exactly() {
    let counts: Vec<u64> = vec![0, 1, 2, 3, 0, 1];
    assert_eq!(count_batched(&counts), 2);
    assert_eq!(count_empty(&counts), 2);
}

#[test]
fn max_batch_is_the_largest_count() {
    let counts: Vec<u64> = vec![1, 4, 0, 3];
    assert_eq!(max_batch(&counts), Some(4));
    assert_eq!(max_batch(&Vec::new()), None);
}

#[test]
fn strictly_increasing_stream_has_no_out_of_order_pairs() {
    let seqs: Vec<u64> = vec![1, 2, 3, 5, 9];
    assert_eq!(out_of_order(&seqs), 0);
}

#[test]
fn duplicates_and_regressions_count_as_out_of_order() {
    // 2 after 2 (duplicate) and 1 after 2 (regression) both count.
    let seqs: Vec<u64> = vec![1, 2, 2, 1, 3];
    assert_eq!(out_of_order(&seqs), 2);
    assert_eq!(out_of_order(&vec![7]), 0);
    assert_eq!(out_of_order(&Vec::new()), 0);
}

#[test]
fn loss_is_the_gap_in_the_sequence_range() {
    // Received 5, 6, 9: the span 5..=9 makes 5 expected, 3 arrived.
    let seqs: Vec<u64> = vec![5, 6, 9];
    let r = sequence_range(&seqs).unwrap();
    assert_eq!(r.first, 5);
    assert_eq!(r.last, 9);
    assert_eq!(r.expected, 5);
    assert_eq!(r.lost, 2);
}

#[test]
fn loss_is_floored_at_zero() {
    // Last below first: the span predicts nothing, so nothing is lost.
    let seqs: Vec<u64> = vec![5, 3];
    let r = sequence_range(&seqs).unwrap();
    assert_eq!(r.expected, 0);
    assert_eq!(r.lost, 0);
    assert_eq!(sequence_range(&Vec::new()), None);
}

#[test]
fn complete_strictly_increasing_stream_loses_nothing() {
    let seqs: Vec<u64> = (1..=100).collect();
    let r = sequence_range(&seqs).unwrap();
    assert_eq!(r.expected, 100);
    assert_eq!(r.lost, 0);
}

#[test]
fn loss_survives_the_widest_span() {
    let seqs: Vec<u64> = vec![1, u64::MAX];
    let r = sequence_range(&seqs).unwrap();
    assert_eq!(r.expected, u64::MAX);
    assert_eq!(r.lost, u64::MAX - 2);
}

#[test]
fn client_loss_is_sent_minus_received_floored() {
    assert_eq!(client_loss(10, 7), 3);
    assert_eq!(client_loss(7, 10), 0);
    assert_eq!(client_loss(0, 0), 0);
}
