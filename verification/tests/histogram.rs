use npb_ep::histogram::{bin_for, Histogram, PairOutcome, BINS};

#[test]
fn a_new_histogram_is_empty() {
    let h = Histogram::new();
    assert_eq!(h.counts(), vec![0u64; 10]);
    assert_eq!(h.pair_count(), 0);
    assert_eq!(BINS, 10);
}

#[test]
fn magnitudes_beyond_the_last_bin_are_clamped() {
    assert_eq!(bin_for(0), 0);
    assert_eq!(bin_for(5), 5);
    assert_eq!(bin_for(9), 9);
    assert_eq!(bin_for(10), 9);
    assert_eq!(bin_for(11), 9);
    assert_eq!(bin_for(u64::MAX), 9);
}

#[test]
fn record_counts_in_the_right_bin() {
    let mut h = Histogram::new();
    h.record(0);
    h.record(3);
    h.record(3);
    h.record(9);
    h.record(10);
    h.record(1_000_000);
    assert_eq!(h.counts(), vec![1, 0, 0, 2, 0, 0, 0, 0, 0, 3]);
    assert_eq!(h.count(3), 2);
    assert_eq!(h.count(9), 3);
    assert_eq!(h.pair_count(), 6);
}

#[test]
fn tally_skips_rejected_pairs() {
    let outcomes = [
        PairOutcome::Accepted(0),
        PairOutcome::Rejected,
        PairOutcome::Accepted(1),
        PairOutcome::Accepted(0),
        PairOutcome::Rejected,
        PairOutcome::Accepted(42),
    ];
    let mut h = Histogram::new();
    h.tally(&outcomes);
    assert_eq!(h.counts(), vec![2, 1, 0, 0, 0, 0, 0, 0, 0, 1]);
    assert_eq!(h.pair_count(), 4);
    assert!(h.pair_count() <= outcomes.len() as u64);
    h.tally(&[]);
    assert_eq!(h.pair_count(), 4);
}

#[test]
fn merge_adds_bin_by_bin() {
    let mut a = Histogram::new();
    a.tally(&[PairOutcome::Accepted(0), PairOutcome::Accepted(2), PairOutcome::Accepted(2)]);
    let mut b = Histogram::new();
    b.tally(&[PairOutcome::Accepted(2), PairOutcome::Accepted(7), PairOutcome::Rejected]);
    let mut ab = Histogram::new();
    ab.merge(&a);
    ab.merge(&b);
    let mut ba = Histogram::new();
    ba.merge(&b);
    ba.merge(&a);
    assert_eq!(ab.counts(), vec![1, 0, 3, 0, 0, 0, 0, 1, 0, 0]);
    assert_eq!(ab.counts(), ba.counts());
    assert_eq!(ab.pair_count(), a.pair_count() + b.pair_count());
}

#[test]
fn tally_of_a_split_stream_is_the_merge_of_its_parts() {
    let outcomes: Vec<PairOutcome> = (0u64..500)
        .map(|i| if i % 3 == 0 { PairOutcome::Rejected } else { PairOutcome::Accepted(i % 13) })
        .collect();
    let mut whole = Histogram::new();
    whole.tally(&outcomes);
    for cut in [0usize, 1, 100, 250, 499, 500] {
        let mut first = Histogram::new();
        first.tally(&outcomes[..cut]);
        let mut second = Histogram::new();
        second.tally(&outcomes[cut..]);
        first.merge(&second);
        assert_eq!(first.counts(), whole.counts());
    }
    assert_eq!(whole.pair_count(), 333);
}
