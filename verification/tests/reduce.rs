use npb_ep::histogram::{Histogram, PairOutcome};
use npb_ep::reduce::{ReduceError, Reducer};
use npb_ep::timing::PhaseTimes;

fn tally_of(magnitudes: &[u64]) -> Histogram {
    let mut h = Histogram::new();
    for m in magnitudes {
        h.record(*m);
    }
    h
}

#[test]
fn reports_are_summed() {
    let mut reducer = Reducer::new(3);
    assert!(!reducer.is_complete());
    let first = PhaseTimes { pairs: 30, uniforms: 9 };
    let third = PhaseTimes { pairs: 31, uniforms: 3 };
    assert_eq!(reducer.absorb(&tally_of(&[0, 1, 1]), &first), Ok(()));
    assert_eq!(reducer.absorb(&tally_of(&[]), &PhaseTimes { pairs: 0, uniforms: 0 }), Ok(()));
    assert!(!reducer.is_complete());
    assert_eq!(reducer.absorb(&tally_of(&[1, 4, 99]), &third), Ok(()));
    assert!(reducer.is_complete());
    let summary = reducer.finish().unwrap();
    assert_eq!(summary.histogram.counts(), vec![1, 3, 0, 0, 1, 0, 0, 0, 0, 1]);
    assert_eq!(summary.pair_count, 6);
    assert_eq!(summary.times, PhaseTimes { pairs: 20, uniforms: 4 });
}

#[test]
fn the_order_of_the_reports_does_not_matter() {
    let parts = [tally_of(&[0, 0, 3]), tally_of(&[9, 9]), tally_of(&[3, 5, 7, 11])];
    let orders = [[0usize, 1, 2], [0, 2, 1], [1, 0, 2], [1, 2, 0], [2, 0, 1], [2, 1, 0]];
    for order in orders {
        let mut reducer = Reducer::new(3);
        for i in order {
            reducer.absorb(&parts[i], &PhaseTimes { pairs: i as u128, uniforms: 1 }).unwrap();
        }
        let summary = reducer.finish().unwrap();
        assert_eq!(summary.histogram.counts(), vec![2, 0, 0, 2, 0, 1, 0, 1, 0, 3]);
        assert_eq!(summary.pair_count, 9);
        assert_eq!(summary.times, PhaseTimes { pairs: 1, uniforms: 1 });
    }
}

#[test]
fn a_missing_worker_leaves_no_result() {
    let mut reducer = Reducer::new(2);
    reducer.absorb(&tally_of(&[1]), &PhaseTimes::zero()).unwrap();
    assert!(reducer.finish().is_none());
    assert!(Reducer::new(1).finish().is_none());
}

#[test]
fn a_report_too_many_is_refused() {
    let mut reducer = Reducer::new(1);
    reducer.absorb(&tally_of(&[2]), &PhaseTimes { pairs: 5, uniforms: 6 }).unwrap();
    assert_eq!(
        reducer.absorb(&tally_of(&[3]), &PhaseTimes { pairs: 1, uniforms: 1 }),
        Err(ReduceError::UnexpectedReport)
    );
    let summary = reducer.finish().unwrap();
    assert_eq!(summary.histogram.counts(), vec![0, 0, 1, 0, 0, 0, 0, 0, 0, 0]);
    assert_eq!(summary.times, PhaseTimes { pairs: 5, uniforms: 6 });
}

#[test]
fn times_that_overflow_are_refused() {
    let mut reducer = Reducer::new(3);
    reducer.absorb(&tally_of(&[2]), &PhaseTimes { pairs: u128::MAX, uniforms: 0 }).unwrap();
    assert_eq!(
        reducer.absorb(&tally_of(&[3]), &PhaseTimes { pairs: 1, uniforms: 0 }),
        Err(ReduceError::TimeOverflow)
    );
    assert_eq!(
        reducer.absorb(&tally_of(&[3]), &PhaseTimes { pairs: 0, uniforms: u128::MAX }),
        Ok(())
    );
    assert_eq!(
        reducer.absorb(&tally_of(&[3]), &PhaseTimes { pairs: 0, uniforms: 1 }),
        Err(ReduceError::TimeOverflow)
    );
    assert!(!reducer.is_complete());
}

#[test]
fn tallies_go_through_unchanged_for_one_worker() {
    let outcomes = [PairOutcome::Accepted(1), PairOutcome::Rejected, PairOutcome::Accepted(8)];
    let mut h = Histogram::new();
    h.tally(&outcomes);
    let mut reducer = Reducer::new(1);
    reducer.absorb(&h, &PhaseTimes { pairs: 7, uniforms: 8 }).unwrap();
    let summary = reducer.finish().unwrap();
    assert_eq!(summary.histogram.counts(), h.counts());
    assert_eq!(summary.pair_count, 2);
    assert_eq!(summary.times, PhaseTimes { pairs: 7, uniforms: 8 });
}

#[test]
fn counts_that_overflow_are_refused() {
    // one pair, doubled 63 times: 2^63 pairs in bin 4
    let mut big = tally_of(&[4]);
    for _ in 0..63 {
        let copy = big;
        big.merge(&copy);
    }
    assert_eq!(big.pair_count(), 1 << 63);
    assert_eq!(big.count(4), 1 << 63);
    let mut reducer = Reducer::new(3);
    assert_eq!(reducer.absorb(&big, &PhaseTimes { pairs: 1, uniforms: 2 }), Ok(()));
    assert_eq!(
        reducer.absorb(&big, &PhaseTimes { pairs: 1, uniforms: 2 }),
        Err(ReduceError::CounterOverflow)
    );
    let mut rest = big;
    rest.merge(&tally_of(&[]));
    assert_eq!(reducer.absorb(&tally_of(&[0]), &PhaseTimes::zero()), Ok(()));
    assert_eq!(reducer.absorb(&tally_of(&[]), &PhaseTimes::zero()), Ok(()));
    let summary = reducer.finish().unwrap();
    assert_eq!(summary.pair_count, (1 << 63) + 1);
    assert_eq!(summary.times, PhaseTimes { pairs: 0, uniforms: 0 });
}
