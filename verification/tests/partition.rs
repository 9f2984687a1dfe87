use npb_ep::partition::{worker_range, worker_ranges, BatchRange};

#[test]
fn even_division() {
    let ranges = worker_ranges(256, 8);
    assert_eq!(ranges.len(), 8);
    for w in 0..8 {
        assert_eq!(ranges[w], BatchRange { start: 32 * w as u64, end: 32 * (w as u64 + 1) });
        assert_eq!(ranges[w].len(), 32);
    }
}

#[test]
fn remainder_goes_to_the_first_workers() {
    let ranges = worker_ranges(10, 3);
    assert_eq!(
        ranges,
        vec![
            BatchRange { start: 0, end: 4 },
            BatchRange { start: 4, end: 7 },
            BatchRange { start: 7, end: 10 },
        ]
    );
    let ranges = worker_ranges(256, 6);
    let sizes: Vec<u64> = ranges.iter().map(|r| r.len()).collect();
    assert_eq!(sizes, vec![43, 43, 43, 43, 42, 42]);
}

#[test]
fn more_workers_than_batches() {
    let ranges = worker_ranges(2, 5);
    assert_eq!(
        ranges,
        vec![
            BatchRange { start: 0, end: 1 },
            BatchRange { start: 1, end: 2 },
            BatchRange { start: 2, end: 2 },
            BatchRange { start: 2, end: 2 },
            BatchRange { start: 2, end: 2 },
        ]
    );
}

#[test]
fn no_batches_at_all() {
    for r in worker_ranges(0, 4) {
        assert_eq!(r, BatchRange { start: 0, end: 0 });
    }
}

#[test]
fn one_worker_takes_everything() {
    assert_eq!(worker_range(u64::MAX, 1, 0), BatchRange { start: 0, end: u64::MAX });
}

#[test]
fn every_batch_has_exactly_one_owner() {
    for total in 0u64..60 {
        for workers in 1usize..20 {
            let ranges = worker_ranges(total, workers);
            assert_eq!(ranges.len(), workers);
            assert_eq!(ranges[0].start, 0);
            assert_eq!(ranges[workers - 1].end, total);
            for w in 0..workers {
                assert_eq!(ranges[w], worker_range(total, workers, w));
                assert!(ranges[w].start <= ranges[w].end);
                if w + 1 < workers {
                    assert_eq!(ranges[w].end, ranges[w + 1].start);
                }
                let size = ranges[w].len();
                assert!(size == total / workers as u64 || size == total / workers as u64 + 1);
            }
            for b in 0..total {
                let owners = ranges.iter().filter(|r| r.start <= b && b < r.end).count();
                assert_eq!(owners, 1);
            }
        }
    }
}
