use npb_ep::batch::Stream;
use npb_ep::lcg::nrandlc;
use npb_ep::partition::{worker_ranges, BatchRange};
use npb_ep::skip::batch_multiplier;

const A: u64 = 1220703125;
const S: u64 = 271828183;

fn whole_stream(n: usize) -> Vec<u64> {
    let mut x = S;
    let mut y = vec![0u64; n];
    nrandlc(&n, &mut x, &A, &mut y);
    y
}

#[test]
fn a_batch_is_a_slice_of_the_stream() {
    let batch_size = 50usize;
    let stream = Stream::new(S, A, batch_size);
    assert_eq!(stream.batch_len(), 100);
    assert_eq!(stream.batch_multiplier(), batch_multiplier(A, 50));
    let all = whole_stream(100 * 12);
    for k in [0u64, 1, 2, 7, 11] {
        let batch = stream.batch(k);
        assert_eq!(batch.len(), 100);
        assert_eq!(batch[..], all[100 * k as usize..100 * (k as usize + 1)]);
    }
    assert_eq!(stream.seed_of(0), S);
    assert_eq!(stream.seed_of(3), all[299]);
}

#[test]
fn a_worker_generates_its_range_in_order() {
    let stream = Stream::new(S, A, 16);
    let all = whole_stream(32 * 10);
    let mut worker = stream.worker(BatchRange { start: 3, end: 7 });
    let mut buffer = Vec::new();
    for k in 3u64..7 {
        assert_eq!(worker.remaining(), 7 - k);
        assert_eq!(worker.next_batch(&mut buffer), Some(k));
        assert_eq!(buffer.len(), 32);
        assert_eq!(buffer[..], all[32 * k as usize..32 * (k as usize + 1)]);
        assert_eq!(buffer, stream.batch(k));
    }
    assert_eq!(worker.remaining(), 0);
    let before = buffer.clone();
    assert_eq!(worker.next_batch(&mut buffer), None);
    assert_eq!(worker.next_batch(&mut buffer), None);
    assert_eq!(buffer, before);
}

#[test]
fn an_empty_range_gives_no_batch() {
    let stream = Stream::new(S, A, 16);
    let mut worker = stream.worker(BatchRange { start: 5, end: 5 });
    let mut buffer = vec![1u64, 2, 3];
    assert_eq!(worker.next_batch(&mut buffer), None);
    assert_eq!(buffer, vec![1, 2, 3]);
}

#[test]
fn batches_do_not_depend_on_the_number_of_workers() {
    let stream = Stream::new(S, A, 8);
    let total = 37u64;
    let all = whole_stream(16 * total as usize);
    for workers in [1usize, 2, 3, 8, 37, 40] {
        let mut seen = Vec::new();
        for range in worker_ranges(total, workers) {
            let mut worker = stream.worker(range);
            let mut buffer = vec![0u64; 16];
            while let Some(k) = worker.next_batch(&mut buffer) {
                assert_eq!(k as usize, seen.len() / 16);
                seen.extend_from_slice(&buffer);
            }
        }
        assert_eq!(seen, all);
    }
}

#[test]
fn a_stream_without_pairs_has_empty_batches() {
    let stream = Stream::new(S, A, 0);
    assert_eq!(stream.batch_len(), 0);
    assert_eq!(stream.batch(9), Vec::<u64>::new());
    assert_eq!(stream.seed_of(9), S);
}
