use npb_ep::batch::Stream;
use npb_ep::problem::{
    class_exponent, Problem, BASE_MULTIPLIER, BATCH_EXPONENT, BATCH_SIZE, GLOBAL_SEED,
};

#[test]
fn classes_select_their_exponents() {
    assert_eq!(class_exponent('S'), Some(24));
    assert_eq!(class_exponent('W'), Some(25));
    assert_eq!(class_exponent('A'), Some(28));
    assert_eq!(class_exponent('B'), Some(30));
    assert_eq!(class_exponent('C'), Some(32));
    assert_eq!(class_exponent('D'), Some(36));
    assert_eq!(class_exponent('E'), Some(40));
    assert_eq!(class_exponent('F'), None);
    assert_eq!(class_exponent('s'), None);
}

#[test]
fn constants_of_the_benchmark() {
    assert_eq!(BASE_MULTIPLIER, 5u64.pow(13));
    assert_eq!(GLOBAL_SEED, 271828183);
    assert_eq!(BATCH_SIZE, 1 << BATCH_EXPONENT);
}

#[test]
fn sizes_of_class_s() {
    let p = Problem::for_class('S').unwrap();
    assert_eq!(p.log2_pairs(), 24);
    assert_eq!(p.total_batches(), 256);
    assert_eq!(p.stream_length(), 33554432);
    assert_eq!(2 * BATCH_SIZE as u64 * p.total_batches(), p.stream_length());
}

#[test]
fn sizes_of_class_e() {
    let p = Problem::for_class('E').unwrap();
    assert_eq!(p.total_batches(), 1 << 24);
    assert_eq!(p.stream_length(), 1 << 41);
}

#[test]
fn unsupported_sizes_are_refused() {
    assert!(Problem::new(15).is_none());
    assert!(Problem::new(0).is_none());
    assert!(Problem::new(63).is_none());
    assert!(Problem::for_class('X').is_none());
    let smallest = Problem::new(16).unwrap();
    assert_eq!(smallest.total_batches(), 1);
    assert_eq!(smallest.stream_length(), 1 << 17);
    let largest = Problem::new(62).unwrap();
    assert_eq!(largest.total_batches(), 1 << 46);
    assert_eq!(largest.stream_length(), 1 << 63);
}

#[test]
fn the_stream_of_the_benchmark() {
    let stream = Problem::for_class('S').unwrap().stream();
    assert_eq!(stream.batch_len(), 2 * BATCH_SIZE);
    assert_eq!(stream.seed_of(0), GLOBAL_SEED);
    let first = stream.batch(0);
    assert_eq!(first[0] as u128, (GLOBAL_SEED as u128 * BASE_MULTIPLIER as u128) % (1 << 46));
    let other = Stream::new(GLOBAL_SEED, BASE_MULTIPLIER, BATCH_SIZE);
    assert_eq!(other.batch_multiplier(), stream.batch_multiplier());
    assert_eq!(other.batch(3), stream.batch(3));
}
