use npb_ep::lcg::{is_valid_state, nrandlc, randlc, MODULUS};

const A: u64 = 1220703125;
const S: u64 = 271828183;

#[test]
fn one_step_multiplies_modulo_two_to_the_46() {
    let mut x = S;
    let r = randlc(&mut x, &A);
    let expected = ((S as u128 * A as u128) % (MODULUS as u128)) as u64;
    assert_eq!(x, expected);
    assert_eq!(r, expected);
    assert!(0 < r && r < MODULUS);
    assert_eq!(r % 2, 1);
}

#[test]
fn sequence_equals_repeated_steps() {
    for n in [0usize, 1, 2, 17, 1000] {
        let mut x = S;
        let mut y = vec![0u64; n];
        nrandlc(&n, &mut x, &A, &mut y);
        let mut z = S;
        for i in 0..n {
            let r = randlc(&mut z, &A);
            assert_eq!(y[i], r);
        }
        assert_eq!(x, z);
    }
}

#[test]
fn slots_beyond_the_count_are_left_alone() {
    let mut x = S;
    let mut y = vec![7u64; 5];
    nrandlc(&3, &mut x, &A, &mut y);
    let mut z = S;
    let first = randlc(&mut z, &A);
    let second = randlc(&mut z, &A);
    let third = randlc(&mut z, &A);
    assert_eq!(y, vec![first, second, third, 7, 7]);
    assert_eq!(x, third);
}

#[test]
fn no_steps_change_nothing() {
    let mut x = S;
    let mut y = [9u64; 1];
    nrandlc(&0, &mut x, &A, &mut y);
    assert_eq!(x, S);
    assert_eq!(y, [9]);
    let mut empty: [u64; 0] = [];
    nrandlc(&0, &mut x, &A, &mut empty);
    assert_eq!(x, S);
}

#[test]
fn first_states_of_the_benchmark_stream() {
    // 271828183 * 5^13 mod 2^46, and its successor
    let mut x = S;
    assert_eq!(randlc(&mut x, &A), 32883653486115);
    assert_eq!(x, 32883653486115);
    let second = randlc(&mut x, &A);
    assert_eq!(second as u128, (32883653486115u128 * A as u128) % (1u128 << 46));
}

#[test]
fn the_smallest_and_largest_states() {
    let mut x = 1u64;
    assert_eq!(randlc(&mut x, &1), 1);
    let top = MODULUS - 1;
    let mut x = top;
    // (-1) * (-1) = 1 modulo 2^46
    assert_eq!(randlc(&mut x, &top), 1);
    let mut x = top;
    assert_eq!(randlc(&mut x, &3), MODULUS - 3);
}

#[test]
fn the_same_inputs_give_the_same_state() {
    let mut x = S;
    let mut y = S;
    assert_eq!(randlc(&mut x, &A), randlc(&mut y, &A));
    assert_eq!(x, y);
}

#[test]
fn states_are_odd_and_below_the_modulus() {
    assert!(is_valid_state(1));
    assert!(is_valid_state(S));
    assert!(is_valid_state(A));
    assert!(is_valid_state(MODULUS - 1));
    assert!(!is_valid_state(0));
    assert!(!is_valid_state(2));
    assert!(!is_valid_state(MODULUS));
    assert!(!is_valid_state(MODULUS + 1));
    assert!(!is_valid_state(u64::MAX));
}
