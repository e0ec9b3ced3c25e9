use ql_bridge::bignum::{big_le, big_power, big_times};
use ql_bridge::power::{power_le, power_range, Range};

#[test]
fn big_times_carries_into_the_next_limb() {
    assert_eq!(big_times(&vec![4294967295, 4294967295], 7), vec![4294967289, 4294967295, 6]);
    assert_eq!(big_times(&vec![1], 10), vec![10]);
    assert_eq!(big_times(&vec![5, 6], 1), vec![5, 6]);
    assert_eq!(big_times(&vec![5, 6], 0), vec![0, 0]);
    assert_eq!(big_times(&Vec::new(), 9), Vec::<u32>::new());
}

#[test]
fn big_power_spells_the_power_in_full() {
    assert_eq!(big_power(10, 0), vec![1]);
    assert_eq!(big_power(10, 1), vec![10]);
    assert_eq!(big_power(10, 20), vec![1661992960, 1808227885, 5]);
    assert_eq!(big_power(3, 50), vec![3500008393, 1408293679, 38917]);
    assert_eq!(big_power(4294967295, 3), vec![4294967295, 2, 4294967293]);
    assert_eq!(big_power(0, 0), vec![1]);
    assert_eq!(big_power(0, 3), vec![0]);
    assert_eq!(big_power(2545, 5500).len(), 1945);
}

#[test]
fn big_le_compares_from_the_highest_limb() {
    assert!(big_le(&vec![1, 2, 3], &vec![1, 2, 3]));
    assert!(big_le(&vec![9, 9, 2], &vec![0, 0, 3]));
    assert!(!big_le(&vec![0, 0, 3], &vec![9, 9, 2]));
    assert!(big_le(&vec![1, 2, 3], &vec![2, 2, 3]));
    assert!(!big_le(&vec![2, 2, 3], &vec![1, 2, 3]));
    assert!(big_le(&vec![7], &vec![0, 1]));
    assert!(!big_le(&vec![0, 1], &vec![7]));
    assert!(big_le(&vec![7, 0, 0], &vec![7]));
    assert!(big_le(&vec![7], &vec![7, 0, 0]));
    assert!(!big_le(&vec![8, 0, 0], &vec![7]));
    assert!(big_le(&Vec::new(), &Vec::new()));
    assert!(big_le(&Vec::new(), &vec![0]));
    assert!(!big_le(&vec![1], &Vec::new()));
}

#[test]
fn power_range_is_exact_while_the_power_is_small() {
    assert_eq!(power_range(7, 0), Range { low: 1, high: 1, limbs: 0 });
    assert_eq!(power_range(7, 3), Range { low: 343, high: 343, limbs: 0 });
    assert_eq!(power_range(2, 62), Range { low: 1 << 62, high: 1 << 62, limbs: 0 });
    assert_eq!(power_range(0, 5), Range { low: 0, high: 0, limbs: 0 });
}

#[test]
fn power_range_holds_a_large_power_between_its_bounds() {
    // 3 to the power of 40 is 12157665459056928801, which is 2830677074.8 times 2 to the power of 32
    assert_eq!(power_range(3, 40), Range { low: 2830677074, high: 2830677075, limbs: 1 });
    assert_eq!(power_range(10, 30), Range { low: 54210108624, high: 54210108625, limbs: 2 });
    assert_eq!(
        power_range(2545, 5500),
        Range { low: 276577147232153, high: 276577152746930, limbs: 1943 }
    );
}

#[test]
fn power_le_orders_powers_that_are_far_apart() {
    assert!(power_le(2, 10, 10, 4));
    assert!(!power_le(10, 4, 2, 10));
    assert!(power_le(3, 12, 2, 20));
    assert!(!power_le(3, 13, 2, 20));
    assert!(power_le(1, 4000000000, 2, 1));
    assert!(power_le(0, 5, 1, 0));
    assert!(!power_le(1, 0, 0, 5));
    assert!(power_le(2, 100000, 3, 100000));
    assert!(!power_le(3, 100000, 2, 100000));
}

#[test]
fn power_le_orders_powers_that_are_close() {
    assert!(!power_le(3, 12, 2, 19));
    assert!(power_le(2, 19, 3, 12));
    assert!(!power_le(3, 665, 2, 1054));
    assert!(power_le(3, 15601, 2, 24727));
    assert!(!power_le(2, 24727, 3, 15601));
    assert!(!power_le(3, 31867, 2, 50508));
}

#[test]
fn power_le_settles_equal_powers_in_full() {
    assert!(power_le(2, 2000, 4, 1000));
    assert!(power_le(4, 1000, 2, 2000));
    assert!(power_le(10, 3000, 1000, 1000));
    assert!(power_le(1000, 1000, 10, 3000));
    assert!(power_le(7, 3, 343, 1));
    assert!(!power_le(2, 2001, 4, 1000));
    assert!(power_le(2, 1999, 4, 1000));
}
