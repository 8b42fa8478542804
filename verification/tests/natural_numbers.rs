use drawing_canvas::natural::{at_most, one, raise, times};

fn number(v: u128) -> Vec<u64> {
    vec![v as u64, (v >> 64) as u64]
}

fn to_u128(limbs: &[u64]) -> u128 {
    for limb in limbs.iter().skip(2) {
        assert_eq!(*limb, 0);
    }
    let low = limbs.first().copied().unwrap_or(0) as u128;
    let high = limbs.get(1).copied().unwrap_or(0) as u128;
    low | (high << 64)
}

#[test]
fn one_is_one() {
    assert_eq!(to_u128(&one()), 1);
}

#[test]
fn times_multiplies_with_carry() {
    assert_eq!(to_u128(&times(&number(0), 7)), 0);
    assert_eq!(to_u128(&times(&number(6), 7)), 42);
    assert_eq!(to_u128(&times(&number(u64::MAX as u128), u64::MAX)), (u64::MAX as u128) * (u64::MAX as u128));
    assert_eq!(to_u128(&times(&number(1 << 100), 1 << 27)), 1 << 127);
    assert_eq!(to_u128(&times(&Vec::new(), 9)), 0);
    // beyond two limbs: (2^64 - 1)^3
    let cube = times(&times(&number(u64::MAX as u128), u64::MAX), u64::MAX);
    assert_eq!(&cube[..3], &[u64::MAX, 2, u64::MAX - 2]);
    assert!(cube[3..].iter().all(|l| *l == 0));
}

#[test]
fn raise_takes_powers() {
    assert_eq!(to_u128(&raise(0, 0)), 1);
    assert_eq!(to_u128(&raise(0, 3)), 0);
    assert_eq!(to_u128(&raise(3, 4)), 81);
    assert_eq!(to_u128(&raise(2, 127)), 1 << 127);
    assert_eq!(to_u128(&raise(10, 38)), 10u128.pow(38));
    let big = raise(u32::MAX as u64 + 1, 12);
    // 2^384: limb six is one, all others are zero
    for (i, limb) in big.iter().enumerate() {
        assert_eq!(*limb, if i == 6 { 1 } else { 0 });
    }
}

#[test]
fn at_most_compares_by_value_not_by_length() {
    assert!(at_most(&number(3), &number(3)));
    assert!(at_most(&number(3), &number(4)));
    assert!(!at_most(&number(4), &number(3)));
    assert!(at_most(&Vec::new(), &Vec::new()));
    assert!(at_most(&Vec::new(), &number(0)));
    assert!(at_most(&vec![5, 0, 0, 0], &vec![6]));
    assert!(!at_most(&vec![5, 1], &vec![u64::MAX]));
    assert!(at_most(&vec![u64::MAX], &vec![0, 1]));
    // the high limb decides, whatever the low limbs say
    assert!(at_most(&vec![u64::MAX, 1], &vec![0, 2]));
    assert!(!at_most(&vec![0, 2], &vec![u64::MAX, 1]));
    assert!(at_most(&raise(7, 50), &raise(8, 50)));
    assert!(!at_most(&raise(8, 50), &raise(7, 50)));
}
