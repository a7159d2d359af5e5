use riscv_detect::bit;
use riscv_detect::cache::{Initializer, CAPACITY};
use riscv_detect::feature::{Feature, FEATURE_COUNT};

#[test]
fn default_store_is_empty() {
    let value = Initializer::default();
    for bit in 0..CAPACITY {
        assert!(!value.test(bit));
    }
}

#[test]
fn set_marks_exactly_one_flag() {
    let mut value = Initializer::default();
    value.set(5);
    for bit in 0..CAPACITY {
        assert_eq!(value.test(bit), bit == 5);
    }
}

#[test]
fn set_reaches_first_and_last_flag() {
    let mut value = Initializer::default();
    value.set(0);
    value.set(CAPACITY - 1);
    assert!(value.test(0));
    assert!(value.test(CAPACITY - 1));
    assert!(!value.test(1));
    assert!(!value.test(CAPACITY - 2));
    assert!(!value.test(64));
}

#[test]
fn set_twice_is_set_once() {
    let mut once = Initializer::default();
    once.set(17);
    let mut twice = once;
    twice.set(17);
    assert_eq!(once, twice);
}

#[test]
fn set_keeps_other_flags() {
    let mut value = Initializer::default();
    value.set(3);
    value.set(90);
    value.set(41);
    for bit in 0..CAPACITY {
        assert_eq!(value.test(bit), bit == 3 || bit == 41 || bit == 90);
    }
}

#[test]
fn stores_are_equal_when_all_flags_match() {
    let mut left = Initializer::default();
    left.set(1);
    left.set(100);
    let mut right = Initializer::default();
    right.set(100);
    assert_ne!(left, right);
    right.set(1);
    assert_eq!(left, right);
    assert_ne!(left, Initializer::default());
}

#[test]
fn copies_are_independent() {
    let mut value = Initializer::default();
    value.set(7);
    let snapshot = value;
    value.set(8);
    assert!(snapshot.test(7));
    assert!(!snapshot.test(8));
    assert!(value.test(8));
}

#[test]
fn word_bits_are_tested_one_by_one() {
    assert!(bit::test(0b1, 0));
    assert!(!bit::test(0b1, 1));
    assert!(bit::test(0x1000, 12));
    assert!(!bit::test(0x1000, 11));
    assert!(!bit::test(0, 31));
    assert!(bit::test(usize::MAX, 31));
    assert!(bit::test(0x8000_0000, 31));
}

#[test]
fn feature_indices_are_dense_from_zero() {
    assert_eq!(Feature::rv32i.index(), 0);
    assert_eq!(Feature::rv32e.index(), 1);
    assert_eq!(Feature::rv64i.index(), 2);
    assert_eq!(Feature::zicsr.index(), 6);
    assert_eq!(Feature::m.index(), 16);
    assert_eq!(Feature::a.index(), 17);
    assert_eq!(Feature::f.index(), 25);
    assert_eq!(Feature::d.index(), 26);
    assert_eq!(Feature::q.index(), 27);
    assert_eq!(Feature::s.index(), 86);
    assert_eq!(Feature::h.index(), 87);
    assert_eq!(Feature::h.index() + 1, FEATURE_COUNT);
}

#[test]
fn feature_indices_fit_the_store() {
    assert!(FEATURE_COUNT <= CAPACITY);
    let mut value = Initializer::default();
    value.set(Feature::h.index());
    assert!(value.test(Feature::h.index()));
    assert!(!value.test(Feature::s.index()));
}

#[test]
fn feature_indices_are_distinct() {
    let some = [
        Feature::rv32i,
        Feature::zicsr,
        Feature::a,
        Feature::zalrsc,
        Feature::zaamo,
        Feature::f,
        Feature::d,
        Feature::q,
        Feature::zfinx,
        Feature::zdinx,
        Feature::zhinx,
        Feature::zhinxmin,
        Feature::zkn,
        Feature::zks,
        Feature::zk,
        Feature::s,
        Feature::h,
    ];
    for (i, left) in some.iter().enumerate() {
        for (j, right) in some.iter().enumerate() {
            assert_eq!(left.index() == right.index(), i == j);
        }
    }
}
