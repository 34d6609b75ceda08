//! The constant-time optional value.

use group::Maybe;
use subtle::{Choice, CtOption};

#[test]
fn maybe_is_present_exactly_for_the_flag_one() {
    let present = Maybe::new(7u32, Choice::from(1));
    assert_eq!(present.is_some().unwrap_u8(), 1);
    assert_eq!(present.into_option(), Some(7));

    let absent = Maybe::new(7u32, Choice::from(0));
    assert_eq!(absent.is_some().unwrap_u8(), 0);
    assert_eq!(absent.into_option(), None);
}

#[test]
fn maybe_is_copied_by_clone() {
    let present = Maybe::new(7u32, Choice::from(1));
    let copy = present.clone();
    assert_eq!(copy.into_option(), Some(7));
    assert_eq!(present.into_option(), Some(7));
}

#[test]
fn filter_keeps_for_one_and_drops_for_zero() {
    let present = Maybe::new(7u32, Choice::from(1));
    assert_eq!(present.filter(Choice::from(1)).into_option(), Some(7));
    assert_eq!(present.filter(Choice::from(0)).into_option(), None);

    let absent = Maybe::new(7u32, Choice::from(0));
    assert_eq!(absent.filter(Choice::from(1)).into_option(), None);
    assert_eq!(absent.filter(Choice::from(0)).into_option(), None);
}

#[test]
fn unwrap_hands_out_a_present_value() {
    assert_eq!(Maybe::new(7u32, Choice::from(1)).unwrap(), 7);
}

#[test]
fn unwrap_or_hands_out_the_value_or_the_default() {
    assert_eq!(Maybe::new(7u32, Choice::from(1)).unwrap_or(9), 7);
    assert_eq!(Maybe::new(7u32, Choice::from(0)).unwrap_or(9), 9);
}

#[test]
fn maybe_reveals_what_a_ct_option_of_the_same_parts_reveals() {
    for bit in 0..2u8 {
        let ours = Maybe::new(7u32, Choice::from(bit));
        let theirs = CtOption::new(7u32, Choice::from(bit));
        assert_eq!(ours.is_some().unwrap_u8(), theirs.is_some().unwrap_u8());
        assert_eq!(ours.unwrap_or(9), theirs.unwrap_or(9));
        assert_eq!(ours.into_option(), theirs.into_option());
    }
}
