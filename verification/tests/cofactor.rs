//! The cofactor contract on cyclic groups: the integers modulo 12, whose
//! prime-order subgroup is the multiples of 4, and the integers modulo 10,
//! whose prime-order subgroup is the multiples of 2.

use core::ops::{Add, Mul, Neg, Sub};
use group::{CofactorGroup, Group, GroupAlgebra, GroupEncoding, Identity, Maybe, PrimeGroup};
use subtle::Choice;
use vstd::prelude::{nat, View};

fn flag(b: bool) -> Choice {
    Choice::from(if b { 1u8 } else { 0u8 })
}

/// The integers modulo `N`, under addition.
#[derive(Clone, Copy, Debug, PartialEq, Eq)]
struct Cyclic<const N: u8>(u8);

impl<const N: u8> View for Cyclic<N> {
    type V = u8;

    fn view(&self) -> u8 {
        self.0
    }
}

impl<const N: u8> Identity for Cyclic<N> {
    fn unit() -> u8 {
        0
    }

    fn identity() -> Self {
        Cyclic(0)
    }

    fn is_identity(&self) -> Choice {
        flag(self.0 == 0)
    }
}

impl<const N: u8> GroupAlgebra for Cyclic<N> {
    fn is_element(v: u8) -> bool {
        v < N
    }

    fn op(a: u8, b: u8) -> u8 {
        (a + b) % N
    }

    fn inv(a: u8) -> u8 {
        (N - a) % N
    }

    fn law_view(_x: Self) {}

    fn law_closed(_a: u8, _b: u8) {}

    fn law_associative(_a: u8, _b: u8, _c: u8) {}

    fn law_commutative(_a: u8, _b: u8) {}

    fn law_unit(_a: u8) {}

    fn law_inverse(_a: u8) {}
}

impl<const N: u8> Add for Cyclic<N> {
    type Output = Self;

    fn add(self, rhs: Self) -> Self {
        Cyclic((self.0 + rhs.0) % N)
    }
}

impl<const N: u8> Sub for Cyclic<N> {
    type Output = Self;

    fn sub(self, rhs: Self) -> Self {
        Cyclic((self.0 + N - rhs.0) % N)
    }
}

impl<const N: u8> Neg for Cyclic<N> {
    type Output = Self;

    fn neg(self) -> Self {
        Cyclic((N - self.0) % N)
    }
}

impl<const N: u8> Mul<u8> for Cyclic<N> {
    type Output = Self;

    fn mul(self, k: u8) -> Self {
        Cyclic(((self.0 as u16 * k as u16) % N as u16) as u8)
    }
}

impl<const N: u8> Group for Cyclic<N> {
    type Scalar = u8;

    fn scalar_value(_k: u8) -> nat {
        unreachable!()
    }

    fn law_add(_a: Self, _b: Self) {}

    fn law_sub(_a: Self, _b: Self) {}

    fn law_neg(_a: Self) {}

    fn law_mul(_a: Self, _k: u8) {}

    fn ct_eq(&self, other: &Self) -> Choice {
        flag(self.0 == other.0)
    }

    fn double(&self) -> Self {
        *self + *self
    }
}

impl<const N: u8> GroupEncoding for Cyclic<N> {
    type Repr = [u8; 1];

    fn encoding(v: u8) -> [u8; 1] {
        [v]
    }

    fn decoding(bytes: [u8; 1]) -> Option<u8> {
        if bytes[0] < N {
            Some(bytes[0])
        } else {
            None
        }
    }

    fn law_round_trip(_x: Self) {}

    fn law_canonical(_bytes: [u8; 1]) {}

    fn from_bytes(bytes: &[u8; 1]) -> Maybe<Self> {
        Maybe::new(Cyclic(bytes[0] % N), flag(bytes[0] < N))
    }

    fn to_bytes(&self) -> [u8; 1] {
        [self.0]
    }
}

impl PrimeGroup for Cyclic<3> {
    fn order() -> nat {
        unreachable!()
    }

    fn law_order(_a: u8) {}
}

impl PrimeGroup for Cyclic<5> {
    fn order() -> nat {
        unreachable!()
    }

    fn law_order(_a: u8) {}
}

/// The element `k` of the subgroup of order 3 is the element `4 * k` of the
/// integers modulo 12.
impl From<Cyclic<3>> for Cyclic<12> {
    fn from(s: Cyclic<3>) -> Self {
        Cyclic(4 * s.0)
    }
}

impl Add<Cyclic<3>> for Cyclic<12> {
    type Output = Self;

    fn add(self, rhs: Cyclic<3>) -> Self {
        self + Self::from(rhs)
    }
}

impl Sub<Cyclic<3>> for Cyclic<12> {
    type Output = Self;

    fn sub(self, rhs: Cyclic<3>) -> Self {
        self - Self::from(rhs)
    }
}

/// Cofactor 4, cleared by multiplying by 4: `4 * x` is the element `x mod 3`
/// of the subgroup.
impl CofactorGroup for Cyclic<12> {
    type Subgroup = Cyclic<3>;

    fn embed(s: u8) -> u8 {
        4 * s
    }

    fn torsion_free(v: u8) -> bool {
        v % 4 == 0
    }

    fn cleared(v: u8) -> u8 {
        v % 3
    }

    fn cofactor() -> nat {
        unreachable!()
    }

    fn clearing_factor() -> nat {
        unreachable!()
    }

    fn law_embed(_a: u8, _b: u8) {}

    fn law_torsion_free(_v: u8) {}

    fn law_cofactor(_v: u8) {}

    fn law_cleared(_v: u8) {}

    fn law_widen(_s: Cyclic<3>, _g: Self) {}

    fn law_mixed(_a: Self, _s: Cyclic<3>) {}

    fn clear_cofactor(&self) -> Cyclic<3> {
        Cyclic(self.0 % 3)
    }

    fn into_subgroup(self) -> Maybe<Cyclic<3>> {
        Maybe::new(Cyclic(self.0 / 4), flag(self.0 % 4 == 0))
    }

    fn is_torsion_free(&self) -> Choice {
        flag(self.0 % 4 == 0)
    }
}

/// The element `k` of the subgroup of order 5 is the element `2 * k` of the
/// integers modulo 10.
impl From<Cyclic<5>> for Cyclic<10> {
    fn from(s: Cyclic<5>) -> Self {
        Cyclic(2 * s.0)
    }
}

impl Add<Cyclic<5>> for Cyclic<10> {
    type Output = Self;

    fn add(self, rhs: Cyclic<5>) -> Self {
        self + Self::from(rhs)
    }
}

impl Sub<Cyclic<5>> for Cyclic<10> {
    type Output = Self;

    fn sub(self, rhs: Cyclic<5>) -> Self {
        self - Self::from(rhs)
    }
}

/// Cofactor 2, cleared by multiplying by 2: `2 * x` is the element `x mod 5`
/// of the subgroup.
impl CofactorGroup for Cyclic<10> {
    type Subgroup = Cyclic<5>;

    fn embed(s: u8) -> u8 {
        2 * s
    }

    fn torsion_free(v: u8) -> bool {
        v % 2 == 0
    }

    fn cleared(v: u8) -> u8 {
        v % 5
    }

    fn cofactor() -> nat {
        unreachable!()
    }

    fn clearing_factor() -> nat {
        unreachable!()
    }

    fn law_embed(_a: u8, _b: u8) {}

    fn law_torsion_free(_v: u8) {}

    fn law_cofactor(_v: u8) {}

    fn law_cleared(_v: u8) {}

    fn law_widen(_s: Cyclic<5>, _g: Self) {}

    fn law_mixed(_a: Self, _s: Cyclic<5>) {}

    fn clear_cofactor(&self) -> Cyclic<5> {
        Cyclic(self.0 % 5)
    }

    fn into_subgroup(self) -> Maybe<Cyclic<5>> {
        Maybe::new(Cyclic(self.0 / 2), flag(self.0 % 2 == 0))
    }

    fn is_torsion_free(&self) -> Choice {
        flag(self.0 % 2 == 0)
    }
}

#[test]
fn small_order_is_cleared_to_identity() {
    for x in 0..12u8 {
        let cleared = Cyclic::<12>(x).clear_cofactor();
        let small = Cyclic::<12>(x).is_small_order().unwrap_u8();
        assert_eq!(small, cleared.is_identity().unwrap_u8());
        // the elements of order 1, 2 and 4 are 0, 3, 6 and 9
        assert_eq!(small == 1, [0, 3, 6, 9].contains(&x));
    }
    for x in 0..10u8 {
        let small = Cyclic::<10>(x).is_small_order().unwrap_u8();
        // the elements of order 1 and 2 are 0 and 5
        assert_eq!(small == 1, [0, 5].contains(&x));
    }
}

#[test]
fn small_order_means_annihilated_by_the_cofactor() {
    for x in 0..12u8 {
        let annihilated = (Cyclic::<12>(x) * 4).is_identity().unwrap_u8();
        assert_eq!(Cyclic::<12>(x).is_small_order().unwrap_u8(), annihilated);
    }
    for x in 0..10u8 {
        let annihilated = (Cyclic::<10>(x) * 2).is_identity().unwrap_u8();
        assert_eq!(Cyclic::<10>(x).is_small_order().unwrap_u8(), annihilated);
    }
}

#[test]
fn clear_cofactor_multiplies_by_the_clearing_factor() {
    for x in 0..12u8 {
        let cleared = Cyclic::<12>(x).clear_cofactor();
        assert_eq!(Cyclic::<12>::from(cleared), Cyclic::<12>(x) * 4);
        assert_eq!(Cyclic::<12>::from(cleared).is_torsion_free().unwrap_u8(), 1);
    }
    assert_eq!(Cyclic::<12>(5).clear_cofactor(), Cyclic::<3>(2));
    assert_eq!(Cyclic::<12>::from(Cyclic::<3>(2)), Cyclic::<12>(8));
    for x in 0..10u8 {
        let cleared = Cyclic::<10>(x).clear_cofactor();
        assert_eq!(Cyclic::<10>::from(cleared), Cyclic::<10>(x) * 2);
    }
    assert_eq!(Cyclic::<10>(7).clear_cofactor(), Cyclic::<5>(2));
}

#[test]
fn clearing_twice_is_clearing_once_when_the_factor_is_one_modulo_the_order() {
    // 4 is 1 modulo 3
    for x in 0..12u8 {
        let once = Cyclic::<12>(x).clear_cofactor();
        let twice = Cyclic::<12>::from(once).clear_cofactor();
        assert_eq!(twice, once);
    }
}

#[test]
fn clearing_twice_differs_from_clearing_once_otherwise() {
    // 2 is not 1 modulo 5: only the elements of small order are cleared to
    // the same element twice
    for x in 0..10u8 {
        let once = Cyclic::<10>(x).clear_cofactor();
        let twice = Cyclic::<10>::from(once).clear_cofactor();
        assert_eq!(twice, once * 2);
        assert_eq!(twice == once, Cyclic::<10>(x).is_small_order().unwrap_u8() == 1);
    }
    let once = Cyclic::<10>(1).clear_cofactor();
    assert_eq!(once, Cyclic::<5>(1));
    assert_eq!(Cyclic::<10>::from(once).clear_cofactor(), Cyclic::<5>(2));
}

#[test]
fn into_subgroup_agrees_with_is_torsion_free() {
    for x in 0..12u8 {
        let free = Cyclic::<12>(x).is_torsion_free().unwrap_u8() == 1;
        assert_eq!(Cyclic::<12>(x).into_subgroup().is_some().unwrap_u8() == 1, free);
        match Cyclic::<12>(x).into_subgroup().into_option() {
            Some(s) => {
                assert!(free);
                assert_eq!(Cyclic::<12>::from(s), Cyclic::<12>(x));
            }
            None => assert!(!free),
        }
    }
    assert_eq!(Cyclic::<12>(8).into_subgroup().into_option(), Some(Cyclic::<3>(2)));
    assert_eq!(Cyclic::<12>(6).into_subgroup().into_option(), None);
}

#[test]
fn into_subgroup_converted_back_is_the_element() {
    for x in [0u8, 4, 8] {
        let narrowed = Cyclic::<12>(x).into_subgroup().into_option().unwrap();
        let widened: Cyclic<12> = narrowed.into();
        assert_eq!(widened, Cyclic::<12>(x));
        assert_eq!(
            widened.is_small_order().unwrap_u8(),
            Cyclic::<12>(x).is_small_order().unwrap_u8()
        );
    }
    for x in 0..5u8 {
        let narrowed = Cyclic::<5>(x).into_subgroup().into_option().unwrap();
        let widened: Cyclic<5> = narrowed.into();
        assert_eq!(widened, Cyclic::<5>(x));
    }
}

#[test]
fn outside_the_subgroup_nothing_is_handed_out() {
    for x in [1u8, 2, 3, 5, 6, 7, 9, 10, 11] {
        assert_eq!(Cyclic::<12>(x).is_torsion_free().unwrap_u8(), 0);
        assert_eq!(Cyclic::<12>(x).into_subgroup().is_some().unwrap_u8(), 0);
        assert_eq!(Cyclic::<12>(x).into_subgroup().into_option(), None);
    }
    // 3, 6 and 9 are of small order and are not the identity
    for x in [3u8, 6, 9] {
        assert_eq!(Cyclic::<12>(x).is_small_order().unwrap_u8(), 1);
        assert_eq!(Cyclic::<12>(x).is_identity().unwrap_u8(), 0);
    }
}

#[test]
fn only_the_identity_is_torsion_free_and_of_small_order() {
    for x in 0..12u8 {
        let both = Cyclic::<12>(x).is_torsion_free().unwrap_u8() == 1
            && Cyclic::<12>(x).is_small_order().unwrap_u8() == 1;
        assert_eq!(both, x == 0);
    }
}

#[test]
fn prime_group_is_its_own_subgroup() {
    for x in 0..5u8 {
        let element = Cyclic::<5>(x);
        assert_eq!(element.clear_cofactor(), element);
        assert_eq!(element.into_subgroup().into_option(), Some(element));
        assert_eq!(element.is_torsion_free().unwrap_u8(), 1);
        assert_eq!(element.is_small_order().unwrap_u8(), (x == 0) as u8);
    }
}

#[test]
fn encoding_round_trip() {
    for x in 0..12u8 {
        let bytes = Cyclic::<12>(x).to_bytes();
        assert_eq!(Cyclic::<12>::from_bytes(&bytes).into_option(), Some(Cyclic::<12>(x)));
    }
    assert_eq!(Cyclic::<12>::from_bytes(&[12]).into_option(), None);
}
