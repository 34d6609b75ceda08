//! Groups of prime order, and curves whose whole point group has prime order.

use crate::algebra::lemma_multiple_is_element;
use crate::algebra::lemma_multiple_of_unit;
use crate::algebra::lemma_multiple_one;
use crate::algebra::lemma_multiple_product;
use crate::algebra::lemma_multiple_sum;
use crate::algebra::lemma_unit_is_element;
use crate::algebra::multiple;
use crate::algebra::Curve;
use crate::algebra::Group;
use crate::algebra::GroupAlgebra;
use crate::algebra::GroupEncoding;
use crate::algebra::Identity;
use core::ops::Mul;
use core::ops::Neg;
use vstd::prelude::*;
use vstd::std_specs::ops::MulSpec;
use vstd::std_specs::ops::NegSpec;

verus! {

/// `n` has no divisor other than 1 and itself, and is not 1.
pub open spec fn is_prime(n: nat) -> bool {
    &&& n > 1
    &&& forall|d: nat| 1 < d < n ==> #[trigger] (n % d) != 0
}

/// This trait represents an element of a prime-order cryptographic group.
pub trait PrimeGroup: Group + GroupEncoding {
    /// The order of the group.
    spec fn order() -> nat;

    /// The order is prime, and that many copies of an element add up to the
    /// identity.
    proof fn law_order(a: Self::V)
        requires
            Self::is_element(a),
        ensures
            is_prime(Self::order()),
            multiple::<Self>(a, Self::order()) == Self::unit(),
    ;
}

/// The order of a group of prime order is a prime number.
pub proof fn lemma_order_is_prime<G: PrimeGroup>()
    ensures
        is_prime(G::order()),
{
    lemma_unit_is_element::<G>();
    G::law_order(G::unit());
}

/// In a group of prime order, fewer copies than the order add up to the
/// identity only for the identity.
pub proof fn lemma_no_smaller_order<G: PrimeGroup>(a: G::V, n: nat)
    requires
        G::is_element(a),
        0 < n < G::order(),
        multiple::<G>(a, n) == G::unit(),
    ensures
        a == G::unit(),
    decreases n,
{
    let q = G::order();
    G::law_order(a);
    if n == 1 {
        lemma_multiple_one::<G>(a);
    } else {
        let j = q / n;
        let rest = q % n;
        assert(q == j * n + rest && rest < n) by (nonlinear_arith)
            requires
                n > 0,
                j == q / n,
                rest == q % n,
        ;
        lemma_multiple_sum::<G>(a, j * n, rest);
        lemma_multiple_product::<G>(a, j, n);
        lemma_multiple_of_unit::<G>(j);
        lemma_multiple_is_element::<G>(a, rest);
        lemma_unit_is_element::<G>();
        G::law_commutative(G::unit(), multiple::<G>(a, rest));
        G::law_unit(multiple::<G>(a, rest));
        lemma_no_smaller_order::<G>(a, rest);
    }
}

/// In a group of prime order, the numbers of copies of an element other than
/// the identity that add up to the identity are the multiples of the order.
pub proof fn lemma_order_divides<G: PrimeGroup>(a: G::V, n: nat)
    requires
        G::is_element(a),
        a != G::unit(),
    ensures
        multiple::<G>(a, n) == G::unit() <==> n % G::order() == 0,
{
    let q = G::order();
    let t = n / q;
    let rest = n % q;
    G::law_order(a);
    assert(n == t * q + rest && rest < q) by (nonlinear_arith)
        requires
            q > 0,
            t == n / q,
            rest == n % q,
    ;
    lemma_multiple_sum::<G>(a, t * q, rest);
    lemma_multiple_product::<G>(a, t, q);
    lemma_multiple_of_unit::<G>(t);
    lemma_multiple_is_element::<G>(a, rest);
    lemma_unit_is_element::<G>();
    G::law_commutative(G::unit(), multiple::<G>(a, rest));
    G::law_unit(multiple::<G>(a, rest));
    if rest > 0 && multiple::<G>(a, rest) == G::unit() {
        lemma_no_smaller_order::<G>(a, rest);
    }
}

/// Efficient representation of an elliptic curve point guaranteed to be
/// in the correct prime order subgroup.
pub trait PrimeCurve: Curve<AffineRepr = <Self as PrimeCurve>::Affine> + PrimeGroup {
    /// The affine representation of the curve's points.
    type Affine: PrimeCurveAffine<Curve = Self, Scalar = <Self as Group>::Scalar> + Mul<
        <Self as Group>::Scalar,
        Output = Self,
    > + for<'r> Mul<&'r <Self as Group>::Scalar, Output = Self>;
}

/// Affine representation of an elliptic curve point guaranteed to be
/// in the correct prime order subgroup.
pub trait PrimeCurveAffine: GroupEncoding + Identity + Copy + Clone + Sized + Send + Sync + core::fmt::Debug + PartialEq + Eq + 'static + Neg<
    Output = Self,
> + Mul<<Self as PrimeCurveAffine>::Scalar, Output = <Self as PrimeCurveAffine>::Curve> + for<'r> Mul<
    &'r <Self as PrimeCurveAffine>::Scalar,
    Output = <Self as PrimeCurveAffine>::Curve,
> {
    /// Scalars by which points are multiplied.
    type Scalar: Copy;

    /// The representation of the same points for arithmetic.
    type Curve: Curve<AffineRepr = Self, Scalar = <Self as PrimeCurveAffine>::Scalar> + PrimeGroup + View<
        V = <Self as View>::V,
    >;

    /// The fixed generator of the group.
    spec fn base_point() -> Self::V;

    /// Affine values stand for the elements of the curve's group, with the
    /// same identity, and the generator is an element other than the
    /// identity.
    proof fn law_affine(p: Self)
        ensures
            Self::Curve::is_element(p@),
            <Self as Identity>::unit() == <Self::Curve as Identity>::unit(),
            Self::Curve::is_element(Self::base_point()),
            Self::base_point() != <Self as Identity>::unit(),
    ;

    /// `neg`, the method behind unary `-`, never fails and computes the
    /// inverse.
    proof fn law_affine_neg(p: Self)
        ensures
            Self::obeys_neg_spec(),
            p.neg_req(),
            p.neg_spec()@ == Self::Curve::inv(p@),
    ;

    /// `*` never fails and adds the point to itself as often as the scalar
    /// says, whether the scalar is passed by value or by reference.
    proof fn law_affine_mul(p: Self, k: <Self as PrimeCurveAffine>::Scalar)
        ensures
            <Self as MulSpec<<Self as PrimeCurveAffine>::Scalar>>::obeys_mul_spec(),
            <Self as MulSpec<<Self as PrimeCurveAffine>::Scalar>>::mul_req(p, k),
            <Self as MulSpec<<Self as PrimeCurveAffine>::Scalar>>::mul_spec(p, k)@ == multiple::<Self::Curve>(
                p@,
                Self::Curve::scalar_value(k),
            ),
            <Self as MulSpec<&<Self as PrimeCurveAffine>::Scalar>>::obeys_mul_spec(),
            <Self as MulSpec<&<Self as PrimeCurveAffine>::Scalar>>::mul_req(p, &k),
            <Self as MulSpec<&<Self as PrimeCurveAffine>::Scalar>>::mul_spec(p, &k)@ == multiple::<Self::Curve>(
                p@,
                Self::Curve::scalar_value(k),
            ),
    ;

    /// Returns a fixed generator of unknown exponent.
    fn generator() -> (r: Self)
        ensures
            r@ == Self::base_point(),
    ;

    /// Converts this element to its curve representation.
    fn to_curve(&self) -> (r: Self::Curve)
        ensures
            r@ == self@,
    ;
}

/// Round trip: converting a point to its affine representation and back
/// gives the same point.
pub proof fn lemma_affine_round_trip<C: PrimeCurve>(point: C, affine: C::Affine, back: C)
    requires
        call_ensures(C::to_affine, (&point,), affine),
        call_ensures(<C::Affine as PrimeCurveAffine>::to_curve, (&affine,), back),
    ensures
        back@ == point@,
{
}

} // verus!
