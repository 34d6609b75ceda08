//! The group contracts that every curve implementation provides, and the
//! arithmetic of repeated addition that the other contracts are stated in.
//!
//! An implementation gives each of its values a view, the group element that
//! the value stands for, and describes the group on those views: which views
//! are elements, what their sum and their inverses are. The laws of an abelian
//! group are proof obligations of the implementation. The executable
//! operations are specified against that description.

use crate::ct::choice_byte;
use crate::ct::choice_is;
use crate::ct::Maybe;
use core::ops::Add;
use core::ops::Mul;
use core::ops::Neg;
use core::ops::Sub;
use subtle::Choice;
use vstd::prelude::*;
use vstd::std_specs::ops::AddSpec;
use vstd::std_specs::ops::MulSpec;
use vstd::std_specs::ops::NegSpec;
use vstd::std_specs::ops::SubSpec;

verus! {

/// A type with a distinguished identity element.
pub trait Identity: View + Sized {
    /// The identity element.
    spec fn unit() -> Self::V;

    /// Returns a representation of the identity element.
    fn identity() -> (r: Self)
        ensures
            r@ == Self::unit(),
    ;

    /// Determines in constant time whether this value is the identity.
    fn is_identity(&self) -> (c: Choice)
        ensures
            choice_is(c, self@ == Self::unit()),
    ;
}

/// The description of an abelian group, written additively, on the views of
/// a type: which views are elements, and what their sums and inverses are.
pub trait GroupAlgebra: Identity {
    /// The views that are elements of the group.
    spec fn is_element(v: Self::V) -> bool;

    /// The sum of two elements.
    spec fn op(a: Self::V, b: Self::V) -> Self::V;

    /// The inverse of an element.
    spec fn inv(a: Self::V) -> Self::V;

    /// Every value stands for an element.
    proof fn law_view(x: Self)
        ensures
            Self::is_element(x@),
    ;

    /// The elements contain the identity and are closed under sum and inverse.
    proof fn law_closed(a: Self::V, b: Self::V)
        requires
            Self::is_element(a),
            Self::is_element(b),
        ensures
            Self::is_element(Self::unit()),
            Self::is_element(Self::op(a, b)),
            Self::is_element(Self::inv(a)),
    ;

    /// The sum is associative.
    proof fn law_associative(a: Self::V, b: Self::V, c: Self::V)
        requires
            Self::is_element(a),
            Self::is_element(b),
            Self::is_element(c),
        ensures
            Self::op(Self::op(a, b), c) == Self::op(a, Self::op(b, c)),
    ;

    /// The sum is commutative.
    proof fn law_commutative(a: Self::V, b: Self::V)
        requires
            Self::is_element(a),
            Self::is_element(b),
        ensures
            Self::op(a, b) == Self::op(b, a),
    ;

    /// The identity is neutral.
    proof fn law_unit(a: Self::V)
        requires
            Self::is_element(a),
        ensures
            Self::op(a, Self::unit()) == a,
    ;

    /// An element and its inverse sum to the identity.
    proof fn law_inverse(a: Self::V)
        requires
            Self::is_element(a),
        ensures
            Self::op(a, Self::inv(a)) == Self::unit(),
    ;
}

/// The element `v` added to itself `n` times; the identity for `n == 0`.
pub open spec fn multiple<G: GroupAlgebra>(v: G::V, n: nat) -> G::V
    decreases n,
{
    if n == 0 {
        G::unit()
    } else {
        G::op(v, multiple::<G>(v, (n - 1) as nat))
    }
}

/// An element of an abelian group, with the operations that compute in it.
pub trait Group: GroupAlgebra + Copy + Add<Output = Self> + Sub<Output = Self> + Neg<Output = Self> + Mul<
    <Self as Group>::Scalar,
    Output = Self,
> {
    /// Scalars by which elements are multiplied.
    type Scalar: Copy;

    /// The natural number that a scalar stands for.
    spec fn scalar_value(k: Self::Scalar) -> nat;

    /// `+` never fails and computes the sum.
    proof fn law_add(a: Self, b: Self)
        ensures
            Self::obeys_add_spec(),
            a.add_req(b),
            a.add_spec(b)@ == Self::op(a@, b@),
    ;

    /// Binary `-` never fails and adds the inverse.
    proof fn law_sub(a: Self, b: Self)
        ensures
            Self::obeys_sub_spec(),
            a.sub_req(b),
            a.sub_spec(b)@ == Self::op(a@, Self::inv(b@)),
    ;

    /// `neg`, the method behind unary `-`, never fails and computes the
    /// inverse.
    proof fn law_neg(a: Self)
        ensures
            Self::obeys_neg_spec(),
            a.neg_req(),
            a.neg_spec()@ == Self::inv(a@),
    ;

    /// `*` never fails and adds the element to itself as often as the scalar
    /// says.
    proof fn law_mul(a: Self, k: Self::Scalar)
        ensures
            Self::obeys_mul_spec(),
            a.mul_req(k),
            a.mul_spec(k)@ == multiple::<Self>(a@, Self::scalar_value(k)),
    ;

    /// Determines in constant time whether two values stand for the same
    /// element.
    fn ct_eq(&self, other: &Self) -> (c: Choice)
        ensures
            choice_is(c, self@ == other@),
    ;

    /// Doubles this element.
    fn double(&self) -> (r: Self)
        ensures
            r@ == Self::op(self@, self@),
    ;
}

/// `multiple(v, n)` is an element whenever `v` is.
pub proof fn lemma_multiple_is_element<G: GroupAlgebra>(v: G::V, n: nat)
    requires
        G::is_element(v),
    ensures
        G::is_element(multiple::<G>(v, n)),
    decreases n,
{
    G::law_closed(v, v);
    if n > 0 {
        lemma_multiple_is_element::<G>(v, (n - 1) as nat);
        G::law_closed(v, multiple::<G>(v, (n - 1) as nat));
    }
}

/// Adding an element once gives the element.
pub proof fn lemma_multiple_one<G: GroupAlgebra>(v: G::V)
    requires
        G::is_element(v),
    ensures
        multiple::<G>(v, 1) == v,
{
    reveal_with_fuel(multiple, 2);
    G::law_unit(v);
}

/// Every multiple of the identity is the identity.
pub proof fn lemma_multiple_of_unit<G: GroupAlgebra>(n: nat)
    ensures
        multiple::<G>(G::unit(), n) == G::unit(),
    decreases n,
{
    if n > 0 {
        lemma_multiple_of_unit::<G>((n - 1) as nat);
        lemma_unit_is_element::<G>();
        G::law_unit(G::unit());
    }
}

/// The identity is an element.
pub proof fn lemma_unit_is_element<G: GroupAlgebra>()
    ensures
        G::is_element(G::unit()),
{
    let x: G = arbitrary();
    G::law_view(x);
    G::law_closed(x@, x@);
}

/// Multiples add up: `a + b` copies are `a` copies plus `b` copies.
pub proof fn lemma_multiple_sum<G: GroupAlgebra>(v: G::V, a: nat, b: nat)
    requires
        G::is_element(v),
    ensures
        multiple::<G>(v, a + b) == G::op(multiple::<G>(v, a), multiple::<G>(v, b)),
    decreases a,
{
    let mb = multiple::<G>(v, b);
    lemma_multiple_is_element::<G>(v, b);
    if a == 0 {
        lemma_unit_is_element::<G>();
        G::law_commutative(G::unit(), mb);
        G::law_unit(mb);
    } else {
        let ma = multiple::<G>(v, (a - 1) as nat);
        lemma_multiple_is_element::<G>(v, (a - 1) as nat);
        lemma_multiple_sum::<G>(v, (a - 1) as nat, b);
        G::law_associative(v, ma, mb);
    }
}

/// Multiples nest: `a * b` copies are `a` copies of `b` copies.
pub proof fn lemma_multiple_product<G: GroupAlgebra>(v: G::V, a: nat, b: nat)
    requires
        G::is_element(v),
    ensures
        multiple::<G>(v, a * b) == multiple::<G>(multiple::<G>(v, b), a),
    decreases a,
{
    if a == 0 {
        assert(a * b == 0) by (nonlinear_arith)
            requires
                a == 0,
        ;
    } else {
        let p = (a - 1) as nat;
        lemma_multiple_product::<G>(v, p, b);
        assert(a * b == b + p * b) by (nonlinear_arith)
            requires
                a == p + 1,
        ;
        lemma_multiple_sum::<G>(v, b, p * b);
    }
}

/// The canonical fixed-size encoding of a group element.
pub trait GroupEncoding: View + Sized {
    /// The encoding of an element.
    type Repr: Copy + Default + Send + Sync + 'static;

    /// The encoding of an element.
    spec fn encoding(v: Self::V) -> Self::Repr;

    /// The element that an encoding denotes, if it denotes one.
    spec fn decoding(bytes: Self::Repr) -> Option<Self::V>;

    /// Decoding an element's encoding gives the element back.
    proof fn law_round_trip(x: Self)
        ensures
            Self::decoding(Self::encoding(x@)) == Some(x@),
    ;

    /// An element has only one encoding.
    proof fn law_canonical(bytes: Self::Repr)
        requires
            Self::decoding(bytes).is_some(),
        ensures
            Self::encoding(Self::decoding(bytes).unwrap()) == bytes,
    ;

    /// Decodes an element, present exactly when `bytes` is the encoding of
    /// one.
    fn from_bytes(bytes: &Self::Repr) -> (r: Maybe<Self>)
        ensures
            r@.is_some() <==> Self::decoding(*bytes).is_some(),
            choice_byte(r.flag()) <= 1,
            r@.is_some() ==> Some(r@.unwrap()@) == Self::decoding(*bytes),
    ;

    /// Encodes this element.
    fn to_bytes(&self) -> (r: Self::Repr)
        ensures
            r == Self::encoding(self@),
    ;
}

/// Round trip: decoding what `to_bytes` gave hands out the same element.
pub proof fn lemma_encoding_round_trip<T: GroupEncoding>(x: T, bytes: T::Repr, decoded: Maybe<T>)
    requires
        call_ensures(T::to_bytes, (&x,), bytes),
        call_ensures(T::from_bytes, (&bytes,), decoded),
    ensures
        decoded@.is_some(),
        decoded@.unwrap()@ == x@,
{
    T::law_round_trip(x);
}

/// An efficient representation of a curve point, for arithmetic.
pub trait Curve: Group {
    /// The affine representation of the same points.
    type AffineRepr: View<V = <Self as View>::V>;

    /// Converts this point to its affine representation.
    fn to_affine(&self) -> (r: Self::AffineRepr)
        ensures
            r@ == self@,
    ;
}

/// The affine representation of a curve point: the canonical representative
/// of the point.
pub trait CurveAffine: GroupEncoding + Identity + Copy + Neg<Output = Self> + Mul<
    <Self as CurveAffine>::Scalar,
    Output = <Self as CurveAffine>::Curve,
> {
    /// Scalars by which points are multiplied.
    type Scalar: Copy;

    /// The representation of the same points for arithmetic.
    type Curve: Curve<AffineRepr = Self, Scalar = <Self as CurveAffine>::Scalar> + View<
        V = <Self as View>::V,
    >;

    /// The fixed generator of the group.
    spec fn base_point() -> Self::V;

    /// Affine values stand for the elements of the curve's group, with the
    /// same identity, and the generator is not the identity.
    proof fn law_affine(p: Self)
        ensures
            Self::Curve::is_element(p@),
            <Self as Identity>::unit() == <Self::Curve as Identity>::unit(),
            Self::base_point() != <Self as Identity>::unit(),
            Self::Curve::is_element(Self::base_point()),
    ;

    /// `neg`, the method behind unary `-`, never fails and computes the
    /// inverse.
    proof fn law_affine_neg(p: Self)
        ensures
            Self::obeys_neg_spec(),
            p.neg_req(),
            p.neg_spec()@ == Self::Curve::inv(p@),
    ;

    /// `*` never fails and adds the point to itself as often as the scalar
    /// says.
    proof fn law_affine_mul(p: Self, k: <Self as CurveAffine>::Scalar)
        ensures
            Self::obeys_mul_spec(),
            p.mul_req(k),
            p.mul_spec(k)@ == multiple::<Self::Curve>(p@, Self::Curve::scalar_value(k)),
    ;

    /// Returns the fixed generator.
    fn generator() -> (r: Self)
        ensures
            r@ == Self::base_point(),
    ;

    /// Converts this point to its representation for arithmetic.
    fn to_curve(&self) -> (r: Self::Curve)
        ensures
            r@ == self@,
    ;
}

} // verus!
