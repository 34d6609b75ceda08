//! Extension traits and structs that provide generic access to the coordinates of
//! elliptic curve points.
//!
//! Coordinates are meaningless without the context of the curve equation that constrains
//! them. To safely expose them in a generic context, we use extension traits to restrict
//! the scope of the generic curve parameter; this ensures that the code can only be used
//! with curve implementations that explicitly expose their use of a specific curve model.
//!
//! Each model has three parts: the model itself, with the field, the parameters of
//! the curve equation and the validating entry point `from_bare_coordinates`; the
//! points of the curve; and the coordinates of a point. Raw field elements become
//! coordinates only through `from_coordinates`, which hands them out only when they
//! satisfy the equation.

use crate::algebra::CurveAffine;
use crate::ct::choice_byte;
use crate::ct::select;
use crate::ct::Maybe;
use subtle::Choice;
use subtle::ConditionallySelectable;
use vstd::prelude::*;

verus! {

/// The arithmetic of the field that a curve is defined over, as far as the
/// curve equations need it. Two field elements are the same element exactly
/// when they are equal as values.
pub trait FieldElement: Copy {
    /// The neutral element of the sum.
    spec fn zero() -> Self;

    /// The neutral element of the product.
    spec fn one() -> Self;

    /// The sum of two field elements.
    spec fn sum(self, rhs: Self) -> Self;

    /// The difference of two field elements.
    spec fn difference(self, rhs: Self) -> Self;

    /// The product of two field elements.
    spec fn product(self, rhs: Self) -> Self;
}

/// The square of a field element.
pub open spec fn square<F: FieldElement>(x: F) -> F {
    x.product(x)
}

/// The cube of a field element.
pub open spec fn cube<F: FieldElement>(x: F) -> F {
    square(x).product(x)
}

/// The field element 4.
pub open spec fn four<F: FieldElement>() -> F {
    F::one().sum(F::one()).sum(F::one().sum(F::one()))
}

//
// Twisted Edwards curve
//
/// Whether `(x, y)` satisfies the twisted Edwards equation
/// `a * x^2 + y^2 = 1 + d * x^2 * y^2`.
pub open spec fn twisted_edwards_equation<F: FieldElement>(a: F, d: F, x: F, y: F) -> bool {
    a.product(square(x)).sum(square(y)) == F::one().sum(d.product(square(x).product(square(y))))
}

/// The twisted Edwards model of a curve
/// `a * x^2 + y^2 = 1 + d * x^2 * y^2`: its field, its parameters, and the
/// one way from raw field elements to a point.
pub trait TwistedEdwardsModel: Sized {
    /// Field element type used in the curve equation.
    type Base: FieldElement;

    /// The parameter `a` in the twisted Edwards curve equation.
    ///
    /// When `a = 1`, this reduces to an ordinary Edwards curve.
    const A: Self::Base;

    /// The parameter `d` in the twisted Edwards curve equation.
    const D: Self::Base;

    /// The coordinates of a point.
    spec fn xy(self) -> (Self::Base, Self::Base);

    /// Obtains a point given `(x, y)`, failing if it is not on the curve.
    fn from_bare_coordinates(x: Self::Base, y: Self::Base) -> (r: Maybe<Self>)
        ensures
            r@.is_some() <==> twisted_edwards_equation(Self::A, Self::D, x, y),
            choice_byte(r.flag()) <= 1,
            r@.is_some() ==> r@.unwrap().xy() == (x, y),
    ;
}

/// An affine elliptic curve point on a twisted Edwards curve
/// `a * x^2 + y^2 = 1 + d * x^2 * y^2`.
pub trait TwistedEdwardsPoint: TwistedEdwardsModel + CurveAffine + Default {
    /// Every point lies on the curve, the identity at `(0, 1)`, and two
    /// values stand for the same point exactly when their coordinates are
    /// the same.
    proof fn law_coordinates(p: Self, q: Self)
        ensures
            twisted_edwards_equation(Self::A, Self::D, p.xy().0, p.xy().1),
            p@ == Self::unit() ==> p.xy() == (Self::Base::zero(), Self::Base::one()),
            p@ == q@ <==> p.xy() == q.xy(),
    ;

    /// Obtains a point given its coordinates.
    fn from_coordinates(coords: TwistedEdwardsCoordinates<Self>) -> (r: Self)
        requires
            coords.on_curve(),
        ensures
            r.xy() == coords@,
    ;

    /// Returns the coordinates of this point.
    ///
    /// For twisted Edwards curves, the identity has valid coordinates on the curve, so
    /// this method is infallible.
    fn coordinates(&self) -> (c: TwistedEdwardsCoordinates<Self>)
        ensures
            c@ == self.xy(),
            self@ == Self::unit() ==> c@ == (Self::Base::zero(), Self::Base::one()),
    ;
}

/// Round trip: the coordinates of a point obtained from `(x, y)` are `(x, y)`,
/// and they lie on the curve.
pub proof fn lemma_twisted_edwards_round_trip<P: TwistedEdwardsPoint>(
    x: P::Base,
    y: P::Base,
    made: Maybe<P>,
    coords: TwistedEdwardsCoordinates<P>,
)
    requires
        call_ensures(P::from_bare_coordinates, (x, y), made),
        made@.is_some(),
        call_ensures(P::coordinates, (&made@.unwrap(),), coords),
    ensures
        coords@ == (x, y),
        coords.on_curve(),
{
}

/// The affine coordinates for a [`TwistedEdwardsPoint`].
#[derive(Debug)]
pub struct TwistedEdwardsCoordinates<P: TwistedEdwardsModel> {
    x: P::Base,
    y: P::Base,
}

impl<P: TwistedEdwardsModel> View for TwistedEdwardsCoordinates<P> {
    type V = (P::Base, P::Base);

    closed spec fn view(&self) -> (P::Base, P::Base) {
        (self.x, self.y)
    }
}

impl<P: TwistedEdwardsModel> Clone for TwistedEdwardsCoordinates<P> {
    fn clone(&self) -> (r: Self)
        ensures
            r == *self,
    {
        *self
    }
}

impl<P: TwistedEdwardsModel> Copy for TwistedEdwardsCoordinates<P> {

}

impl<P: TwistedEdwardsModel> TwistedEdwardsCoordinates<P> {
    /// Obtains a `TwistedEdwardsCoordinates` value given `(x, y)`, failing if it is not
    /// on the curve.
    pub fn from_coordinates(x: P::Base, y: P::Base) -> (r: Maybe<Self>)
        ensures
            r@.is_some() <==> twisted_edwards_equation(P::A, P::D, x, y),
            choice_byte(r.flag()) <= 1,
            r@.is_some() ==> r@.unwrap()@ == (x, y) && r@.unwrap().on_curve(),
    {
        // We use `P::from_bare_coordinates` to validate the coordinates.
        let validated = P::from_bare_coordinates(x, y);
        Maybe::new(TwistedEdwardsCoordinates { x, y }, validated.is_some())
    }

    /// Whether the coordinates satisfy the curve equation.
    pub open spec fn on_curve(self) -> bool {
        twisted_edwards_equation(P::A, P::D, self@.0, self@.1)
    }

    /// Returns the x-coordinate.
    pub fn x(&self) -> (r: P::Base)
        ensures
            r == self@.0,
    {
        self.x
    }

    /// Returns the y-coordinate.
    pub fn y(&self) -> (r: P::Base)
        ensures
            r == self@.1,
    {
        self.y
    }
}

impl<P: TwistedEdwardsModel> ConditionallySelectable for TwistedEdwardsCoordinates<P> where
    P::Base: ConditionallySelectable,
{
    fn conditional_select(a: &Self, b: &Self, choice: Choice) -> (r: Self)
        ensures
            choice_byte(choice) == 0 ==> r == *a,
            choice_byte(choice) == 1 ==> r == *b,
            a.on_curve() && b.on_curve() && choice_byte(choice) <= 1 ==> r.on_curve(),
    {
        TwistedEdwardsCoordinates {
            x: select(&a.x, &b.x, choice),
            y: select(&a.y, &b.y, choice),
        }
    }
}

//
// Montgomery curve
//
/// Whether `(u, v)` satisfies the Montgomery equation
/// `b * v^2 = u^3 + a * u^2 + u`.
pub open spec fn montgomery_equation<F: FieldElement>(a: F, b: F, u: F, v: F) -> bool {
    b.product(square(v)) == cube(u).sum(a.product(square(u))).sum(u)
}

/// Whether the parameters define a Montgomery curve: `b * (a^2 - 4)` is not
/// zero.
pub open spec fn montgomery_nondegenerate<F: FieldElement>(a: F, b: F) -> bool {
    b.product(square(a).difference(four())) != F::zero()
}

/// The Montgomery model of a curve `B * v^2 = u^3 + A * u^2 + u`: its field,
/// its parameters, and the one way from raw field elements to a point.
///
/// For these curves, it is required that `B * (A^2 - 4)` is not zero, which
/// implies that `A` is neither 2 nor -2 and `B` is not 0.
pub trait MontgomeryModel: Sized {
    /// Field element type used in the curve equation.
    type Base: FieldElement;

    /// The parameter `A` in the Montgomery curve equation.
    const A: Self::Base;

    /// The parameter `B` in the Montgomery curve equation.
    const B: Self::Base;

    /// The coordinates of a point; the identity has none.
    spec fn uv(self) -> Option<(Self::Base, Self::Base)>;

    /// The parameters define a curve.
    proof fn law_nondegenerate()
        ensures
            montgomery_nondegenerate(Self::A, Self::B),
    ;

    /// Obtains a point given `(u, v)`, failing if it is not on the curve.
    fn from_bare_coordinates(u: Self::Base, v: Self::Base) -> (r: Maybe<Self>)
        ensures
            r@.is_some() <==> montgomery_equation(Self::A, Self::B, u, v),
            choice_byte(r.flag()) <= 1,
            r@.is_some() ==> r@.unwrap().uv() == Some((u, v)),
    ;
}

/// An affine elliptic curve point on a Montgomery curve
/// `B * v^2 = u^3 + A * u^2 + u`.
pub trait MontgomeryPoint: MontgomeryModel + CurveAffine + Default {
    /// Every point but the identity has coordinates, which lie on the curve,
    /// and two values stand for the same point exactly when their coordinates
    /// are the same.
    proof fn law_coordinates(p: Self, q: Self)
        ensures
            p.uv().is_none() <==> p@ == Self::unit(),
            p.uv().is_some() ==> montgomery_equation(
                Self::A,
                Self::B,
                p.uv().unwrap().0,
                p.uv().unwrap().1,
            ),
            p@ == q@ <==> p.uv() == q.uv(),
    ;

    /// Obtains a point given its coordinates.
    fn from_coordinates(coords: MontgomeryCoordinates<Self>) -> (r: Self)
        requires
            coords.on_curve(),
        ensures
            r.uv() == Some(coords@),
    ;

    /// Returns the coordinates of this point.
    ///
    /// Returns `None` if this is the identity.
    fn coordinates(&self) -> (r: Maybe<MontgomeryCoordinates<Self>>)
        ensures
            r@.is_none() <==> self@ == Self::unit(),
            choice_byte(r.flag()) <= 1,
            r@.is_some() ==> Some(r@.unwrap()@) == self.uv(),
    ;
}

/// Round trip: a point obtained from `(u, v)` has coordinates, they are
/// `(u, v)`, and they lie on the curve.
pub proof fn lemma_montgomery_round_trip<P: MontgomeryPoint>(
    u: P::Base,
    v: P::Base,
    made: Maybe<P>,
    coords: Maybe<MontgomeryCoordinates<P>>,
)
    requires
        call_ensures(P::from_bare_coordinates, (u, v), made),
        made@.is_some(),
        call_ensures(P::coordinates, (&made@.unwrap(),), coords),
    ensures
        coords@.is_some(),
        coords@.unwrap()@ == (u, v),
        coords@.unwrap().on_curve(),
{
    P::law_coordinates(made@.unwrap(), made@.unwrap());
}

/// The affine coordinates for a [`MontgomeryPoint`].
#[derive(Debug)]
pub struct MontgomeryCoordinates<P: MontgomeryModel> {
    u: P::Base,
    v: P::Base,
}

impl<P: MontgomeryModel> View for MontgomeryCoordinates<P> {
    type V = (P::Base, P::Base);

    closed spec fn view(&self) -> (P::Base, P::Base) {
        (self.u, self.v)
    }
}

impl<P: MontgomeryModel> Clone for MontgomeryCoordinates<P> {
    fn clone(&self) -> (r: Self)
        ensures
            r == *self,
    {
        *self
    }
}

impl<P: MontgomeryModel> Copy for MontgomeryCoordinates<P> {

}

impl<P: MontgomeryModel> MontgomeryCoordinates<P> {
    /// Obtains a `MontgomeryCoordinates` value given `(u, v)`, failing if it is not on
    /// the curve.
    pub fn from_coordinates(u: P::Base, v: P::Base) -> (r: Maybe<Self>)
        ensures
            r@.is_some() <==> montgomery_equation(P::A, P::B, u, v),
            choice_byte(r.flag()) <= 1,
            r@.is_some() ==> r@.unwrap()@ == (u, v) && r@.unwrap().on_curve(),
    {
        // We use `P::from_bare_coordinates` to validate the coordinates.
        let validated = P::from_bare_coordinates(u, v);
        Maybe::new(MontgomeryCoordinates { u, v }, validated.is_some())
    }

    /// Whether the coordinates satisfy the curve equation.
    pub open spec fn on_curve(self) -> bool {
        montgomery_equation(P::A, P::B, self@.0, self@.1)
    }

    /// Returns the u-coordinate.
    pub fn u(&self) -> (r: P::Base)
        ensures
            r == self@.0,
    {
        self.u
    }

    /// Returns the v-coordinate.
    pub fn v(&self) -> (r: P::Base)
        ensures
            r == self@.1,
    {
        self.v
    }
}

impl<P: MontgomeryModel> ConditionallySelectable for MontgomeryCoordinates<P> where
    P::Base: ConditionallySelectable,
{
    fn conditional_select(a: &Self, b: &Self, choice: Choice) -> (r: Self)
        ensures
            choice_byte(choice) == 0 ==> r == *a,
            choice_byte(choice) == 1 ==> r == *b,
            a.on_curve() && b.on_curve() && choice_byte(choice) <= 1 ==> r.on_curve(),
    {
        MontgomeryCoordinates {
            u: select(&a.u, &b.u, choice),
            v: select(&a.v, &b.v, choice),
        }
    }
}

//
// Short Weierstrass curve
//
/// Whether `(x, y)` satisfies the short Weierstrass equation
/// `y^2 = x^3 + a * x + b`.
pub open spec fn short_weierstrass_equation<F: FieldElement>(a: F, b: F, x: F, y: F) -> bool {
    square(y) == cube(x).sum(a.product(x)).sum(b)
}

/// The short Weierstrass model of a curve `y^2 = x^3 + a * x + b`: its field,
/// its parameters, and the one way from raw field elements to a point.
pub trait ShortWeierstrassModel: Sized {
    /// Field element type used in the curve equation.
    type Base: FieldElement;

    /// The parameter `a` in the short Weierstrass curve equation.
    const A: Self::Base;

    /// The parameter `b` in the short Weierstrass curve equation.
    const B: Self::Base;

    /// The coordinates of a point; the identity has none.
    spec fn xy(self) -> Option<(Self::Base, Self::Base)>;

    /// Obtains a point given `(x, y)`, failing if it is not on the curve.
    fn from_bare_coordinates(x: Self::Base, y: Self::Base) -> (r: Maybe<Self>)
        ensures
            r@.is_some() <==> short_weierstrass_equation(Self::A, Self::B, x, y),
            choice_byte(r.flag()) <= 1,
            r@.is_some() ==> r@.unwrap().xy() == Some((x, y)),
    ;
}

/// An affine elliptic curve point on a short Weierstrass curve
/// `y^2 = x^3 + a * x + b`.
pub trait ShortWeierstrassPoint: ShortWeierstrassModel + CurveAffine + Default {
    /// Every point but the identity has coordinates, which lie on the curve,
    /// and two values stand for the same point exactly when their coordinates
    /// are the same.
    proof fn law_coordinates(p: Self, q: Self)
        ensures
            p.xy().is_none() <==> p@ == Self::unit(),
            p.xy().is_some() ==> short_weierstrass_equation(
                Self::A,
                Self::B,
                p.xy().unwrap().0,
                p.xy().unwrap().1,
            ),
            p@ == q@ <==> p.xy() == q.xy(),
    ;

    /// Obtains a point given its coordinates.
    fn from_coordinates(coords: ShortWeierstrassCoordinates<Self>) -> (r: Self)
        requires
            coords.on_curve(),
        ensures
            r.xy() == Some(coords@),
    ;

    /// Returns the coordinates of this point.
    ///
    /// Returns `None` if this is the identity.
    fn coordinates(&self) -> (r: Maybe<ShortWeierstrassCoordinates<Self>>)
        ensures
            r@.is_none() <==> self@ == Self::unit(),
            choice_byte(r.flag()) <= 1,
            r@.is_some() ==> Some(r@.unwrap()@) == self.xy(),
    ;
}

/// Round trip: a point obtained from `(x, y)` has coordinates, they are
/// `(x, y)`, and they lie on the curve.
pub proof fn lemma_short_weierstrass_round_trip<P: ShortWeierstrassPoint>(
    x: P::Base,
    y: P::Base,
    made: Maybe<P>,
    coords: Maybe<ShortWeierstrassCoordinates<P>>,
)
    requires
        call_ensures(P::from_bare_coordinates, (x, y), made),
        made@.is_some(),
        call_ensures(P::coordinates, (&made@.unwrap(),), coords),
    ensures
        coords@.is_some(),
        coords@.unwrap()@ == (x, y),
        coords@.unwrap().on_curve(),
{
    P::law_coordinates(made@.unwrap(), made@.unwrap());
}

/// The affine coordinates for a [`ShortWeierstrassPoint`].
#[derive(Debug)]
pub struct ShortWeierstrassCoordinates<P: ShortWeierstrassModel> {
    x: P::Base,
    y: P::Base,
}

impl<P: ShortWeierstrassModel> View for ShortWeierstrassCoordinates<P> {
    type V = (P::Base, P::Base);

    closed spec fn view(&self) -> (P::Base, P::Base) {
        (self.x, self.y)
    }
}

impl<P: ShortWeierstrassModel> Clone for ShortWeierstrassCoordinates<P> {
    fn clone(&self) -> (r: Self)
        ensures
            r == *self,
    {
        *self
    }
}

impl<P: ShortWeierstrassModel> Copy for ShortWeierstrassCoordinates<P> {

}

impl<P: ShortWeierstrassModel> ShortWeierstrassCoordinates<P> {
    /// Obtains a `ShortWeierstrassCoordinates` value given `(x, y)`, failing if it is not
    /// on the curve.
    pub fn from_coordinates(x: P::Base, y: P::Base) -> (r: Maybe<Self>)
        ensures
            r@.is_some() <==> short_weierstrass_equation(P::A, P::B, x, y),
            choice_byte(r.flag()) <= 1,
            r@.is_some() ==> r@.unwrap()@ == (x, y) && r@.unwrap().on_curve(),
    {
        // We use `P::from_bare_coordinates` to validate the coordinates.
        let validated = P::from_bare_coordinates(x, y);
        Maybe::new(ShortWeierstrassCoordinates { x, y }, validated.is_some())
    }

    /// Whether the coordinates satisfy the curve equation.
    pub open spec fn on_curve(self) -> bool {
        short_weierstrass_equation(P::A, P::B, self@.0, self@.1)
    }

    /// Returns the x-coordinate.
    pub fn x(&self) -> (r: P::Base)
        ensures
            r == self@.0,
    {
        self.x
    }

    /// Returns the y-coordinate.
    pub fn y(&self) -> (r: P::Base)
        ensures
            r == self@.1,
    {
        self.y
    }
}

impl<P: ShortWeierstrassModel> ConditionallySelectable for ShortWeierstrassCoordinates<P> where
    P::Base: ConditionallySelectable,
{
    fn conditional_select(a: &Self, b: &Self, choice: Choice) -> (r: Self)
        ensures
            choice_byte(choice) == 0 ==> r == *a,
            choice_byte(choice) == 1 ==> r == *b,
            a.on_curve() && b.on_curve() && choice_byte(choice) <= 1 ==> r.on_curve(),
    {
        ShortWeierstrassCoordinates {
            x: select(&a.x, &b.x, choice),
            y: select(&a.y, &b.y, choice),
        }
    }
}

} // verus!
