//! Groups with a large prime-order subgroup and a comparatively small
//! cofactor.

use crate::algebra::lemma_multiple_is_element;
use crate::algebra::lemma_multiple_of_unit;
use crate::algebra::lemma_multiple_one;
use crate::algebra::lemma_multiple_product;
use crate::algebra::lemma_unit_is_element;
use crate::algebra::multiple;
use crate::algebra::Curve;
use crate::algebra::CurveAffine;
use crate::algebra::Group;
use crate::algebra::GroupAlgebra;
use crate::algebra::GroupEncoding;
use crate::algebra::Identity;
use crate::ct::choice_from;
use crate::ct::choice_byte;
use crate::ct::choice_is;
use crate::ct::Maybe;
use crate::prime::lemma_order_divides;
use crate::prime::lemma_order_is_prime;
use crate::prime::PrimeGroup;
use core::ops::Add;
use core::ops::Sub;
use subtle::Choice;
use vstd::arithmetic::div_mod::lemma_mod_multiples_basic;
use vstd::prelude::*;
use vstd::std_specs::ops::AddSpec;
use vstd::std_specs::ops::SubSpec;

verus! {

/// `<T as From<T>>::from`, std's conversion of a type into itself, returns
/// its argument unchanged. The conversion of a prime-order group into itself,
/// as its own subgroup, rests on this.
pub assume_specification<Same>[ <Same as From<Same>>::from ](t: Same) -> (r: Same)
    ensures
        r == t,
;

/// This trait represents an element of a cryptographic group with a large
/// prime-order subgroup and a comparatively-small cofactor.
pub trait CofactorGroup: Group + GroupEncoding + Add<
    <Self as CofactorGroup>::Subgroup,
    Output = Self,
> + Sub<<Self as CofactorGroup>::Subgroup, Output = Self> {
    /// The large prime-order subgroup in which cryptographic operations are
    /// performed.
    type Subgroup: PrimeGroup<Scalar = <Self as Group>::Scalar> + Into<Self>;

    /// The element of this group that an element of the subgroup is.
    spec fn embed(s: <Self::Subgroup as View>::V) -> Self::V;

    /// Whether an element lies in the prime-order subgroup.
    spec fn torsion_free(v: Self::V) -> bool;

    /// The element of the subgroup that clearing the cofactor maps an element
    /// to.
    spec fn cleared(v: Self::V) -> <Self::Subgroup as View>::V;

    /// The cofactor of the group.
    spec fn cofactor() -> nat;

    /// The fixed multiple of the cofactor by which `clear_cofactor`
    /// multiplies.
    spec fn clearing_factor() -> nat;

    /// The subgroup's elements are elements of this group, with the same sums
    /// and no two of them the same.
    proof fn law_embed(a: <Self::Subgroup as View>::V, b: <Self::Subgroup as View>::V)
        requires
            Self::Subgroup::is_element(a),
            Self::Subgroup::is_element(b),
        ensures
            Self::is_element(Self::embed(a)),
            Self::embed(Self::Subgroup::op(a, b)) == Self::op(Self::embed(a), Self::embed(b)),
            Self::embed(a) == Self::embed(b) ==> a == b,
    ;

    /// The elements that lie in the prime-order subgroup are the subgroup's
    /// elements.
    proof fn law_torsion_free(v: Self::V)
        requires
            Self::is_element(v),
        ensures
            Self::torsion_free(v) <==> exists|s: <Self::Subgroup as View>::V|
                Self::Subgroup::is_element(s) && #[trigger] Self::embed(s) == v,
    ;

    /// Multiplying by the cofactor maps every element into the prime-order
    /// subgroup. The clearing factor is a positive multiple of the cofactor,
    /// and no multiple of the subgroup's order, so that it maps no element of
    /// the subgroup to the identity but the identity.
    proof fn law_cofactor(v: Self::V)
        requires
            Self::is_element(v),
        ensures
            Self::cofactor() > 0,
            Self::clearing_factor() > 0,
            Self::clearing_factor() % Self::cofactor() == 0,
            Self::clearing_factor() % Self::Subgroup::order() != 0,
            Self::torsion_free(multiple::<Self>(v, Self::cofactor())),
    ;

    /// Clearing the cofactor multiplies by the clearing factor.
    proof fn law_cleared(v: Self::V)
        requires
            Self::is_element(v),
        ensures
            Self::Subgroup::is_element(Self::cleared(v)),
            Self::embed(Self::cleared(v)) == multiple::<Self>(v, Self::clearing_factor()),
    ;

    /// Converting an element of the subgroup into the group gives the element
    /// that it is.
    proof fn law_widen(s: Self::Subgroup, g: Self)
        requires
            call_ensures(<Self::Subgroup as Into<Self>>::into, (s,), g),
        ensures
            g@ == Self::embed(s@),
    ;

    /// `+` and `-` with an element of the subgroup never fail, and compute
    /// the sum with that element and with its inverse.
    proof fn law_mixed(a: Self, s: Self::Subgroup)
        ensures
            <Self as AddSpec<Self::Subgroup>>::obeys_add_spec(),
            <Self as AddSpec<Self::Subgroup>>::add_req(a, s),
            <Self as AddSpec<Self::Subgroup>>::add_spec(a, s)@ == Self::op(a@, Self::embed(s@)),
            <Self as SubSpec<Self::Subgroup>>::obeys_sub_spec(),
            <Self as SubSpec<Self::Subgroup>>::sub_req(a, s),
            <Self as SubSpec<Self::Subgroup>>::sub_spec(a, s)@ == Self::op(
                a@,
                Self::inv(Self::embed(s@)),
            ),
    ;

    /// Maps `self` to the prime-order subgroup by multiplying this element by
    /// some `k`-multiple of the cofactor.
    ///
    /// The value `k` does not vary between inputs for a given implementation,
    /// but may vary between different implementations of `CofactorGroup`
    /// because some groups have more efficient methods of clearing the
    /// cofactor when `k` is allowed to be different than `1`.
    fn clear_cofactor(&self) -> (r: Self::Subgroup)
        ensures
            r@ == Self::cleared(self@),
    ;

    /// Returns `self` if it is contained in the prime-order subgroup.
    fn into_subgroup(self) -> (r: Maybe<Self::Subgroup>)
        ensures
            r@.is_some() <==> Self::torsion_free(self@),
            choice_byte(r.flag()) <= 1,
            r@.is_some() ==> Self::embed(r@.unwrap()@) == self@,
    ;

    /// Determines if this element is of small order: whether clearing the
    /// cofactor maps it to the identity.
    fn is_small_order(&self) -> (c: Choice)
        ensures
            choice_is(c, Self::cleared(self@) == <Self::Subgroup as Identity>::unit()),
    {
        self.clear_cofactor().is_identity()
    }

    /// Determines if this element is "torsion free", i.e., is contained in the
    /// prime-order subgroup.
    fn is_torsion_free(&self) -> (c: Choice)
        ensures
            choice_is(c, Self::torsion_free(self@)),
    ;
}

/// A group of prime order is its own prime-order subgroup, with cofactor 1:
/// clearing the cofactor changes nothing, and every element is torsion free.
impl<G: PrimeGroup> CofactorGroup for G {
    type Subgroup = G;

    open spec fn embed(s: G::V) -> G::V {
        s
    }

    open spec fn torsion_free(v: G::V) -> bool {
        G::is_element(v)
    }

    open spec fn cleared(v: G::V) -> G::V {
        v
    }

    open spec fn cofactor() -> nat {
        1
    }

    open spec fn clearing_factor() -> nat {
        1
    }

    proof fn law_embed(a: G::V, b: G::V) {
    }

    proof fn law_torsion_free(v: G::V) {
        assert(Self::embed(v) == v);
    }

    proof fn law_cofactor(v: G::V) {
        lemma_multiple_one::<G>(v);
        lemma_order_is_prime::<G>();
        assert(1nat % G::order() == 1) by (nonlinear_arith)
            requires
                G::order() > 1,
        ;
    }

    proof fn law_cleared(v: G::V) {
        lemma_multiple_one::<G>(v);
    }

    proof fn law_widen(s: G, g: G) {
    }

    proof fn law_mixed(a: G, s: G) {
        G::law_add(a, s);
        G::law_sub(a, s);
    }

    fn clear_cofactor(&self) -> (r: G)
        ensures
            r == *self,
    {
        *self
    }

    fn into_subgroup(self) -> (r: Maybe<G>)
        ensures
            r@ == Some(self),
    {
        proof {
            G::law_view(self);
        }
        Maybe::new(self, choice_from(1u8))
    }

    fn is_torsion_free(&self) -> (c: Choice) {
        proof {
            G::law_view(*self);
        }
        choice_from(1u8)
    }
}

/// The identity of the subgroup is the identity of the group.
pub proof fn lemma_embed_unit<G: CofactorGroup>()
    ensures
        G::embed(<G::Subgroup as Identity>::unit()) == <G as Identity>::unit(),
{
    let u = <G::Subgroup as Identity>::unit();
    let e = G::embed(u);
    lemma_unit_is_element::<G::Subgroup>();
    G::Subgroup::law_unit(u);
    G::law_embed(u, u);
    G::law_closed(e, e);
    G::law_inverse(e);
    G::law_associative(e, e, G::inv(e));
    G::law_unit(e);
}

/// Multiples taken in the subgroup are the multiples taken in the group.
pub proof fn lemma_embed_multiple<G: CofactorGroup>(s: <G::Subgroup as View>::V, n: nat)
    requires
        G::Subgroup::is_element(s),
    ensures
        G::embed(multiple::<G::Subgroup>(s, n)) == multiple::<G>(G::embed(s), n),
    decreases n,
{
    if n == 0 {
        lemma_embed_unit::<G>();
    } else {
        let rest = multiple::<G::Subgroup>(s, (n - 1) as nat);
        lemma_embed_multiple::<G>(s, (n - 1) as nat);
        lemma_multiple_is_element::<G::Subgroup>(s, (n - 1) as nat);
        G::law_embed(s, rest);
    }
}

/// An element that some element of the subgroup is lies in the prime-order
/// subgroup, and no other element of the subgroup is the same element.
pub proof fn lemma_subgroup_element<G: CofactorGroup>(
    s: <G::Subgroup as View>::V,
    t: <G::Subgroup as View>::V,
)
    requires
        G::Subgroup::is_element(s),
        G::Subgroup::is_element(t),
    ensures
        G::is_element(G::embed(s)),
        G::torsion_free(G::embed(s)),
        G::embed(t) == G::embed(s) ==> t == s,
{
    G::law_embed(s, t);
    G::law_torsion_free(G::embed(s));
}

/// Clearing the cofactor gives an element of the prime-order subgroup, and it
/// gives the identity exactly when the clearing factor annihilates the
/// element.
pub proof fn lemma_cleared<G: CofactorGroup>(v: G::V)
    requires
        G::is_element(v),
    ensures
        G::Subgroup::is_element(G::cleared(v)),
        G::torsion_free(G::embed(G::cleared(v))),
        G::cleared(v) == <G::Subgroup as Identity>::unit() <==> multiple::<G>(
            v,
            G::clearing_factor(),
        ) == <G as Identity>::unit(),
{
    let c = G::cleared(v);
    let u = <G::Subgroup as Identity>::unit();
    G::law_cleared(v);
    lemma_subgroup_element::<G>(c, c);
    lemma_unit_is_element::<G::Subgroup>();
    lemma_embed_unit::<G>();
    G::law_embed(c, u);
}

/// Only the identity is both torsion free and of small order.
pub proof fn lemma_torsion_free_and_small_order<G: CofactorGroup>(v: G::V)
    requires
        G::is_element(v),
        G::torsion_free(v),
        G::cleared(v) == <G::Subgroup as Identity>::unit(),
    ensures
        v == <G as Identity>::unit(),
{
    let m = G::clearing_factor();
    let u = <G::Subgroup as Identity>::unit();
    G::law_torsion_free(v);
    let s = choose|s: <G::Subgroup as View>::V|
        G::Subgroup::is_element(s) && #[trigger] G::embed(s) == v;
    G::law_cleared(v);
    G::law_cofactor(v);
    lemma_embed_multiple::<G>(s, m);
    lemma_embed_unit::<G>();
    lemma_multiple_is_element::<G::Subgroup>(s, m);
    G::law_embed(multiple::<G::Subgroup>(s, m), u);
    if s != u {
        lemma_order_divides::<G::Subgroup>(s, m);
    }
}

/// Clearing the cofactor of an element that came out of clearing multiplies
/// it by the clearing factor once more, inside the subgroup.
pub proof fn lemma_clear_cofactor_again<G: CofactorGroup>(v: G::V)
    requires
        G::is_element(v),
    ensures
        G::cleared(G::embed(G::cleared(v))) == multiple::<G::Subgroup>(
            G::cleared(v),
            G::clearing_factor(),
        ),
{
    let c = G::cleared(v);
    let w = G::embed(c);
    let again = multiple::<G::Subgroup>(c, G::clearing_factor());
    G::law_cleared(v);
    lemma_subgroup_element::<G>(c, c);
    G::law_cleared(w);
    lemma_embed_multiple::<G>(c, G::clearing_factor());
    lemma_multiple_is_element::<G::Subgroup>(c, G::clearing_factor());
    G::law_embed(G::cleared(w), again);
}

/// An element is of small order exactly when the cofactor annihilates it.
pub proof fn lemma_small_order<G: CofactorGroup>(v: G::V)
    requires
        G::is_element(v),
    ensures
        G::cleared(v) == <G::Subgroup as Identity>::unit() <==> multiple::<G>(v, G::cofactor())
            == <G as Identity>::unit(),
{
    let m = G::clearing_factor();
    let h = G::cofactor();
    let q = G::Subgroup::order();
    let k = m / h;
    let u = <G::Subgroup as Identity>::unit();
    let y = multiple::<G>(v, h);
    G::law_cofactor(v);
    lemma_cleared::<G>(v);
    lemma_multiple_is_element::<G>(v, h);
    assert(m == k * h) by (nonlinear_arith)
        requires
            h > 0,
            k == m / h,
            m % h == 0,
    ;
    lemma_multiple_product::<G>(v, k, h);
    if y == <G as Identity>::unit() {
        lemma_multiple_of_unit::<G>(k);
    }
    if multiple::<G>(y, k) == <G as Identity>::unit() {
        G::law_torsion_free(y);
        let s = choose|s: <G::Subgroup as View>::V|
            G::Subgroup::is_element(s) && #[trigger] G::embed(s) == y;
        lemma_embed_multiple::<G>(s, k);
        lemma_embed_unit::<G>();
        lemma_multiple_is_element::<G::Subgroup>(s, k);
        G::law_embed(multiple::<G::Subgroup>(s, k), u);
        if s != u {
            // k is a multiple of q, and so is m
            lemma_order_divides::<G::Subgroup>(s, k);
            lemma_order_is_prime::<G::Subgroup>();
            let j = k / q;
            assert(k == j * q) by (nonlinear_arith)
                requires
                    q > 0,
                    j == k / q,
                    k % q == 0,
            ;
            assert(m == (j * h) * q) by (nonlinear_arith)
                requires
                    m == k * h,
                    k == j * q,
            ;
            lemma_mod_multiples_basic((j * h) as int, q as int);
        }
    }
}

/// Clearing what came out of clearing gives the same element of the subgroup
/// again exactly when the element is of small order or the clearing factor is
/// 1 modulo the order of the subgroup.
pub proof fn lemma_clear_cofactor_twice<G: CofactorGroup>(v: G::V)
    requires
        G::is_element(v),
    ensures
        G::cleared(G::embed(G::cleared(v))) == G::cleared(v) <==> (G::cleared(v)
            == <G::Subgroup as Identity>::unit() || G::clearing_factor() % G::Subgroup::order()
            == 1),
{
    let c = G::cleared(v);
    let m = G::clearing_factor();
    let q = G::Subgroup::order();
    let u = <G::Subgroup as Identity>::unit();
    lemma_clear_cofactor_again::<G>(v);
    G::law_cleared(v);
    G::law_cofactor(v);
    lemma_order_is_prime::<G::Subgroup>();
    if c == u {
        lemma_multiple_of_unit::<G::Subgroup>(m);
    } else {
        // m copies of c are c itself exactly when m - 1 copies are the identity
        let rest = multiple::<G::Subgroup>(c, (m - 1) as nat);
        lemma_multiple_is_element::<G::Subgroup>(c, (m - 1) as nat);
        if rest == u {
            G::Subgroup::law_unit(c);
        }
        if G::Subgroup::op(c, rest) == c {
            let back = G::Subgroup::inv(c);
            G::Subgroup::law_closed(c, rest);
            G::Subgroup::law_inverse(c);
            G::Subgroup::law_commutative(c, rest);
            G::Subgroup::law_associative(rest, c, back);
            G::Subgroup::law_unit(rest);
        }
        lemma_order_divides::<G::Subgroup>(c, (m - 1) as nat);
        assert(((m - 1) as nat) % q == 0 <==> m % q == 1) by (nonlinear_arith)
            requires
                m > 0,
                q > 1,
        ;
    }
}

/// Clearing the cofactor is idempotent after the first clearing: an element
/// that came out of clearing, taken as an element of the group and cleared
/// again, gives the same element of the subgroup. This holds of the elements
/// of small order, and of every element where the clearing factor is 1 modulo
/// the order of the subgroup; of no others, as `lemma_clear_cofactor_twice`
/// shows.
pub proof fn lemma_clear_cofactor_idempotent<G: CofactorGroup>(v: G::V)
    requires
        G::is_element(v),
        G::cleared(v) == <G::Subgroup as Identity>::unit() || G::clearing_factor()
            % G::Subgroup::order() == 1,
    ensures
        G::cleared(G::embed(G::cleared(v))) == G::cleared(v),
{
    lemma_clear_cofactor_twice::<G>(v);
}

/// Clearing the cofactor is idempotent after the first clearing, on the
/// executable operations: what `clear_cofactor` gave, converted into the
/// group and given to `clear_cofactor` again, comes back as the same element
/// of the subgroup. This holds where `lemma_clear_cofactor_idempotent` does.
pub proof fn lemma_clear_cofactor_of_cleared<G: CofactorGroup>(
    x: G,
    once: G::Subgroup,
    widened: G,
    twice: G::Subgroup,
)
    requires
        call_ensures(G::clear_cofactor, (&x,), once),
        call_ensures(<G::Subgroup as Into<G>>::into, (once,), widened),
        call_ensures(G::clear_cofactor, (&widened,), twice),
        once@ == <G::Subgroup as Identity>::unit() || G::clearing_factor() % G::Subgroup::order()
            == 1,
    ensures
        twice@ == once@,
{
    G::law_view(x);
    G::law_widen(once, widened);
    lemma_clear_cofactor_idempotent::<G>(x@);
}

/// What `into_subgroup` hands out, converted back into the group, is the
/// element that went in.
pub proof fn lemma_into_subgroup_widens_back<G: CofactorGroup>(
    x: G,
    narrowed: Maybe<G::Subgroup>,
    widened: G,
)
    requires
        call_ensures(G::into_subgroup, (x,), narrowed),
        narrowed@.is_some(),
        call_ensures(<G::Subgroup as Into<G>>::into, (narrowed@.unwrap(),), widened),
    ensures
        widened@ == x@,
{
    G::law_widen(narrowed@.unwrap(), widened);
}

/// `into_subgroup` hands out a value exactly when `is_torsion_free` says yes,
/// and the value is the element itself, as an element of the subgroup.
pub proof fn lemma_into_subgroup_agrees_with_is_torsion_free<G: CofactorGroup>(
    x: G,
    narrowed: Maybe<G::Subgroup>,
    free: Choice,
)
    requires
        call_ensures(G::into_subgroup, (x,), narrowed),
        call_ensures(G::is_torsion_free, (&x,), free),
    ensures
        choice_is(free, narrowed@.is_some()),
        choice_byte(narrowed.flag()) == choice_byte(free),
        narrowed@.is_some() ==> G::embed(narrowed@.unwrap()@) == x@,
{
}

/// `is_small_order` says yes exactly when `clear_cofactor` gives the
/// identity.
pub proof fn lemma_is_small_order_agrees_with_clear_cofactor<G: CofactorGroup>(
    x: G,
    small: Choice,
    cleared: G::Subgroup,
)
    requires
        call_ensures(G::is_small_order, (&x,), small),
        call_ensures(G::clear_cofactor, (&x,), cleared),
    ensures
        choice_is(small, cleared@ == <G::Subgroup as Identity>::unit()),
{
}

/// On a group of prime order `into_subgroup` always hands out the element
/// itself, `clear_cofactor` returns it unchanged, and `is_torsion_free`
/// always says yes.
pub proof fn lemma_prime_group_operations<G: PrimeGroup>(
    x: G,
    narrowed: Maybe<G>,
    cleared: G,
    free: Choice,
)
    requires
        call_ensures(<G as CofactorGroup>::into_subgroup, (x,), narrowed),
        call_ensures(<G as CofactorGroup>::clear_cofactor, (&x,), cleared),
        call_ensures(<G as CofactorGroup>::is_torsion_free, (&x,), free),
    ensures
        narrowed@ == Some(x),
        cleared == x,
        choice_is(free, true),
{
    G::law_view(x);
}

/// In a group of prime order the cofactor and the clearing factor are 1:
/// clearing the cofactor gives the element itself, every element is torsion
/// free, and the subgroup is the group.
pub proof fn lemma_prime_group_cofactor<G: PrimeGroup>(v: G::V)
    requires
        G::is_element(v),
    ensures
        <G as CofactorGroup>::cofactor() == 1,
        <G as CofactorGroup>::clearing_factor() == 1,
        <G as CofactorGroup>::cleared(v) == v,
        <G as CofactorGroup>::torsion_free(v),
        <G as CofactorGroup>::embed(v) == v,
{
}

/// Efficient representation of an elliptic curve point guaranteed to be
/// in the correct prime order subgroup.
pub trait CofactorCurve: Curve + CofactorGroup {

}

/// Affine representation of an elliptic curve point guaranteed to be
/// in the correct prime order subgroup.
pub trait CofactorCurveAffine: CurveAffine {

}

impl<C: CurveAffine> CofactorCurveAffine for C where C::Curve: CofactorCurve {

}

} // verus!
