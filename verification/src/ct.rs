//! Constant-time flags and optional values.
//!
//! Predicates that may be evaluated on secret data answer with a
//! [`subtle::Choice`] instead of a `bool`, and fallible constructors answer
//! with a [`Maybe`] instead of an `Option`, so that callers cannot branch on
//! the answer by accident.

use subtle::Choice;
use subtle::ConditionallySelectable;
use vstd::prelude::*;

verus! {

/// `subtle::Choice`: a byte that stands for a truth value, 1 for true and 0
/// for false. Nothing inside it is visible here; `choice_byte` names what it
/// holds.
#[verifier::external_type_specification]
#[verifier::external_body]
pub struct ExChoice(Choice);

/// The byte that a `Choice` wraps, as `Choice::unwrap_u8` reveals it.
pub uninterp spec fn choice_byte(c: Choice) -> u8;

/// `c` is the well-formed flag for the truth value `b`: the byte 1 for
/// `true`, the byte 0 for `false`.
pub open spec fn choice_is(c: Choice, b: bool) -> bool {
    choice_byte(c) == (if b { 1u8 } else { 0u8 })
}

/// `subtle::Choice::unwrap_u8` returns the wrapped byte unchanged.
pub assume_specification[ Choice::unwrap_u8 ](c: &Choice) -> (r: u8)
    ensures
        r == choice_byte(*c),
;

/// `<subtle::Choice as From<u8>>::from` wraps the byte it is given. In debug
/// builds it panics on a byte other than 0 and 1, so those are left out.
#[verifier::external_body]
pub(crate) fn choice_from(b: u8) -> (c: Choice)
    requires
        b == 0 || b == 1,
    ensures
        choice_byte(c) == b,
{
    Choice::from(b)
}

/// `subtle::ConditionallySelectable::conditional_select` returns the first
/// operand for the flag 0 and the second for the flag 1, as the trait
/// documents for each of its implementations.
#[verifier::external_body]
pub(crate) fn select<T: ConditionallySelectable>(a: &T, b: &T, choice: Choice) -> (r: T)
    ensures
        choice_byte(choice) == 0 ==> r == *a,
        choice_byte(choice) == 1 ==> r == *b,
{
    T::conditional_select(a, b, choice)
}

/// An optional value whose presence is a constant-time flag.
///
/// A value is always stored, beside a flag. The value counts as present
/// exactly when the flag is 1, and is handed out only then.
#[derive(Debug)]
pub struct Maybe<T> {
    value: T,
    is_some: Choice,
}

impl<T> View for Maybe<T> {
    type V = Option<T>;

    open spec fn view(&self) -> Option<T> {
        if choice_byte(self.flag()) == 1 {
            Some(self.stored())
        } else {
            None
        }
    }
}

impl<T: Copy> Clone for Maybe<T> {
    fn clone(&self) -> (r: Self)
        ensures
            r == *self,
    {
        *self
    }
}

impl<T: Copy> Copy for Maybe<T> {

}

impl<T> Maybe<T> {
    /// The stored value, present or not.
    pub closed spec fn stored(self) -> T {
        self.value
    }

    /// The flag that tells whether the stored value is present.
    pub closed spec fn flag(self) -> Choice {
        self.is_some
    }

    /// Stores `value`, present exactly when `is_some` is the flag 1.
    pub fn new(value: T, is_some: Choice) -> (r: Self)
        ensures
            r.stored() == value,
            r.flag() == is_some,
    {
        Maybe { value, is_some }
    }

    /// The flag that tells whether a value is present.
    pub fn is_some(&self) -> (c: Choice)
        ensures
            c == self.flag(),
    {
        self.is_some
    }

    /// Keeps the value present if `keep` is the flag 1, and makes it absent
    /// if `keep` is the flag 0. This is how a value that passed one test is
    /// withheld on a second one without a branch: the coordinates of a point
    /// at infinity, whose stored pair may well satisfy the curve equation.
    pub fn filter(self, keep: Choice) -> (r: Self)
        ensures
            r.stored() == self.stored(),
            choice_byte(keep) == 1 ==> r.flag() == self.flag(),
            choice_byte(keep) == 0 ==> choice_byte(r.flag()) == 0,
    {
        let absent = choice_from(0u8);
        Maybe { value: self.value, is_some: select(&absent, &self.is_some, keep) }
    }

    /// Hands out the value of an optional value that is known to be present.
    pub fn unwrap(self) -> (r: T)
        requires
            self@.is_some(),
        ensures
            r == self.stored(),
    {
        match self.into_option() {
            Some(value) => value,
            None => unreached(),
        }
    }

    /// Reveals the optional value. This is the one place where the flag
    /// becomes a branch.
    pub fn into_option(self) -> (r: Option<T>)
        ensures
            r == self@,
    {
        if self.is_some.unwrap_u8() == 1 {
            Some(self.value)
        } else {
            None
        }
    }
}

impl<T: ConditionallySelectable> Maybe<T> {
    /// Hands out the value if it is present, and `default` if the flag is 0,
    /// without a branch.
    pub fn unwrap_or(self, default: T) -> (r: T)
        ensures
            choice_byte(self.flag()) == 1 ==> r == self.stored(),
            choice_byte(self.flag()) == 0 ==> r == default,
    {
        select(&default, &self.value, self.is_some)
    }
}

} // verus!
