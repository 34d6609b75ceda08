//! Contracts for elliptic-curve groups, stated so that protocol code can be
//! written once against them and curve code can be proved once against them.
//!
//! - [`algebra`]: what every group provides: an identity, the group
//!   operations, a canonical encoding, and the laws that they obey.
//! - [`prime`]: groups of prime order.
//! - [`cofactor`]: groups with a prime-order subgroup and a small cofactor,
//!   and the operations that lead into the subgroup.
//! - [`coordinates`]: affine coordinates on twisted Edwards, Montgomery and
//!   short Weierstrass curves, obtainable only if they satisfy the curve
//!   equation.
//! - [`ct`]: the constant-time flags and optional values that the predicates
//!   and the fallible constructors answer with.

pub mod algebra;
pub mod cofactor;
pub mod coordinates;
pub mod ct;
pub mod prime;

pub use crate::algebra::Curve;
pub use crate::algebra::CurveAffine;
pub use crate::algebra::Group;
pub use crate::algebra::GroupAlgebra;
pub use crate::algebra::GroupEncoding;
pub use crate::algebra::Identity;
pub use crate::cofactor::CofactorCurve;
pub use crate::cofactor::CofactorCurveAffine;
pub use crate::cofactor::CofactorGroup;
pub use crate::ct::Maybe;
pub use crate::prime::PrimeCurve;
pub use crate::prime::PrimeCurveAffine;
pub use crate::prime::PrimeGroup;
pub use crate::coordinates::FieldElement;
pub use crate::coordinates::MontgomeryCoordinates;
pub use crate::coordinates::MontgomeryModel;
pub use crate::coordinates::MontgomeryPoint;
pub use crate::coordinates::ShortWeierstrassCoordinates;
pub use crate::coordinates::ShortWeierstrassModel;
pub use crate::coordinates::ShortWeierstrassPoint;
pub use crate::coordinates::TwistedEdwardsCoordinates;
pub use crate::coordinates::TwistedEdwardsModel;
pub use crate::coordinates::TwistedEdwardsPoint;
