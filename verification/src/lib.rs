//! A rigid-body simulation in the plane: circles, line segments and groups of
//! them, advanced one tick at a time.
//!
//! All numbers are fixed-point ([`scalar`]), so that every run gives the same
//! result on every machine and every function has an exact contract.  The
//! contracts are stated over mathematical values: a vector of the plane
//! ([`vec2d::Vector`]), a body ([`model::BodyView`]), a world
//! ([`world::WorldView`]).
//!
//! - [`scalar`], [`vec2d`]: numbers and vectors.
//! - [`anchors`], [`model`], [`shapes`]: bodies, their rigid motions and
//!   their moments of inertia.
//! - [`collision`]: which bodies overlap, and where they touch.
//! - [`dynamics`], [`world`]: what a collision and a tick do.
//! - [`displacement`], [`rotation`], [`centre`], [`mass`]: what moving,
//!   turning and a tick leave as it is.

pub mod scalar;
pub mod vec2d;
pub mod anchors;
pub mod model;
pub mod shapes;
pub mod collision;
pub mod dynamics;
pub mod world;
pub mod displacement;
pub mod rotation;
pub mod centre;
pub mod mass;
