//! Spatial-reasoning core for a tile-based multiplayer game world: a sparse,
//! zone-allocated collision-flag store and the pathfinding, reachability and
//! line-of-sight algorithms that read it.
//!
//! - [`collision`] holds the store: a 16384 x 16384 x 4 grid of flag words,
//!   allocated zone by zone on demand, with allocation invisible to every
//!   query.
//! - [`flags`] lays out the flag word and the directional block masks.
//! - [`loc`] is the scenery shape taxonomy and the collision strategies.
//! - [`wall`] and [`area`] translate placed scenery into flag bits: walls
//!   set complementary directional bits on both sides of the edge they
//!   occupy, footprints apply one mask to a rectangle.
//! - [`step`] decides single compass steps, including the
//!   diagonal-cutting rule.
//! - [`ray`] traces sight and walk lines; [`reach`] decides "close enough
//!   to interact"; [`path`] is the bounded breadth-first pathfinder and
//!   its greedy fallback.
//!
//! Mutating operations state their exact effect on every tile and zone of
//! the store; queries are specified against those same views, so the laws
//! that relate them (allocation transparency, add/remove inversion, wall
//! symmetry, diagonal cutting, strategy ordering) are proved, not assumed.

use vstd::prelude::*;

pub mod area;
pub mod collision;
pub mod flags;
pub mod loc;
pub mod path;
pub mod ray;
pub mod reach;
pub mod step;
pub mod wall;

verus! {

} // verus!
