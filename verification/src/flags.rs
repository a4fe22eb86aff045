//! Tile flag word layout: one bit per blocking/occupancy attribute.
//!
//! Three blocking classes exist for each wall direction and for scenery:
//! the plain bit (blocks movement), the projectile-blocker bit (blocks
//! sight/ranged checks) and the route-blocker bit (marks walls that break
//! route-finding). The occupancy bits (`LOC`, `NPC`, `PLAYER`), the blocked
//! floor bit and the roof bit complete the word.

use vstd::prelude::*;

verus! {

pub const WALL_NORTH_WEST: u32 = 0x1;

pub const WALL_NORTH: u32 = 0x2;

pub const WALL_NORTH_EAST: u32 = 0x4;

pub const WALL_EAST: u32 = 0x8;

pub const WALL_SOUTH_EAST: u32 = 0x10;

pub const WALL_SOUTH: u32 = 0x20;

pub const WALL_SOUTH_WEST: u32 = 0x40;

pub const WALL_WEST: u32 = 0x80;

/// Occupied by scenery (a "loc").
pub const LOC: u32 = 0x100;

pub const WALL_NORTH_WEST_PROJ_BLOCKER: u32 = 0x200;

pub const WALL_NORTH_PROJ_BLOCKER: u32 = 0x400;

pub const WALL_NORTH_EAST_PROJ_BLOCKER: u32 = 0x800;

pub const WALL_EAST_PROJ_BLOCKER: u32 = 0x1000;

pub const WALL_SOUTH_EAST_PROJ_BLOCKER: u32 = 0x2000;

pub const WALL_SOUTH_PROJ_BLOCKER: u32 = 0x4000;

pub const WALL_SOUTH_WEST_PROJ_BLOCKER: u32 = 0x8000;

pub const WALL_WEST_PROJ_BLOCKER: u32 = 0x10000;

pub const LOC_PROJ_BLOCKER: u32 = 0x20000;

/// Ground decoration on the tile (never blocks by itself).
pub const GROUND_DECOR: u32 = 0x40000;

/// Occupied by a non-player character.
pub const NPC: u32 = 0x80000;

/// Occupied by a player.
pub const PLAYER: u32 = 0x100000;

/// Floor is missing or otherwise unwalkable.
pub const FLOOR: u32 = 0x200000;

pub const WALL_NORTH_WEST_ROUTE_BLOCKER: u32 = 0x400000;

pub const WALL_NORTH_ROUTE_BLOCKER: u32 = 0x800000;

pub const WALL_NORTH_EAST_ROUTE_BLOCKER: u32 = 0x1000000;

pub const WALL_EAST_ROUTE_BLOCKER: u32 = 0x2000000;

pub const WALL_SOUTH_EAST_ROUTE_BLOCKER: u32 = 0x4000000;

pub const WALL_SOUTH_ROUTE_BLOCKER: u32 = 0x8000000;

pub const WALL_SOUTH_WEST_ROUTE_BLOCKER: u32 = 0x10000000;

pub const WALL_WEST_ROUTE_BLOCKER: u32 = 0x20000000;

pub const LOC_ROUTE_BLOCKER: u32 = 0x40000000;

/// Roof present over the tile.
pub const ROOF: u32 = 0x80000000;

/// Every blocking-class bit: all wall bits of the three classes, scenery of
/// the three classes, occupancy and the blocked-floor bit. The roof and the
/// ground-decoration bits never block on their own.
pub const BLOCK_ANY: u32 = 0x7FFBFFFF;

/// Bits that deny entering a tile while moving north: the wall on its south
/// edge (plain or route-blocking), blocking scenery, and a blocked floor.
pub const BLOCK_NORTH: u32 = WALL_SOUTH | WALL_SOUTH_ROUTE_BLOCKER | LOC | LOC_ROUTE_BLOCKER
    | FLOOR;

pub const BLOCK_SOUTH: u32 = WALL_NORTH | WALL_NORTH_ROUTE_BLOCKER | LOC | LOC_ROUTE_BLOCKER
    | FLOOR;

pub const BLOCK_EAST: u32 = WALL_WEST | WALL_WEST_ROUTE_BLOCKER | LOC | LOC_ROUTE_BLOCKER | FLOOR;

pub const BLOCK_WEST: u32 = WALL_EAST | WALL_EAST_ROUTE_BLOCKER | LOC | LOC_ROUTE_BLOCKER | FLOOR;

/// Bits that deny entering a tile across its south-west corner, moving
/// north-east: the south and west edges, the corner itself, their
/// route-blocking counterparts, blocking scenery, and a blocked floor.
pub const BLOCK_NORTH_EAST: u32 = WALL_SOUTH | WALL_SOUTH_WEST | WALL_WEST
    | WALL_SOUTH_ROUTE_BLOCKER | WALL_SOUTH_WEST_ROUTE_BLOCKER | WALL_WEST_ROUTE_BLOCKER | LOC
    | LOC_ROUTE_BLOCKER | FLOOR;

pub const BLOCK_NORTH_WEST: u32 = WALL_SOUTH | WALL_SOUTH_EAST | WALL_EAST
    | WALL_SOUTH_ROUTE_BLOCKER | WALL_SOUTH_EAST_ROUTE_BLOCKER | WALL_EAST_ROUTE_BLOCKER | LOC
    | LOC_ROUTE_BLOCKER | FLOOR;

pub const BLOCK_SOUTH_EAST: u32 = WALL_NORTH | WALL_NORTH_WEST | WALL_WEST
    | WALL_NORTH_ROUTE_BLOCKER | WALL_NORTH_WEST_ROUTE_BLOCKER | WALL_WEST_ROUTE_BLOCKER | LOC
    | LOC_ROUTE_BLOCKER | FLOOR;

pub const BLOCK_SOUTH_WEST: u32 = WALL_NORTH | WALL_NORTH_EAST | WALL_EAST
    | WALL_NORTH_ROUTE_BLOCKER | WALL_NORTH_EAST_ROUTE_BLOCKER | WALL_EAST_ROUTE_BLOCKER | LOC
    | LOC_ROUTE_BLOCKER | FLOOR;

} // verus!
