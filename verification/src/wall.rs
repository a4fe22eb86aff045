//! Wall placement geometry.
//!
//! A wall occupies the edge (or corner) of its origin tile, so it must
//! block movement and sight from both sides it touches: placing one sets a
//! directional bit on the origin tile and the exact complementary bit on
//! the single neighbor across the shared edge. Three independent blocking
//! classes exist per direction — plain, projectile-blocker and
//! route-blocker — and the optional classes are additive: a route-blocking
//! or projectile-blocking wall is still a normal wall, so the plain bits
//! are always placed as well. Removal is the exact bitwise inverse of the
//! corresponding addition, applied to the same tiles.

use vstd::prelude::*;
use vstd::arithmetic::div_mod::lemma_fundamental_div_mod;
use crate::collision::{canon, same_zone, wcoord, wplane, CollisionFlagMap};
use crate::flags;
use crate::loc::LocAngle;

verus! {

/// Bits of one blocking direction: the plain bit always, the
/// projectile-blocker and route-blocker bits when requested.
pub open spec fn spec_wall_bits(base: u32, proj: u32, route: u32, bp: bool, br: bool) -> u32 {
    base | (if bp {
        proj
    } else {
        0u32
    }) | (if br {
        route
    } else {
        0u32
    })
}

fn wall_bits(base: u32, proj: u32, route: u32, bp: bool, br: bool) -> (r: u32)
    ensures
        r == spec_wall_bits(base, proj, route, bp, br),
{
    base | (if bp {
        proj
    } else {
        0u32
    }) | (if br {
        route
    } else {
        0u32
    })
}

/// A flag word after adding or removing a mask.
pub open spec fn apply_mask(w: u32, m: u32, add: bool) -> u32 {
    if add {
        w | m
    } else {
        w & !m
    }
}

/// The opposite orientation, across the shared edge.
pub open spec fn opposite(angle: LocAngle) -> LocAngle {
    match angle {
        LocAngle::WEST => LocAngle::EAST,
        LocAngle::NORTH => LocAngle::SOUTH,
        LocAngle::EAST => LocAngle::WEST,
        LocAngle::SOUTH => LocAngle::NORTH,
    }
}

pub open spec fn straight_origin_mask(angle: LocAngle, bp: bool, br: bool) -> u32 {
    match angle {
        LocAngle::WEST => spec_wall_bits(
            flags::WALL_WEST,
            flags::WALL_WEST_PROJ_BLOCKER,
            flags::WALL_WEST_ROUTE_BLOCKER,
            bp,
            br,
        ),
        LocAngle::NORTH => spec_wall_bits(
            flags::WALL_NORTH,
            flags::WALL_NORTH_PROJ_BLOCKER,
            flags::WALL_NORTH_ROUTE_BLOCKER,
            bp,
            br,
        ),
        LocAngle::EAST => spec_wall_bits(
            flags::WALL_EAST,
            flags::WALL_EAST_PROJ_BLOCKER,
            flags::WALL_EAST_ROUTE_BLOCKER,
            bp,
            br,
        ),
        LocAngle::SOUTH => spec_wall_bits(
            flags::WALL_SOUTH,
            flags::WALL_SOUTH_PROJ_BLOCKER,
            flags::WALL_SOUTH_ROUTE_BLOCKER,
            bp,
            br,
        ),
    }
}

pub open spec fn straight_neighbor_mask(angle: LocAngle, bp: bool, br: bool) -> u32 {
    straight_origin_mask(opposite(angle), bp, br)
}

/// Offset of the single neighbor across the edge a straight wall occupies.
pub open spec fn straight_offset_x(angle: LocAngle) -> int {
    match angle {
        LocAngle::WEST => -1,
        LocAngle::NORTH => 0,
        LocAngle::EAST => 1,
        LocAngle::SOUTH => 0,
    }
}

pub open spec fn straight_offset_z(angle: LocAngle) -> int {
    match angle {
        LocAngle::WEST => 0,
        LocAngle::NORTH => 1,
        LocAngle::EAST => 0,
        LocAngle::SOUTH => -1,
    }
}

pub open spec fn corner_origin_mask(angle: LocAngle, bp: bool, br: bool) -> u32 {
    match angle {
        LocAngle::WEST => spec_wall_bits(
            flags::WALL_NORTH_WEST,
            flags::WALL_NORTH_WEST_PROJ_BLOCKER,
            flags::WALL_NORTH_WEST_ROUTE_BLOCKER,
            bp,
            br,
        ),
        LocAngle::NORTH => spec_wall_bits(
            flags::WALL_NORTH_EAST,
            flags::WALL_NORTH_EAST_PROJ_BLOCKER,
            flags::WALL_NORTH_EAST_ROUTE_BLOCKER,
            bp,
            br,
        ),
        LocAngle::EAST => spec_wall_bits(
            flags::WALL_SOUTH_EAST,
            flags::WALL_SOUTH_EAST_PROJ_BLOCKER,
            flags::WALL_SOUTH_EAST_ROUTE_BLOCKER,
            bp,
            br,
        ),
        LocAngle::SOUTH => spec_wall_bits(
            flags::WALL_SOUTH_WEST,
            flags::WALL_SOUTH_WEST_PROJ_BLOCKER,
            flags::WALL_SOUTH_WEST_ROUTE_BLOCKER,
            bp,
            br,
        ),
    }
}

pub open spec fn corner_neighbor_mask(angle: LocAngle, bp: bool, br: bool) -> u32 {
    corner_origin_mask(opposite(angle), bp, br)
}

/// Offset of the single neighbor across the corner a corner wall occupies.
pub open spec fn corner_offset_x(angle: LocAngle) -> int {
    match angle {
        LocAngle::WEST => -1,
        LocAngle::NORTH => 1,
        LocAngle::EAST => 1,
        LocAngle::SOUTH => -1,
    }
}

pub open spec fn corner_offset_z(angle: LocAngle) -> int {
    match angle {
        LocAngle::WEST => 1,
        LocAngle::NORTH => 1,
        LocAngle::EAST => -1,
        LocAngle::SOUTH => -1,
    }
}

/// An L wall behaves as the union of two straight walls at its component
/// angles: the horizontal component ...
pub open spec fn l_h_angle(angle: LocAngle) -> LocAngle {
    match angle {
        LocAngle::WEST => LocAngle::WEST,
        LocAngle::NORTH => LocAngle::EAST,
        LocAngle::EAST => LocAngle::EAST,
        LocAngle::SOUTH => LocAngle::WEST,
    }
}

/// ... and the vertical component.
pub open spec fn l_v_angle(angle: LocAngle) -> LocAngle {
    match angle {
        LocAngle::WEST => LocAngle::NORTH,
        LocAngle::NORTH => LocAngle::NORTH,
        LocAngle::EAST => LocAngle::SOUTH,
        LocAngle::SOUTH => LocAngle::SOUTH,
    }
}

pub open spec fn l_origin_mask(angle: LocAngle, bp: bool, br: bool) -> u32 {
    straight_origin_mask(l_h_angle(angle), bp, br) | straight_origin_mask(l_v_angle(angle), bp, br)
}

/// The effect of a wall on a pair of tiles: the origin gets `om`, the
/// neighbor at offset `(ox, oz)` gets `nm`, every other tile is untouched;
/// an addition allocates the zones of the two tiles, a removal touches no
/// zone.
pub open spec fn wall_effect2(
    s0: CollisionFlagMap,
    s1: CollisionFlagMap,
    x: int,
    z: int,
    y: int,
    ox: int,
    oz: int,
    om: u32,
    nm: u32,
    add: bool,
) -> bool {
    let x0 = wcoord(x);
    let z0 = wcoord(z);
    let y0 = wplane(y);
    let x1 = wcoord(x + ox);
    let z1 = wcoord(z + oz);
    &&& forall|a: int, b: int, c: int|
        canon(a, b, c) ==> #[trigger] s1.flags_at(a, b, c) == (if a == x0 && b == z0 && c == y0 {
            apply_mask(s0.flags_at(a, b, c), om, add)
        } else if a == x1 && b == z1 && c == y0 {
            apply_mask(s0.flags_at(a, b, c), nm, add)
        } else {
            s0.flags_at(a, b, c)
        })
    &&& forall|a: int, b: int, c: int|
        canon(a, b, c) ==> #[trigger] s1.zone_at(a, b, c) == (s0.zone_at(a, b, c) || (add && (
        same_zone(a, b, c, x0, z0, y0) || same_zone(a, b, c, x1, z1, y0))))
}

/// The effect of an L wall on its three tiles: the origin gets `om`, the
/// horizontal neighbor `hm`, the vertical neighbor `vm`.
pub open spec fn wall_effect3(
    s0: CollisionFlagMap,
    s1: CollisionFlagMap,
    x: int,
    z: int,
    y: int,
    hx: int,
    vz: int,
    om: u32,
    hm: u32,
    vm: u32,
    add: bool,
) -> bool {
    let x0 = wcoord(x);
    let z0 = wcoord(z);
    let y0 = wplane(y);
    let x1 = wcoord(x + hx);
    let z2 = wcoord(z + vz);
    &&& forall|a: int, b: int, c: int|
        canon(a, b, c) ==> #[trigger] s1.flags_at(a, b, c) == (if a == x0 && b == z0 && c == y0 {
            apply_mask(s0.flags_at(a, b, c), om, add)
        } else if a == x1 && b == z0 && c == y0 {
            apply_mask(s0.flags_at(a, b, c), hm, add)
        } else if a == x0 && b == z2 && c == y0 {
            apply_mask(s0.flags_at(a, b, c), vm, add)
        } else {
            s0.flags_at(a, b, c)
        })
    &&& forall|a: int, b: int, c: int|
        canon(a, b, c) ==> #[trigger] s1.zone_at(a, b, c) == (s0.zone_at(a, b, c) || (add && (
        same_zone(a, b, c, x0, z0, y0) || same_zone(a, b, c, x1, z0, y0) || same_zone(
            a,
            b,
            c,
            x0,
            z2,
            y0,
        ))))
}

proof fn lemma_wrap_adjacent(v: int, d: int)
    requires
        d == 1 || d == -1,
    ensures
        wcoord(v + d) != wcoord(v),
{
    lemma_fundamental_div_mod(v, 16384);
    lemma_fundamental_div_mod(v + d, 16384);
    let q1 = v / 16384;
    let q2 = (v + d) / 16384;
    if wcoord(v + d) == wcoord(v) {
        assert(d == (q2 - q1) * 16384);
        assert(false);
    }
}

/// Add or remove `om` on the tile and `nm` on its neighbor at `(ox, oz)`.
fn place_pair(
    map: &mut CollisionFlagMap,
    x: i64,
    z: i64,
    y: i64,
    ox: i64,
    oz: i64,
    om: u32,
    nm: u32,
    add: bool,
)
    requires
        old(map).wf(),
        -0x80000000 <= x <= 0x80000000,
        -0x80000000 <= z <= 0x80000000,
        -0x80000000 <= y <= 0x80000000,
        -1 <= ox <= 1,
        -1 <= oz <= 1,
        ox != 0 || oz != 0,
    ensures
        final(map).wf(),
        wall_effect2(
            *old(map),
            *final(map),
            x as int,
            z as int,
            y as int,
            ox as int,
            oz as int,
            om,
            nm,
            add,
        ),
{
    proof {
        if ox != 0 {
            lemma_wrap_adjacent(x as int, ox as int);
        } else {
            lemma_wrap_adjacent(z as int, oz as int);
        }
    }
    if add {
        map.add_wide(x, z, y, om);
        map.add_wide(x + ox, z + oz, y, nm);
    } else {
        map.remove_wide(x, z, y, om);
        map.remove_wide(x + ox, z + oz, y, nm);
    }
}

/// Place or remove a straight wall: the directional bits of the facing on
/// the origin tile, the complementary bits on the neighbor across that
/// edge.
pub fn change_wall_straight(
    map: &mut CollisionFlagMap,
    x: i32,
    z: i32,
    y: i32,
    angle: LocAngle,
    block_proj: bool,
    block_route: bool,
    add: bool,
)
    requires
        old(map).wf(),
    ensures
        final(map).wf(),
        wall_effect2(
            *old(map),
            *final(map),
            x as int,
            z as int,
            y as int,
            straight_offset_x(angle),
            straight_offset_z(angle),
            straight_origin_mask(angle, block_proj, block_route),
            straight_neighbor_mask(angle, block_proj, block_route),
            add,
        ),
{
    let (ox, oz): (i64, i64) = match angle {
        LocAngle::WEST => (-1, 0),
        LocAngle::NORTH => (0, 1),
        LocAngle::EAST => (1, 0),
        LocAngle::SOUTH => (0, -1),
    };
    let om: u32 = match angle {
        LocAngle::WEST => wall_bits(
            flags::WALL_WEST,
            flags::WALL_WEST_PROJ_BLOCKER,
            flags::WALL_WEST_ROUTE_BLOCKER,
            block_proj,
            block_route,
        ),
        LocAngle::NORTH => wall_bits(
            flags::WALL_NORTH,
            flags::WALL_NORTH_PROJ_BLOCKER,
            flags::WALL_NORTH_ROUTE_BLOCKER,
            block_proj,
            block_route,
        ),
        LocAngle::EAST => wall_bits(
            flags::WALL_EAST,
            flags::WALL_EAST_PROJ_BLOCKER,
            flags::WALL_EAST_ROUTE_BLOCKER,
            block_proj,
            block_route,
        ),
        LocAngle::SOUTH => wall_bits(
            flags::WALL_SOUTH,
            flags::WALL_SOUTH_PROJ_BLOCKER,
            flags::WALL_SOUTH_ROUTE_BLOCKER,
            block_proj,
            block_route,
        ),
    };
    let nm: u32 = match angle {
        LocAngle::WEST => wall_bits(
            flags::WALL_EAST,
            flags::WALL_EAST_PROJ_BLOCKER,
            flags::WALL_EAST_ROUTE_BLOCKER,
            block_proj,
            block_route,
        ),
        LocAngle::NORTH => wall_bits(
            flags::WALL_SOUTH,
            flags::WALL_SOUTH_PROJ_BLOCKER,
            flags::WALL_SOUTH_ROUTE_BLOCKER,
            block_proj,
            block_route,
        ),
        LocAngle::EAST => wall_bits(
            flags::WALL_WEST,
            flags::WALL_WEST_PROJ_BLOCKER,
            flags::WALL_WEST_ROUTE_BLOCKER,
            block_proj,
            block_route,
        ),
        LocAngle::SOUTH => wall_bits(
            flags::WALL_NORTH,
            flags::WALL_NORTH_PROJ_BLOCKER,
            flags::WALL_NORTH_ROUTE_BLOCKER,
            block_proj,
            block_route,
        ),
    };
    place_pair(map, x as i64, z as i64, y as i64, ox, oz, om, nm, add);
}

/// Place or remove a corner (diagonal or square) wall: the diagonal bit of
/// the facing on the origin tile, the complementary diagonal bit on the
/// neighbor across that corner.
pub fn change_wall_corner(
    map: &mut CollisionFlagMap,
    x: i32,
    z: i32,
    y: i32,
    angle: LocAngle,
    block_proj: bool,
    block_route: bool,
    add: bool,
)
    requires
        old(map).wf(),
    ensures
        final(map).wf(),
        wall_effect2(
            *old(map),
            *final(map),
            x as int,
            z as int,
            y as int,
            corner_offset_x(angle),
            corner_offset_z(angle),
            corner_origin_mask(angle, block_proj, block_route),
            corner_neighbor_mask(angle, block_proj, block_route),
            add,
        ),
{
    let (ox, oz): (i64, i64) = match angle {
        LocAngle::WEST => (-1, 1),
        LocAngle::NORTH => (1, 1),
        LocAngle::EAST => (1, -1),
        LocAngle::SOUTH => (-1, -1),
    };
    let om: u32 = match angle {
        LocAngle::WEST => wall_bits(
            flags::WALL_NORTH_WEST,
            flags::WALL_NORTH_WEST_PROJ_BLOCKER,
            flags::WALL_NORTH_WEST_ROUTE_BLOCKER,
            block_proj,
            block_route,
        ),
        LocAngle::NORTH => wall_bits(
            flags::WALL_NORTH_EAST,
            flags::WALL_NORTH_EAST_PROJ_BLOCKER,
            flags::WALL_NORTH_EAST_ROUTE_BLOCKER,
            block_proj,
            block_route,
        ),
        LocAngle::EAST => wall_bits(
            flags::WALL_SOUTH_EAST,
            flags::WALL_SOUTH_EAST_PROJ_BLOCKER,
            flags::WALL_SOUTH_EAST_ROUTE_BLOCKER,
            block_proj,
            block_route,
        ),
        LocAngle::SOUTH => wall_bits(
            flags::WALL_SOUTH_WEST,
            flags::WALL_SOUTH_WEST_PROJ_BLOCKER,
            flags::WALL_SOUTH_WEST_ROUTE_BLOCKER,
            block_proj,
            block_route,
        ),
    };
    let nm: u32 = match angle {
        LocAngle::WEST => wall_bits(
            flags::WALL_SOUTH_EAST,
            flags::WALL_SOUTH_EAST_PROJ_BLOCKER,
            flags::WALL_SOUTH_EAST_ROUTE_BLOCKER,
            block_proj,
            block_route,
        ),
        LocAngle::NORTH => wall_bits(
            flags::WALL_SOUTH_WEST,
            flags::WALL_SOUTH_WEST_PROJ_BLOCKER,
            flags::WALL_SOUTH_WEST_ROUTE_BLOCKER,
            block_proj,
            block_route,
        ),
        LocAngle::EAST => wall_bits(
            flags::WALL_NORTH_WEST,
            flags::WALL_NORTH_WEST_PROJ_BLOCKER,
            flags::WALL_NORTH_WEST_ROUTE_BLOCKER,
            block_proj,
            block_route,
        ),
        LocAngle::SOUTH => wall_bits(
            flags::WALL_NORTH_EAST,
            flags::WALL_NORTH_EAST_PROJ_BLOCKER,
            flags::WALL_NORTH_EAST_ROUTE_BLOCKER,
            block_proj,
            block_route,
        ),
    };
    place_pair(map, x as i64, z as i64, y as i64, ox, oz, om, nm, add);
}

/// Place or remove an L wall: two directional bits on the origin tile and
/// one complementary bit on each of the two neighbors across the occupied
/// edges.
pub fn change_wall_l(
    map: &mut CollisionFlagMap,
    x: i32,
    z: i32,
    y: i32,
    angle: LocAngle,
    block_proj: bool,
    block_route: bool,
    add: bool,
)
    requires
        old(map).wf(),
    ensures
        final(map).wf(),
        wall_effect3(
            *old(map),
            *final(map),
            x as int,
            z as int,
            y as int,
            straight_offset_x(l_h_angle(angle)),
            straight_offset_z(l_v_angle(angle)),
            l_origin_mask(angle, block_proj, block_route),
            straight_neighbor_mask(l_h_angle(angle), block_proj, block_route),
            straight_neighbor_mask(l_v_angle(angle), block_proj, block_route),
            add,
        ),
{
    let (hx, vz): (i64, i64) = match angle {
        LocAngle::WEST => (-1, 1),
        LocAngle::NORTH => (1, 1),
        LocAngle::EAST => (1, -1),
        LocAngle::SOUTH => (-1, -1),
    };
    let west: u32 = wall_bits(
        flags::WALL_WEST,
        flags::WALL_WEST_PROJ_BLOCKER,
        flags::WALL_WEST_ROUTE_BLOCKER,
        block_proj,
        block_route,
    );
    let east: u32 = wall_bits(
        flags::WALL_EAST,
        flags::WALL_EAST_PROJ_BLOCKER,
        flags::WALL_EAST_ROUTE_BLOCKER,
        block_proj,
        block_route,
    );
    let north: u32 = wall_bits(
        flags::WALL_NORTH,
        flags::WALL_NORTH_PROJ_BLOCKER,
        flags::WALL_NORTH_ROUTE_BLOCKER,
        block_proj,
        block_route,
    );
    let south: u32 = wall_bits(
        flags::WALL_SOUTH,
        flags::WALL_SOUTH_PROJ_BLOCKER,
        flags::WALL_SOUTH_ROUTE_BLOCKER,
        block_proj,
        block_route,
    );
    let (om, hm, vm): (u32, u32, u32) = match angle {
        LocAngle::WEST => (west | north, east, south),
        LocAngle::NORTH => (east | north, west, south),
        LocAngle::EAST => (east | south, west, north),
        LocAngle::SOUTH => (west | south, east, north),
    };
    proof {
        lemma_wrap_adjacent(x as int, hx as int);
        lemma_wrap_adjacent(z as int, vz as int);
    }
    let xi = x as i64;
    let zi = z as i64;
    let yi = y as i64;
    if add {
        map.add_wide(xi, zi, yi, om);
        map.add_wide(xi + hx, zi, yi, hm);
        map.add_wide(xi, zi + vz, yi, vm);
    } else {
        map.remove_wide(xi, zi, yi, om);
        map.remove_wide(xi + hx, zi, yi, hm);
        map.remove_wide(xi, zi + vz, yi, vm);
    }
}

/// Dispatch a wall shape to its placement routine. Any shape other than
/// the corner and L wall shapes places a straight wall, mirroring the
/// boundary's defaulting of unknown wall shapes.
pub fn change_wall(
    map: &mut CollisionFlagMap,
    x: i32,
    z: i32,
    y: i32,
    angle: LocAngle,
    shape: crate::loc::LocShape,
    block_proj: bool,
    block_route: bool,
    add: bool,
)
    requires
        old(map).wf(),
    ensures
        final(map).wf(),
        (match shape {
            crate::loc::LocShape::WALL_DIAGONAL_CORNER
            | crate::loc::LocShape::WALL_SQUARE_CORNER => wall_effect2(
                *old(map),
                *final(map),
                x as int,
                z as int,
                y as int,
                corner_offset_x(angle),
                corner_offset_z(angle),
                corner_origin_mask(angle, block_proj, block_route),
                corner_neighbor_mask(angle, block_proj, block_route),
                add,
            ),
            crate::loc::LocShape::WALL_L => wall_effect3(
                *old(map),
                *final(map),
                x as int,
                z as int,
                y as int,
                straight_offset_x(l_h_angle(angle)),
                straight_offset_z(l_v_angle(angle)),
                l_origin_mask(angle, block_proj, block_route),
                straight_neighbor_mask(l_h_angle(angle), block_proj, block_route),
                straight_neighbor_mask(l_v_angle(angle), block_proj, block_route),
                add,
            ),
            _ => wall_effect2(
                *old(map),
                *final(map),
                x as int,
                z as int,
                y as int,
                straight_offset_x(angle),
                straight_offset_z(angle),
                straight_origin_mask(angle, block_proj, block_route),
                straight_neighbor_mask(angle, block_proj, block_route),
                add,
            ),
        }),
{
    match shape {
        crate::loc::LocShape::WALL_DIAGONAL_CORNER | crate::loc::LocShape::WALL_SQUARE_CORNER => {
            change_wall_corner(map, x, z, y, angle, block_proj, block_route, add);
        },
        crate::loc::LocShape::WALL_L => {
            change_wall_l(map, x, z, y, angle, block_proj, block_route, add);
        },
        _ => {
            change_wall_straight(map, x, z, y, angle, block_proj, block_route, add);
        },
    }
}

/// Law: wall symmetry. The neighbor of every wall carries the exact
/// complementary bits of the origin: a straight or corner wall's neighbor
/// mask is the origin mask of the opposite angle, the neighbor offsets of
/// opposite angles cancel, and an L wall decomposes into the two straight
/// walls of its component angles.
pub proof fn lemma_wall_symmetry(angle: LocAngle, bp: bool, br: bool)
    ensures
        straight_neighbor_mask(angle, bp, br) == straight_origin_mask(opposite(angle), bp, br),
        corner_neighbor_mask(angle, bp, br) == corner_origin_mask(opposite(angle), bp, br),
        straight_offset_x(angle) + straight_offset_x(opposite(angle)) == 0,
        straight_offset_z(angle) + straight_offset_z(opposite(angle)) == 0,
        corner_offset_x(angle) + corner_offset_x(opposite(angle)) == 0,
        corner_offset_z(angle) + corner_offset_z(opposite(angle)) == 0,
        l_origin_mask(angle, bp, br) == straight_origin_mask(l_h_angle(angle), bp, br)
            | straight_origin_mask(l_v_angle(angle), bp, br),
{
    match angle {
        LocAngle::WEST => {},
        LocAngle::NORTH => {},
        LocAngle::EAST => {},
        LocAngle::SOUTH => {},
    }
}

} // verus!
