//! Single-step reachability: may an entity of a square footprint take one
//! compass step?
//!
//! A step is legal when every tile of the leading edge in the direction of
//! travel may be entered under the chosen strategy. A diagonal step
//! additionally requires the two orthogonal leading tiles to be open (no
//! cutting a corner between two walls), which the leading-edge formulation
//! below contains as the first element of each of its two edge sweeps.

use vstd::prelude::*;
use crate::collision::{raw_flags, CollisionFlagMap};
use crate::flags;
use crate::loc::CollisionStrategies;

verus! {

/// Bits denied on a tile entered while moving horizontally by `dx`.
pub open spec fn horiz_block(dx: int) -> u32 {
    if dx > 0 {
        flags::BLOCK_EAST
    } else {
        flags::BLOCK_WEST
    }
}

/// Bits denied on a tile entered while moving vertically by `dz`.
pub open spec fn vert_block(dz: int) -> u32 {
    if dz > 0 {
        flags::BLOCK_NORTH
    } else {
        flags::BLOCK_SOUTH
    }
}

/// Bits denied on the corner tile of a diagonal step.
pub open spec fn diag_block(dx: int, dz: int) -> u32 {
    if dx > 0 && dz > 0 {
        flags::BLOCK_NORTH_EAST
    } else if dx > 0 {
        flags::BLOCK_SOUTH_EAST
    } else if dz > 0 {
        flags::BLOCK_NORTH_WEST
    } else {
        flags::BLOCK_SOUTH_WEST
    }
}

/// The column just beyond the footprint in the direction of `dx`.
pub open spec fn lead_x(x: int, dx: int, s: int) -> int {
    if dx > 0 {
        x + s
    } else {
        x - 1
    }
}

/// The row just beyond the footprint in the direction of `dz`.
pub open spec fn lead_z(z: int, dz: int, s: int) -> int {
    if dz > 0 {
        z + s
    } else {
        z - 1
    }
}

/// May an entity of footprint `s` x `s` anchored at `(x, z)` step by the
/// unit offset `(dx, dz)` under `strat`?
///
/// A cardinal step demands that every tile of the leading edge be
/// enterable across the crossed edge. A diagonal step demands the corner
/// tile across the crossed corner, every tile of the two leading edges
/// across their edges, and — as the `k == 0` elements of those sweeps —
/// the two orthogonal tiles next to the old footprint, which is the
/// diagonal-cutting rule.
pub open spec fn spec_can_travel(
    map: CollisionFlagMap,
    y: int,
    x: int,
    z: int,
    dx: int,
    dz: int,
    s: int,
    extra: u32,
    strat: CollisionStrategies,
) -> bool {
    if dx != 0 && dz != 0 {
        &&& strat.spec_can_move(
            raw_flags(map, lead_x(x, dx, s), lead_z(z, dz, s), y),
            diag_block(dx, dz) | extra,
        )
        &&& forall|k: int|
            0 <= k < s ==> strat.spec_can_move(
                #[trigger] raw_flags(map, lead_x(x, dx, s), z + k, y),
                horiz_block(dx) | extra,
            )
        &&& forall|k: int|
            0 <= k < s ==> strat.spec_can_move(
                #[trigger] raw_flags(map, x + k, lead_z(z, dz, s), y),
                vert_block(dz) | extra,
            )
    } else if dx != 0 {
        forall|k: int|
            0 <= k < s ==> strat.spec_can_move(
                #[trigger] raw_flags(map, lead_x(x, dx, s), z + k, y),
                horiz_block(dx) | extra,
            )
    } else {
        forall|k: int|
            0 <= k < s ==> strat.spec_can_move(
                #[trigger] raw_flags(map, x + k, lead_z(z, dz, s), y),
                vert_block(dz) | extra,
            )
    }
}

/// Check one leading column: tiles `(lx, z + k)` for `k` in `0..s`.
fn sweep_column(
    map: &CollisionFlagMap,
    y: i64,
    lx: i64,
    z: i64,
    s: i64,
    block: u32,
    strat: &CollisionStrategies,
) -> (r: bool)
    requires
        -0x80000000 <= y <= 0x80000000,
        -0x80001000 <= lx <= 0x80001000,
        -0x80001000 <= z <= 0x80001000,
        1 <= s <= 0x100,
    ensures
        r == forall|k: int|
            0 <= k < s ==> strat.spec_can_move(
                #[trigger] raw_flags(*map, lx as int, z + k, y as int),
                block,
            ),
{
    let mut k: i64 = 0;
    while k < s
        invariant
            -0x80000000 <= y <= 0x80000000,
            -0x80001000 <= lx <= 0x80001000,
            -0x80001000 <= z <= 0x80001000,
            1 <= s <= 0x100,
            0 <= k <= s,
            forall|k2: int|
                0 <= k2 < k ==> strat.spec_can_move(
                    #[trigger] raw_flags(*map, lx as int, z + k2, y as int),
                    block,
                ),
        decreases s - k,
    {
        let t = map.get_wide(lx, z + k, y);
        if !strat.can_move(t, block) {
            proof {
                assert(!strat.spec_can_move(
                    raw_flags(*map, lx as int, z as int + k as int, y as int),
                    block,
                ));
            }
            return false;
        }
        k += 1;
    }
    true
}

/// Check one leading row: tiles `(x + k, lz)` for `k` in `0..s`.
fn sweep_row(
    map: &CollisionFlagMap,
    y: i64,
    x: i64,
    lz: i64,
    s: i64,
    block: u32,
    strat: &CollisionStrategies,
) -> (r: bool)
    requires
        -0x80000000 <= y <= 0x80000000,
        -0x80001000 <= x <= 0x80001000,
        -0x80001000 <= lz <= 0x80001000,
        1 <= s <= 0x100,
    ensures
        r == forall|k: int|
            0 <= k < s ==> strat.spec_can_move(
                #[trigger] raw_flags(*map, x + k, lz as int, y as int),
                block,
            ),
{
    let mut k: i64 = 0;
    while k < s
        invariant
            -0x80000000 <= y <= 0x80000000,
            -0x80001000 <= x <= 0x80001000,
            -0x80001000 <= lz <= 0x80001000,
            1 <= s <= 0x100,
            0 <= k <= s,
            forall|k2: int|
                0 <= k2 < k ==> strat.spec_can_move(
                    #[trigger] raw_flags(*map, x + k2, lz as int, y as int),
                    block,
                ),
        decreases s - k,
    {
        let t = map.get_wide(x + k, lz, y);
        if !strat.can_move(t, block) {
            proof {
                assert(!strat.spec_can_move(
                    raw_flags(*map, x as int + k as int, lz as int, y as int),
                    block,
                ));
            }
            return false;
        }
        k += 1;
    }
    true
}

/// May an entity of square footprint `size` anchored at `(x, z)` on plane
/// `y` step by the unit compass offset `(offset_x, offset_z)` under
/// `strategy`, with the caller's extra blocking bits `extra_flag`?
pub fn can_travel(
    map: &CollisionFlagMap,
    y: i32,
    x: i32,
    z: i32,
    offset_x: i8,
    offset_z: i8,
    size: u8,
    extra_flag: u32,
    strategy: &CollisionStrategies,
) -> (r: bool)
    requires
        -1 <= offset_x <= 1,
        -1 <= offset_z <= 1,
        offset_x != 0 || offset_z != 0,
        size >= 1,
    ensures
        r == spec_can_travel(
            *map,
            y as int,
            x as int,
            z as int,
            offset_x as int,
            offset_z as int,
            size as int,
            extra_flag,
            *strategy,
        ),
{
    can_travel_wide(
        map,
        y as i64,
        x as i64,
        z as i64,
        offset_x,
        offset_z,
        size,
        extra_flag,
        strategy,
    )
}

/// `can_travel` with coordinates already widened; used by the pathfinder,
/// whose search window arithmetic runs in `i64`.
pub(crate) fn can_travel_wide(
    map: &CollisionFlagMap,
    y: i64,
    x: i64,
    z: i64,
    offset_x: i8,
    offset_z: i8,
    size: u8,
    extra_flag: u32,
    strategy: &CollisionStrategies,
) -> (r: bool)
    requires
        -0x80000000 <= y <= 0x80000000,
        -0x80000100 <= x <= 0x80000100,
        -0x80000100 <= z <= 0x80000100,
        -1 <= offset_x <= 1,
        -1 <= offset_z <= 1,
        offset_x != 0 || offset_z != 0,
        size >= 1,
    ensures
        r == spec_can_travel(
            *map,
            y as int,
            x as int,
            z as int,
            offset_x as int,
            offset_z as int,
            size as int,
            extra_flag,
            *strategy,
        ),
{
    let xi = x;
    let zi = z;
    let yi = y;
    let s = size as i64;
    let dx = offset_x as i64;
    let dz = offset_z as i64;
    if dx != 0 && dz != 0 {
        let lx: i64 = if dx > 0 {
            xi + s
        } else {
            xi - 1
        };
        let lz: i64 = if dz > 0 {
            zi + s
        } else {
            zi - 1
        };
        let diag: u32 = if dx > 0 && dz > 0 {
            flags::BLOCK_NORTH_EAST
        } else if dx > 0 {
            flags::BLOCK_SOUTH_EAST
        } else if dz > 0 {
            flags::BLOCK_NORTH_WEST
        } else {
            flags::BLOCK_SOUTH_WEST
        };
        let horiz: u32 = if dx > 0 {
            flags::BLOCK_EAST
        } else {
            flags::BLOCK_WEST
        };
        let vert: u32 = if dz > 0 {
            flags::BLOCK_NORTH
        } else {
            flags::BLOCK_SOUTH
        };
        let corner = map.get_wide(lx, lz, yi);
        let c1 = strategy.can_move(corner, diag | extra_flag);
        let c2 = sweep_column(map, yi, lx, zi, s, horiz | extra_flag, strategy);
        let c3 = sweep_row(map, yi, xi, lz, s, vert | extra_flag, strategy);
        proof {
            let sx = offset_x as int;
            let sz = offset_z as int;
            let si = size as int;
            assert(lx as int == lead_x(x as int, sx, si));
            assert(lz as int == lead_z(z as int, sz, si));
            assert(diag == diag_block(sx, sz));
            assert(horiz == horiz_block(sx));
            assert(vert == vert_block(sz));
            assert(c2 == (forall|k: int|
                0 <= k < si ==> strategy.spec_can_move(
                    #[trigger] raw_flags(*map, lead_x(x as int, sx, si), z as int + k, y as int),
                    horiz_block(sx) | extra_flag,
                )));
            assert(c3 == (forall|k: int|
                0 <= k < si ==> strategy.spec_can_move(
                    #[trigger] raw_flags(*map, x as int + k, lead_z(z as int, sz, si), y as int),
                    vert_block(sz) | extra_flag,
                )));
        }
        c1 && c2 && c3
    } else if dx != 0 {
        let lx: i64 = if dx > 0 {
            xi + s
        } else {
            xi - 1
        };
        let horiz: u32 = if dx > 0 {
            flags::BLOCK_EAST
        } else {
            flags::BLOCK_WEST
        };
        let c = sweep_column(map, yi, lx, zi, s, horiz | extra_flag, strategy);
        proof {
            let sx = offset_x as int;
            let si = size as int;
            assert(lx as int == lead_x(x as int, sx, si));
            assert(c == (forall|k: int|
                0 <= k < si ==> strategy.spec_can_move(
                    #[trigger] raw_flags(*map, lead_x(x as int, sx, si), z as int + k, y as int),
                    horiz_block(sx) | extra_flag,
                )));
        }
        c
    } else {
        let lz: i64 = if dz > 0 {
            zi + s
        } else {
            zi - 1
        };
        let vert: u32 = if dz > 0 {
            flags::BLOCK_NORTH
        } else {
            flags::BLOCK_SOUTH
        };
        let c = sweep_row(map, yi, xi, lz, s, vert | extra_flag, strategy);
        proof {
            let sz = offset_z as int;
            let si = size as int;
            assert(lz as int == lead_z(z as int, sz, si));
            assert(c == (forall|k: int|
                0 <= k < si ==> strategy.spec_can_move(
                    #[trigger] raw_flags(*map, x as int + k, lead_z(z as int, sz, si), y as int),
                    vert_block(sz) | extra_flag,
                )));
        }
        c
    }
}

/// Law: diagonal cutting. A diagonal step is denied whenever either of the
/// two orthogonal leading tiles next to the footprint is blocked for its
/// cardinal direction, whatever the corner tile itself carries.
pub proof fn lemma_diagonal_cutting(
    map: CollisionFlagMap,
    y: int,
    x: int,
    z: int,
    dx: int,
    dz: int,
    s: int,
    extra: u32,
    strat: CollisionStrategies,
)
    requires
        dx == 1 || dx == -1,
        dz == 1 || dz == -1,
        s >= 1,
        !strat.spec_can_move(raw_flags(map, lead_x(x, dx, s), z, y), horiz_block(dx) | extra)
            || !strat.spec_can_move(raw_flags(map, x, lead_z(z, dz, s), y), vert_block(dz) | extra),
    ensures
        !spec_can_travel(map, y, x, z, dx, dz, s, extra, strat),
{
    assert(raw_flags(map, lead_x(x, dx, s), z + 0, y) == raw_flags(map, lead_x(x, dx, s), z, y));
    assert(raw_flags(map, x + 0, lead_z(z, dz, s), y) == raw_flags(map, x, lead_z(z, dz, s), y));
}

/// Law: the `Blocked` strategy is conservative for whole steps, not only
/// single tiles: every step it allows, the `Normal` strategy allows too.
pub proof fn lemma_strategy_ordering(
    map: CollisionFlagMap,
    y: int,
    x: int,
    z: int,
    dx: int,
    dz: int,
    s: int,
    extra: u32,
)
    requires
        -1 <= dx <= 1,
        -1 <= dz <= 1,
        dx != 0 || dz != 0,
        s >= 1,
        spec_can_travel(map, y, x, z, dx, dz, s, extra, CollisionStrategies::Blocked),
    ensures
        spec_can_travel(map, y, x, z, dx, dz, s, extra, CollisionStrategies::Normal),
{
    assert forall|t: u32, b: u32|
        CollisionStrategies::Blocked.spec_can_move(t, b)
            implies CollisionStrategies::Normal.spec_can_move(t, b) by {
        crate::loc::lemma_blocked_conservative(t, b);
    }
}

} // verus!
