//! "Close enough" reachability: is an entity already adjacent enough to a
//! destination footprint to interact with it, without computing a path?
//!
//! A wall is reachable from its own tile and from the open side it faces; a
//! non-wall destination is reachable from any adjacent tile of a
//! non-blocked edge, and the caller may close whole edges with the block
//! access flags (for instance the face a closed door occupies).

use vstd::prelude::*;
use crate::collision::{raw_flags, CollisionFlagMap};
use crate::flags;
use crate::loc::LocAngle;
use crate::wall::{corner_offset_x, corner_offset_z, l_h_angle, l_v_angle, straight_offset_x,
    straight_offset_z};

verus! {

/// Block-access flag: approaches onto the destination's north edge are
/// denied.
pub const BLOCK_ACCESS_NORTH: u8 = 0x1;

pub const BLOCK_ACCESS_EAST: u8 = 0x2;

pub const BLOCK_ACCESS_SOUTH: u8 = 0x4;

pub const BLOCK_ACCESS_WEST: u8 = 0x8;

/// Whether the source footprint (`s` x `s` at `(sx, sz)`) covers the tile
/// `(tx, tz)`.
pub open spec fn tile_in_src(sx: int, sz: int, s: int, tx: int, tz: int) -> bool {
    sx <= tx < sx + s && sz <= tz < sz + s
}

/// Whether the source footprint overlaps the destination rectangle.
pub open spec fn footprints_overlap(
    sx: int,
    sz: int,
    s: int,
    dx: int,
    dz: int,
    w: int,
    h: int,
) -> bool {
    sx < dx + w && dx < sx + s && sz < dz + h && dz < sz + s
}

/// Whether a wall of the given shape and angle at `(dx, dz)` is reachable:
/// from its own tile, or from the neighbor across each edge or corner the
/// wall occupies (its open-facing side).
pub open spec fn reach_wall(
    sx: int,
    sz: int,
    s: int,
    dx: int,
    dz: int,
    shape_raw: int,
    angle: LocAngle,
) -> bool {
    ||| tile_in_src(sx, sz, s, dx, dz)
    ||| (shape_raw == 0 && tile_in_src(
        sx,
        sz,
        s,
        dx + straight_offset_x(angle),
        dz + straight_offset_z(angle),
    ))
    ||| ((shape_raw == 1 || shape_raw == 3) && tile_in_src(
        sx,
        sz,
        s,
        dx + corner_offset_x(angle),
        dz + corner_offset_z(angle),
    ))
    ||| (shape_raw == 2 && (tile_in_src(sx, sz, s, dx + straight_offset_x(l_h_angle(angle)), dz)
        || tile_in_src(sx, sz, s, dx, dz + straight_offset_z(l_v_angle(angle)))))
}

/// Whether a rectangular destination is reachable: the source stands on it,
/// or stands against one of its edges whose access is not blocked, at some
/// contact tile whose facing wall bit is clear.
pub open spec fn reach_rectangle(
    map: CollisionFlagMap,
    y: int,
    sx: int,
    sz: int,
    s: int,
    dx: int,
    dz: int,
    w: int,
    h: int,
    baf: u8,
) -> bool {
    let zlo = if sz > dz {
        sz
    } else {
        dz
    };
    let zhi = if sz + s < dz + h {
        sz + s
    } else {
        dz + h
    };
    let xlo = if sx > dx {
        sx
    } else {
        dx
    };
    let xhi = if sx + s < dx + w {
        sx + s
    } else {
        dx + w
    };
    ||| footprints_overlap(sx, sz, s, dx, dz, w, h)
    ||| (sx + s == dx && sz < dz + h && dz < sz + s && baf & BLOCK_ACCESS_WEST == 0 && exists|
        t: int,
    |
        #![trigger raw_flags(map, dx, t, y)]
        zlo <= t < zhi && raw_flags(map, dx, t, y) & flags::WALL_WEST == 0)
    ||| (dx + w == sx && sz < dz + h && dz < sz + s && baf & BLOCK_ACCESS_EAST == 0 && exists|
        t: int,
    |
        #![trigger raw_flags(map, dx + w - 1, t, y)]
        zlo <= t < zhi && raw_flags(map, dx + w - 1, t, y) & flags::WALL_EAST == 0)
    ||| (sz + s == dz && sx < dx + w && dx < sx + s && baf & BLOCK_ACCESS_SOUTH == 0 && exists|
        t: int,
    |
        #![trigger raw_flags(map, t, dz, y)]
        xlo <= t < xhi && raw_flags(map, t, dz, y) & flags::WALL_SOUTH == 0)
    ||| (dz + h == sz && sx < dx + w && dx < sx + s && baf & BLOCK_ACCESS_NORTH == 0 && exists|
        t: int,
    |
        #![trigger raw_flags(map, t, dz + h - 1, y)]
        xlo <= t < xhi && raw_flags(map, t, dz + h - 1, y) & flags::WALL_NORTH == 0)
}

/// What `reached` returns: the wall rule for the four wall shapes, the
/// rectangle adjacency rule for every other scenery shape, and plain
/// footprint overlap when there is no shape at all (a negative shape
/// value): a destination that is not an obstacle is reached by standing
/// inside it, not beside it.
pub open spec fn spec_reached(
    map: CollisionFlagMap,
    y: int,
    sx: int,
    sz: int,
    dx: int,
    dz: int,
    w: int,
    h: int,
    s: int,
    angle: LocAngle,
    shape_raw: int,
    baf: u8,
) -> bool {
    if 0 <= shape_raw <= 3 {
        reach_wall(sx, sz, s, dx, dz, shape_raw, angle)
    } else if shape_raw >= 4 {
        reach_rectangle(map, y, sx, sz, s, dx, dz, w, h, baf)
    } else {
        footprints_overlap(sx, sz, s, dx, dz, w, h)
    }
}

/// Scan the tiles `(x, t)` for `t` in `[lo, hi)` for one whose `bit` is
/// clear.
fn scan_col(map: &CollisionFlagMap, y: i64, x: i64, lo: i64, hi: i64, bit: u32) -> (r: bool)
    requires
        -0x80000000 <= y <= 0x80000000,
        -0x80000400 <= x <= 0x80000400,
        -0x80000400 <= lo <= 0x80000400,
        -0x80000400 <= hi <= 0x80000400,
    ensures
        r == exists|t: int|
            #![trigger raw_flags(*map, x as int, t, y as int)]
            lo <= t < hi && raw_flags(*map, x as int, t, y as int) & bit == 0,
{
    let mut t: i64 = lo;
    while t < hi
        invariant
            -0x80000000 <= y <= 0x80000000,
            -0x80000400 <= x <= 0x80000400,
            -0x80000400 <= lo <= 0x80000400,
            -0x80000400 <= hi <= 0x80000400,
            lo <= t,
            t <= hi || t == lo,
            forall|t2: int|
                #![trigger raw_flags(*map, x as int, t2, y as int)]
                lo <= t2 < t ==> raw_flags(*map, x as int, t2, y as int) & bit != 0,
        decreases hi - t,
    {
        if map.get_wide(x, t, y) & bit == 0 {
            proof {
                assert(raw_flags(*map, x as int, t as int, y as int) & bit == 0);
            }
            return true;
        }
        t += 1;
    }
    false
}

/// Scan the tiles `(t, z)` for `t` in `[lo, hi)` for one whose `bit` is
/// clear.
fn scan_row(map: &CollisionFlagMap, y: i64, z: i64, lo: i64, hi: i64, bit: u32) -> (r: bool)
    requires
        -0x80000000 <= y <= 0x80000000,
        -0x80000400 <= z <= 0x80000400,
        -0x80000400 <= lo <= 0x80000400,
        -0x80000400 <= hi <= 0x80000400,
    ensures
        r == exists|t: int|
            #![trigger raw_flags(*map, t, z as int, y as int)]
            lo <= t < hi && raw_flags(*map, t, z as int, y as int) & bit == 0,
{
    let mut t: i64 = lo;
    while t < hi
        invariant
            -0x80000000 <= y <= 0x80000000,
            -0x80000400 <= z <= 0x80000400,
            -0x80000400 <= lo <= 0x80000400,
            -0x80000400 <= hi <= 0x80000400,
            lo <= t,
            t <= hi || t == lo,
            forall|t2: int|
                #![trigger raw_flags(*map, t2, z as int, y as int)]
                lo <= t2 < t ==> raw_flags(*map, t2, z as int, y as int) & bit != 0,
        decreases hi - t,
    {
        if map.get_wide(t, z, y) & bit == 0 {
            proof {
                assert(raw_flags(*map, t as int, z as int, y as int) & bit == 0);
            }
            return true;
        }
        t += 1;
    }
    false
}

fn contains_exec(sx: i64, sz: i64, s: i64, tx: i64, tz: i64) -> (r: bool)
    requires
        -0x80000400 <= sx <= 0x80000400,
        -0x80000400 <= sz <= 0x80000400,
        1 <= s <= 0x100,
        -0x80000400 <= tx <= 0x80000400,
        -0x80000400 <= tz <= 0x80000400,
    ensures
        r == tile_in_src(sx as int, sz as int, s as int, tx as int, tz as int),
{
    sx <= tx && tx < sx + s && sz <= tz && tz < sz + s
}

/// Is an entity of `src_size` standing at `(src_x, src_z)` already
/// adjacent enough to interact with the destination footprint?
pub fn reached(
    map: &CollisionFlagMap,
    y: i32,
    src_x: i32,
    src_z: i32,
    dest_x: i32,
    dest_z: i32,
    dest_width: u8,
    dest_height: u8,
    src_size: u8,
    angle: LocAngle,
    shape: i8,
    block_access_flags: u8,
) -> (r: bool)
    requires
        dest_width >= 1,
        dest_height >= 1,
        src_size >= 1,
    ensures
        r == spec_reached(
            *map,
            y as int,
            src_x as int,
            src_z as int,
            dest_x as int,
            dest_z as int,
            dest_width as int,
            dest_height as int,
            src_size as int,
            angle,
            shape as int,
            block_access_flags,
        ),
{
    reached_wide(
        map,
        y as i64,
        src_x as i64,
        src_z as i64,
        dest_x as i64,
        dest_z as i64,
        dest_width,
        dest_height,
        src_size,
        angle,
        shape,
        block_access_flags,
    )
}

/// `reached` with coordinates already widened; used by the pathfinder,
/// whose search window arithmetic runs in `i64`.
pub(crate) fn reached_wide(
    map: &CollisionFlagMap,
    y: i64,
    src_x: i64,
    src_z: i64,
    dest_x: i64,
    dest_z: i64,
    dest_width: u8,
    dest_height: u8,
    src_size: u8,
    angle: LocAngle,
    shape: i8,
    block_access_flags: u8,
) -> (r: bool)
    requires
        -0x80000000 <= y <= 0x80000000,
        -0x80000100 <= src_x <= 0x80000100,
        -0x80000100 <= src_z <= 0x80000100,
        -0x80000100 <= dest_x <= 0x80000100,
        -0x80000100 <= dest_z <= 0x80000100,
        dest_width >= 1,
        dest_height >= 1,
        src_size >= 1,
    ensures
        r == spec_reached(
            *map,
            y as int,
            src_x as int,
            src_z as int,
            dest_x as int,
            dest_z as int,
            dest_width as int,
            dest_height as int,
            src_size as int,
            angle,
            shape as int,
            block_access_flags,
        ),
{
    let yi = y;
    let sx = src_x;
    let sz = src_z;
    let dx = dest_x;
    let dz = dest_z;
    let w = dest_width as i64;
    let h = dest_height as i64;
    let s = src_size as i64;
    if shape >= 0 && shape <= 3 {
        if contains_exec(sx, sz, s, dx, dz) {
            return true;
        }
        match shape {
            0 => {
                let (ox, oz): (i64, i64) = match angle {
                    LocAngle::WEST => (-1, 0),
                    LocAngle::NORTH => (0, 1),
                    LocAngle::EAST => (1, 0),
                    LocAngle::SOUTH => (0, -1),
                };
                contains_exec(sx, sz, s, dx + ox, dz + oz)
            },
            2 => {
                let (hx, vz): (i64, i64) = match angle {
                    LocAngle::WEST => (-1, 1),
                    LocAngle::NORTH => (1, 1),
                    LocAngle::EAST => (1, -1),
                    LocAngle::SOUTH => (-1, -1),
                };
                contains_exec(sx, sz, s, dx + hx, dz) || contains_exec(sx, sz, s, dx, dz + vz)
            },
            _ => {
                let (ox, oz): (i64, i64) = match angle {
                    LocAngle::WEST => (-1, 1),
                    LocAngle::NORTH => (1, 1),
                    LocAngle::EAST => (1, -1),
                    LocAngle::SOUTH => (-1, -1),
                };
                contains_exec(sx, sz, s, dx + ox, dz + oz)
            },
        }
    } else if shape < 4 {
        sx < dx + w && dx < sx + s && sz < dz + h && dz < sz + s
    } else {
        if sx < dx + w && dx < sx + s && sz < dz + h && dz < sz + s {
            return true;
        }
        let zlo: i64 = if sz > dz {
            sz
        } else {
            dz
        };
        let zhi: i64 = if sz + s < dz + h {
            sz + s
        } else {
            dz + h
        };
        let xlo: i64 = if sx > dx {
            sx
        } else {
            dx
        };
        let xhi: i64 = if sx + s < dx + w {
            sx + s
        } else {
            dx + w
        };
        if sx + s == dx && sz < dz + h && dz < sz + s && block_access_flags & BLOCK_ACCESS_WEST == 0
            && scan_col(map, yi, dx, zlo, zhi, flags::WALL_WEST) {
            return true;
        }
        if dx + w == sx && sz < dz + h && dz < sz + s && block_access_flags & BLOCK_ACCESS_EAST == 0
            && scan_col(map, yi, dx + w - 1, zlo, zhi, flags::WALL_EAST) {
            return true;
        }
        if sz + s == dz && sx < dx + w && dx < sx + s && block_access_flags & BLOCK_ACCESS_SOUTH
            == 0 && scan_row(map, yi, dz, xlo, xhi, flags::WALL_SOUTH) {
            return true;
        }
        if dz + h == sz && sx < dx + w && dx < sx + s && block_access_flags & BLOCK_ACCESS_NORTH
            == 0 && scan_row(map, yi, dz + h - 1, xlo, xhi, flags::WALL_NORTH) {
            return true;
        }
        false
    }
}

} // verus!
