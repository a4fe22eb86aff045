//! Line-of-sight and line-of-walk raycasting.
//!
//! The trace runs from the tile of the source footprint closest to the
//! destination to the tile of the destination footprint closest to that
//! start, stepping one tile at a time along whichever axis has the larger
//! remaining distance and diagonally when both are tied. At every
//! tile-boundary crossing the relevant directional bit must be clear on
//! both tiles sharing the crossed edge — the projectile-blocker bits for
//! sight, the plain wall bits for walk — and every entered tile short of
//! the destination must be free of the relevant scenery bit. The trace
//! stops at the first obstruction.

use vstd::prelude::*;
use crate::collision::{pack_coord, pack_coord_at, raw_flags, CollisionFlagMap};
use crate::flags;

verus! {

pub open spec fn iabs(a: int) -> int {
    if a >= 0 {
        a
    } else {
        -a
    }
}

/// One step toward `e` from `c`.
pub open spec fn sign_to(c: int, e: int) -> int {
    if e > c {
        1
    } else if e < c {
        -1
    } else {
        0
    }
}

/// The next column of the trace: the x axis advances when its remaining
/// distance is at least the other axis's.
pub open spec fn ray_next_x(cx: int, cz: int, ex: int, ez: int) -> int {
    if iabs(ex - cx) >= iabs(ez - cz) {
        cx + sign_to(cx, ex)
    } else {
        cx
    }
}

pub open spec fn ray_next_z(cx: int, cz: int, ex: int, ez: int) -> int {
    if iabs(ez - cz) >= iabs(ex - cx) {
        cz + sign_to(cz, ez)
    } else {
        cz
    }
}

/// The directional bit that must be clear on the tile being left.
pub open spec fn cur_edge_bit(dx: int, dz: int, los: bool) -> u32 {
    if los {
        if dx > 0 && dz > 0 {
            flags::WALL_NORTH_EAST_PROJ_BLOCKER
        } else if dx > 0 && dz < 0 {
            flags::WALL_SOUTH_EAST_PROJ_BLOCKER
        } else if dx < 0 && dz > 0 {
            flags::WALL_NORTH_WEST_PROJ_BLOCKER
        } else if dx < 0 && dz < 0 {
            flags::WALL_SOUTH_WEST_PROJ_BLOCKER
        } else if dx > 0 {
            flags::WALL_EAST_PROJ_BLOCKER
        } else if dx < 0 {
            flags::WALL_WEST_PROJ_BLOCKER
        } else if dz > 0 {
            flags::WALL_NORTH_PROJ_BLOCKER
        } else {
            flags::WALL_SOUTH_PROJ_BLOCKER
        }
    } else {
        if dx > 0 && dz > 0 {
            flags::WALL_NORTH_EAST
        } else if dx > 0 && dz < 0 {
            flags::WALL_SOUTH_EAST
        } else if dx < 0 && dz > 0 {
            flags::WALL_NORTH_WEST
        } else if dx < 0 && dz < 0 {
            flags::WALL_SOUTH_WEST
        } else if dx > 0 {
            flags::WALL_EAST
        } else if dx < 0 {
            flags::WALL_WEST
        } else if dz > 0 {
            flags::WALL_NORTH
        } else {
            flags::WALL_SOUTH
        }
    }
}

/// The directional bit that must be clear on the tile being entered: the
/// mirror of `cur_edge_bit`.
pub open spec fn next_edge_bit(dx: int, dz: int, los: bool) -> u32 {
    cur_edge_bit(-dx, -dz, los)
}

/// The scenery bit that obstructs an entered tile.
pub open spec fn occupancy_bit(los: bool) -> u32 {
    if los {
        flags::LOC_PROJ_BLOCKER
    } else {
        flags::LOC
    }
}

/// Whether the next step of the trace crosses no obstruction: the crossed
/// edge is clear on both sides, and the entered tile, unless it is the
/// destination, carries neither the scenery bit nor the caller's extra
/// bits.
pub open spec fn ray_step_clear(
    map: CollisionFlagMap,
    y: int,
    cx: int,
    cz: int,
    ex: int,
    ez: int,
    extra: u32,
    los: bool,
) -> bool {
    let nx = ray_next_x(cx, cz, ex, ez);
    let nz = ray_next_z(cx, cz, ex, ez);
    let dx = nx - cx;
    let dz = nz - cz;
    &&& raw_flags(map, cx, cz, y) & cur_edge_bit(dx, dz, los) == 0
    &&& raw_flags(map, nx, nz, y) & next_edge_bit(dx, dz, los) == 0
    &&& ((nx == ex && nz == ez) || raw_flags(map, nx, nz, y) & (occupancy_bit(los) | extra) == 0)
}

/// Whether the trace from `(cx, cz)` reaches `(ex, ez)` without
/// obstruction.
pub open spec fn ray_reaches(
    map: CollisionFlagMap,
    y: int,
    cx: int,
    cz: int,
    ex: int,
    ez: int,
    extra: u32,
    los: bool,
) -> bool
    decreases iabs(ex - cx) + iabs(ez - cz),
{
    if cx == ex && cz == ez {
        true
    } else if !ray_step_clear(map, y, cx, cz, ex, ez, extra, los) {
        false
    } else {
        ray_reaches(
            map,
            y,
            ray_next_x(cx, cz, ex, ez),
            ray_next_z(cx, cz, ex, ez),
            ex,
            ez,
            extra,
            los,
        )
    }
}

/// The tiles the trace enters, packed, up to the destination or the first
/// obstruction (exclusive).
pub open spec fn ray_trace(
    map: CollisionFlagMap,
    y: int,
    cx: int,
    cz: int,
    ex: int,
    ez: int,
    extra: u32,
    los: bool,
) -> Seq<u32>
    decreases iabs(ex - cx) + iabs(ez - cz),
{
    if cx == ex && cz == ez {
        Seq::empty()
    } else if !ray_step_clear(map, y, cx, cz, ex, ez, extra, los) {
        Seq::empty()
    } else {
        let nx = ray_next_x(cx, cz, ex, ez);
        let nz = ray_next_z(cx, cz, ex, ez);
        seq![pack_coord(nx, nz, y)] + ray_trace(map, y, nx, nz, ex, ez, extra, los)
    }
}

/// Law: a trace is never longer than the distance it has to cover. Every
/// step advances at least one axis toward the target, so the number of
/// entered tiles is at most the sum of the two axis distances.
pub proof fn lemma_ray_trace_bounded(
    map: CollisionFlagMap,
    y: int,
    cx: int,
    cz: int,
    ex: int,
    ez: int,
    extra: u32,
    los: bool,
)
    ensures
        ray_trace(map, y, cx, cz, ex, ez, extra, los).len() <= iabs(ex - cx) + iabs(ez - cz),
    decreases iabs(ex - cx) + iabs(ez - cz),
{
    if cx == ex && cz == ez {
    } else if !ray_step_clear(map, y, cx, cz, ex, ez, extra, los) {
    } else {
        lemma_ray_trace_bounded(
            map,
            y,
            ray_next_x(cx, cz, ex, ez),
            ray_next_z(cx, cz, ex, ez),
            ex,
            ez,
            extra,
            los,
        );
    }
}

/// Law: a projectile-blocker bit on an edge the sight line crosses stops
/// it, whatever the position and the direction of the crossing: when the
/// tile being left carries the blocker bit of the step about to be taken,
/// the trace never reaches its destination.
pub proof fn lemma_proj_blocker_stops_sight(
    map: CollisionFlagMap,
    y: int,
    cx: int,
    cz: int,
    ex: int,
    ez: int,
    extra: u32,
)
    requires
        !(cx == ex && cz == ez),
        raw_flags(map, cx, cz, y) & cur_edge_bit(
            ray_next_x(cx, cz, ex, ez) - cx,
            ray_next_z(cx, cz, ex, ez) - cz,
            true,
        ) != 0,
    ensures
        !ray_reaches(map, y, cx, cz, ex, ez, extra, true),
        ray_trace(map, y, cx, cz, ex, ez, extra, true) =~= Seq::<u32>::empty(),
{
}

/// Law: route-blocker bits never obstruct a walk line. On a plane whose
/// flag words carry nothing below the decoration bit — so route-blocker
/// wall and scenery bits, occupancy, floor and roof bits may all be set —
/// every walk trace reaches its destination.
pub proof fn lemma_route_blockers_never_block_walk(
    map: CollisionFlagMap,
    y: int,
    cx: int,
    cz: int,
    ex: int,
    ez: int,
)
    requires
        forall|a: int, b: int| #[trigger] raw_flags(map, a, b, y) & 0x3FFFF == 0,
    ensures
        ray_reaches(map, y, cx, cz, ex, ez, 0, false),
    decreases iabs(ex - cx) + iabs(ez - cz),
{
    if cx == ex && cz == ez {
    } else {
        let nx = ray_next_x(cx, cz, ex, ez);
        let nz = ray_next_z(cx, cz, ex, ez);
        let fc = raw_flags(map, cx, cz, y);
        let fnext = raw_flags(map, nx, nz, y);
        assert(fc & 0x3FFFF == 0 ==> fc & 0x1 == 0 && fc & 0x2 == 0 && fc & 0x4 == 0 && fc & 0x8
            == 0 && fc & 0x10 == 0 && fc & 0x20 == 0 && fc & 0x40 == 0 && fc & 0x80 == 0 && fc
            & 0x100 == 0) by (bit_vector);
        assert(fnext & 0x3FFFF == 0 ==> fnext & 0x1 == 0 && fnext & 0x2 == 0 && fnext & 0x4 == 0 && fnext
            & 0x8 == 0 && fnext & 0x10 == 0 && fnext & 0x20 == 0 && fnext & 0x40 == 0 && fnext & 0x80 == 0
            && fnext & 0x100 == 0) by (bit_vector);
        assert(fnext & (0x100u32 | 0u32) == fnext & 0x100u32) by (bit_vector);
        assert(ray_step_clear(map, y, cx, cz, ex, ez, 0, false));
        lemma_route_blockers_never_block_walk(map, y, nx, nz, ex, ez);
    }
}

/// The tile of the footprint anchored at `a` (edge length `size`) closest
/// to `other`, on one axis.
pub open spec fn closest_in(a: int, size: int, other: int) -> int {
    if other < a {
        a
    } else if other > a + size - 1 {
        a + size - 1
    } else {
        other
    }
}

fn closest_in_exec(a: i64, size: i64, other: i64) -> (r: i64)
    requires
        1 <= size <= 0x100,
        -0x80000000 <= a <= 0x80000000,
        -0x80000000 <= other <= 0x80000000,
    ensures
        r == closest_in(a as int, size as int, other as int),
        -0x80000000 <= r <= 0x80000200,
{
    if other < a {
        a
    } else if other > a + size - 1 {
        a + size - 1
    } else {
        other
    }
}

/// Trace between the two footprints; return the entered tiles and whether
/// the destination was reached.
#[verifier::rlimit(60)]
fn ray_cast(
    map: &CollisionFlagMap,
    y: i64,
    x0: i64,
    z0: i64,
    x1: i64,
    z1: i64,
    extra: u32,
    los: bool,
) -> (r: (Vec<u32>, bool))
    requires
        -0x80000000 <= y <= 0x80000000,
        -0x80000300 <= x0 <= 0x80000300,
        -0x80000300 <= z0 <= 0x80000300,
        -0x80000300 <= x1 <= 0x80000300,
        -0x80000300 <= z1 <= 0x80000300,
    ensures
        r.0@ == ray_trace(*map, y as int, x0 as int, z0 as int, x1 as int, z1 as int, extra, los),
        r.1 == ray_reaches(*map, y as int, x0 as int, z0 as int, x1 as int, z1 as int, extra, los),
{
    let mut cx: i64 = x0;
    let mut cz: i64 = z0;
    let mut out: Vec<u32> = Vec::new();
    while cx != x1 || cz != z1
        invariant
            -0x80000000 <= y <= 0x80000000,
            -0x80000300 <= x0 <= 0x80000300,
            -0x80000300 <= z0 <= 0x80000300,
            -0x80000300 <= x1 <= 0x80000300,
            -0x80000300 <= z1 <= 0x80000300,
            -0x80000300 <= cx <= 0x80000300,
            -0x80000300 <= cz <= 0x80000300,
            ray_trace(*map, y as int, x0 as int, z0 as int, x1 as int, z1 as int, extra, los)
                == out@ + ray_trace(
                *map,
                y as int,
                cx as int,
                cz as int,
                x1 as int,
                z1 as int,
                extra,
                los,
            ),
            ray_reaches(*map, y as int, x0 as int, z0 as int, x1 as int, z1 as int, extra, los)
                == ray_reaches(
                *map,
                y as int,
                cx as int,
                cz as int,
                x1 as int,
                z1 as int,
                extra,
                los,
            ),
        decreases iabs(x1 as int - cx as int) + iabs(z1 as int - cz as int),
    {
        let adx: i64 = if x1 >= cx {
            x1 - cx
        } else {
            cx - x1
        };
        let adz: i64 = if z1 >= cz {
            z1 - cz
        } else {
            cz - z1
        };
        let sx: i64 = if x1 > cx {
            1
        } else if x1 < cx {
            -1
        } else {
            0
        };
        let sz: i64 = if z1 > cz {
            1
        } else if z1 < cz {
            -1
        } else {
            0
        };
        let nx: i64 = if adx >= adz {
            cx + sx
        } else {
            cx
        };
        let nz: i64 = if adz >= adx {
            cz + sz
        } else {
            cz
        };
        proof {
            assert(nx as int == ray_next_x(cx as int, cz as int, x1 as int, z1 as int));
            assert(nz as int == ray_next_z(cx as int, cz as int, x1 as int, z1 as int));
        }
        let dx: i64 = nx - cx;
        let dz: i64 = nz - cz;
        let cur_bit: u32 = if los {
            if dx > 0 && dz > 0 {
                flags::WALL_NORTH_EAST_PROJ_BLOCKER
            } else if dx > 0 && dz < 0 {
                flags::WALL_SOUTH_EAST_PROJ_BLOCKER
            } else if dx < 0 && dz > 0 {
                flags::WALL_NORTH_WEST_PROJ_BLOCKER
            } else if dx < 0 && dz < 0 {
                flags::WALL_SOUTH_WEST_PROJ_BLOCKER
            } else if dx > 0 {
                flags::WALL_EAST_PROJ_BLOCKER
            } else if dx < 0 {
                flags::WALL_WEST_PROJ_BLOCKER
            } else if dz > 0 {
                flags::WALL_NORTH_PROJ_BLOCKER
            } else {
                flags::WALL_SOUTH_PROJ_BLOCKER
            }
        } else {
            if dx > 0 && dz > 0 {
                flags::WALL_NORTH_EAST
            } else if dx > 0 && dz < 0 {
                flags::WALL_SOUTH_EAST
            } else if dx < 0 && dz > 0 {
                flags::WALL_NORTH_WEST
            } else if dx < 0 && dz < 0 {
                flags::WALL_SOUTH_WEST
            } else if dx > 0 {
                flags::WALL_EAST
            } else if dx < 0 {
                flags::WALL_WEST
            } else if dz > 0 {
                flags::WALL_NORTH
            } else {
                flags::WALL_SOUTH
            }
        };
        let next_bit: u32 = if los {
            if dx > 0 && dz > 0 {
                flags::WALL_SOUTH_WEST_PROJ_BLOCKER
            } else if dx > 0 && dz < 0 {
                flags::WALL_NORTH_WEST_PROJ_BLOCKER
            } else if dx < 0 && dz > 0 {
                flags::WALL_SOUTH_EAST_PROJ_BLOCKER
            } else if dx < 0 && dz < 0 {
                flags::WALL_NORTH_EAST_PROJ_BLOCKER
            } else if dx > 0 {
                flags::WALL_WEST_PROJ_BLOCKER
            } else if dx < 0 {
                flags::WALL_EAST_PROJ_BLOCKER
            } else if dz > 0 {
                flags::WALL_SOUTH_PROJ_BLOCKER
            } else {
                flags::WALL_NORTH_PROJ_BLOCKER
            }
        } else {
            if dx > 0 && dz > 0 {
                flags::WALL_SOUTH_WEST
            } else if dx > 0 && dz < 0 {
                flags::WALL_NORTH_WEST
            } else if dx < 0 && dz > 0 {
                flags::WALL_SOUTH_EAST
            } else if dx < 0 && dz < 0 {
                flags::WALL_NORTH_EAST
            } else if dx > 0 {
                flags::WALL_WEST
            } else if dx < 0 {
                flags::WALL_EAST
            } else if dz > 0 {
                flags::WALL_SOUTH
            } else {
                flags::WALL_NORTH
            }
        };
        proof {
            assert(cur_bit == cur_edge_bit(dx as int, dz as int, los));
            assert(next_bit == next_edge_bit(dx as int, dz as int, los));
        }
        let occ: u32 = if los {
            flags::LOC_PROJ_BLOCKER
        } else {
            flags::LOC
        };
        let cur_flags = map.get_wide(cx, cz, y);
        let next_flags = map.get_wide(nx, nz, y);
        let clear: bool = cur_flags & cur_bit == 0 && next_flags & next_bit == 0 && ((nx == x1 && nz
            == z1) || next_flags & (occ | extra) == 0);
        proof {
            assert(clear == ray_step_clear(
                *map,
                y as int,
                cx as int,
                cz as int,
                x1 as int,
                z1 as int,
                extra,
                los,
            ));
        }
        if !clear {
            proof {
                assert(ray_trace(
                    *map,
                    y as int,
                    cx as int,
                    cz as int,
                    x1 as int,
                    z1 as int,
                    extra,
                    los,
                ) =~= Seq::<u32>::empty());
                assert(out@ + Seq::<u32>::empty() =~= out@);
            }
            return (out, false);
        }
        let p = pack_coord_at(nx, nz, y);
        proof {
            let yi = y as int;
            let x1i = x1 as int;
            let z1i = z1 as int;
            assert(ray_trace(*map, yi, cx as int, cz as int, x1i, z1i, extra, los) == seq![
                pack_coord(nx as int, nz as int, yi),
            ] + ray_trace(*map, yi, nx as int, nz as int, x1i, z1i, extra, los));
            assert(out@ + (seq![pack_coord(nx as int, nz as int, yi)] + ray_trace(
                *map,
                yi,
                nx as int,
                nz as int,
                x1i,
                z1i,
                extra,
                los,
            )) =~= (out@ + seq![pack_coord(nx as int, nz as int, yi)]) + ray_trace(
                *map,
                yi,
                nx as int,
                nz as int,
                x1i,
                z1i,
                extra,
                los,
            ));
        }
        out.push(p);
        cx = nx;
        cz = nz;
    }
    proof {
        assert(out@ + Seq::<u32>::empty() =~= out@);
    }
    (out, true)
}

/// The full trace between two footprints, as `line_of_sight` and
/// `line_of_walk` return it.
pub open spec fn spec_ray_between(
    map: CollisionFlagMap,
    y: int,
    src_x: int,
    src_z: int,
    dest_x: int,
    dest_z: int,
    src_w: int,
    src_h: int,
    dest_w: int,
    dest_h: int,
    extra: u32,
    los: bool,
) -> Seq<u32> {
    let x0 = closest_in(src_x, src_w, dest_x);
    let z0 = closest_in(src_z, src_h, dest_z);
    let x1 = closest_in(dest_x, dest_w, x0);
    let z1 = closest_in(dest_z, dest_h, z0);
    ray_trace(map, y, x0, z0, x1, z1, extra, los)
}

/// Whether the trace between two footprints reaches its destination.
pub open spec fn spec_ray_between_clear(
    map: CollisionFlagMap,
    y: int,
    src_x: int,
    src_z: int,
    dest_x: int,
    dest_z: int,
    src_w: int,
    src_h: int,
    dest_w: int,
    dest_h: int,
    extra: u32,
    los: bool,
) -> bool {
    let x0 = closest_in(src_x, src_w, dest_x);
    let z0 = closest_in(src_z, src_h, dest_z);
    let x1 = closest_in(dest_x, dest_w, x0);
    let z1 = closest_in(dest_z, dest_h, z0);
    ray_reaches(map, y, x0, z0, x1, z1, extra, los)
}

fn ray_between(
    map: &CollisionFlagMap,
    y: i32,
    src_x: i32,
    src_z: i32,
    dest_x: i32,
    dest_z: i32,
    src_w: u8,
    src_h: u8,
    dest_w: u8,
    dest_h: u8,
    extra_flag: u32,
    los: bool,
) -> (r: (Vec<u32>, bool))
    requires
        src_w >= 1,
        src_h >= 1,
        dest_w >= 1,
        dest_h >= 1,
    ensures
        r.0@ == spec_ray_between(
            *map,
            y as int,
            src_x as int,
            src_z as int,
            dest_x as int,
            dest_z as int,
            src_w as int,
            src_h as int,
            dest_w as int,
            dest_h as int,
            extra_flag,
            los,
        ),
        r.1 == spec_ray_between_clear(
            *map,
            y as int,
            src_x as int,
            src_z as int,
            dest_x as int,
            dest_z as int,
            src_w as int,
            src_h as int,
            dest_w as int,
            dest_h as int,
            extra_flag,
            los,
        ),
{
    let x0 = closest_in_exec(src_x as i64, src_w as i64, dest_x as i64);
    let z0 = closest_in_exec(src_z as i64, src_h as i64, dest_z as i64);
    let x1 = closest_in_exec(dest_x as i64, dest_w as i64, x0);
    let z1 = closest_in_exec(dest_z as i64, dest_h as i64, z0);
    ray_cast(map, y as i64, x0, z0, x1, z1, extra_flag, los)
}

/// The tiles a sight line crosses between the two footprints, up to the
/// destination or the first projectile obstruction.
pub fn line_of_sight(
    map: &CollisionFlagMap,
    y: i32,
    src_x: i32,
    src_z: i32,
    dest_x: i32,
    dest_z: i32,
    src_w: u8,
    src_h: u8,
    dest_w: u8,
    dest_h: u8,
    extra_flag: u32,
) -> (r: Vec<u32>)
    requires
        src_w >= 1,
        src_h >= 1,
        dest_w >= 1,
        dest_h >= 1,
    ensures
        r@ == spec_ray_between(
            *map,
            y as int,
            src_x as int,
            src_z as int,
            dest_x as int,
            dest_z as int,
            src_w as int,
            src_h as int,
            dest_w as int,
            dest_h as int,
            extra_flag,
            true,
        ),
{
    let (trace, _) = ray_between(
        map,
        y,
        src_x,
        src_z,
        dest_x,
        dest_z,
        src_w,
        src_h,
        dest_w,
        dest_h,
        extra_flag,
        true,
    );
    trace
}

/// The tiles a straight walk crosses between the two footprints, up to the
/// destination or the first wall or scenery obstruction.
pub fn line_of_walk(
    map: &CollisionFlagMap,
    y: i32,
    src_x: i32,
    src_z: i32,
    dest_x: i32,
    dest_z: i32,
    src_w: u8,
    src_h: u8,
    dest_w: u8,
    dest_h: u8,
    extra_flag: u32,
) -> (r: Vec<u32>)
    requires
        src_w >= 1,
        src_h >= 1,
        dest_w >= 1,
        dest_h >= 1,
    ensures
        r@ == spec_ray_between(
            *map,
            y as int,
            src_x as int,
            src_z as int,
            dest_x as int,
            dest_z as int,
            src_w as int,
            src_h as int,
            dest_w as int,
            dest_h as int,
            extra_flag,
            false,
        ),
{
    let (trace, _) = ray_between(
        map,
        y,
        src_x,
        src_z,
        dest_x,
        dest_z,
        src_w,
        src_h,
        dest_w,
        dest_h,
        extra_flag,
        false,
    );
    trace
}

/// Whether a sight line between the two footprints is unobstructed.
pub fn has_line_of_sight(
    map: &CollisionFlagMap,
    y: i32,
    src_x: i32,
    src_z: i32,
    dest_x: i32,
    dest_z: i32,
    src_w: u8,
    src_h: u8,
    dest_w: u8,
    dest_h: u8,
    extra_flag: u32,
) -> (r: bool)
    requires
        src_w >= 1,
        src_h >= 1,
        dest_w >= 1,
        dest_h >= 1,
    ensures
        r == spec_ray_between_clear(
            *map,
            y as int,
            src_x as int,
            src_z as int,
            dest_x as int,
            dest_z as int,
            src_w as int,
            src_h as int,
            dest_w as int,
            dest_h as int,
            extra_flag,
            true,
        ),
{
    let (_, clear) = ray_between(
        map,
        y,
        src_x,
        src_z,
        dest_x,
        dest_z,
        src_w,
        src_h,
        dest_w,
        dest_h,
        extra_flag,
        true,
    );
    clear
}

/// Whether a straight walk between the two footprints is unobstructed.
pub fn has_line_of_walk(
    map: &CollisionFlagMap,
    y: i32,
    src_x: i32,
    src_z: i32,
    dest_x: i32,
    dest_z: i32,
    src_w: u8,
    src_h: u8,
    dest_w: u8,
    dest_h: u8,
    extra_flag: u32,
) -> (r: bool)
    requires
        src_w >= 1,
        src_h >= 1,
        dest_w >= 1,
        dest_h >= 1,
    ensures
        r == spec_ray_between_clear(
            *map,
            y as int,
            src_x as int,
            src_z as int,
            dest_x as int,
            dest_z as int,
            src_w as int,
            src_h as int,
            dest_w as int,
            dest_h as int,
            extra_flag,
            false,
        ),
{
    let (_, clear) = ray_between(
        map,
        y,
        src_x,
        src_z,
        dest_x,
        dest_z,
        src_w,
        src_h,
        dest_w,
        dest_h,
        extra_flag,
        false,
    );
    clear
}

} // verus!
