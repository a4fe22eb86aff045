//! The pathfinder: a breadth-first flood fill over a bounded 128 x 128
//! search window centered on the source, and a cheap greedy fallback.
//!
//! The fill expands each dequeued tile to its unvisited neighbors in a
//! fixed compass order (west, east, south, north, then the four
//! diagonals), respecting the diagonal-cutting rule through `can_travel`.
//! Each visited tile records the direction it was reached from; the path
//! is reconstructed backwards from the first dequeued tile that satisfies
//! the destination condition, compressed by merging consecutive
//! same-direction steps, and truncated to the earliest `max_waypoints`
//! entries. A destination farther than the window is reported unreachable
//! rather than searched for without bound; with `move_near` set, the
//! dequeued tile closest to the destination stands in for it.

use vstd::prelude::*;
use vstd::pervasive::VecAdditionalExecFns;
use vstd::arithmetic::div_mod::{
    lemma_fundamental_div_mod_converse_div, lemma_fundamental_div_mod_converse_mod,
};
use crate::collision::{pack_coord, pack_coord_at, CollisionFlagMap};
use crate::loc::{CollisionStrategies, LocAngle};
use crate::ray::{closest_in, iabs, sign_to};
use crate::reach::{reached_wide, spec_reached};
use crate::step::{can_travel_wide, spec_can_travel};

verus! {

/// Horizontal component of the fixed neighbor expansion order: west,
/// east, south, north, south-west, south-east, north-west, north-east.
pub open spec fn dir_dx(d: int) -> int {
    if d == 0 {
        -1
    } else if d == 1 {
        1
    } else if d == 2 {
        0
    } else if d == 3 {
        0
    } else if d == 4 {
        -1
    } else if d == 5 {
        1
    } else if d == 6 {
        -1
    } else {
        1
    }
}

pub open spec fn dir_dz(d: int) -> int {
    if d == 0 {
        0
    } else if d == 1 {
        0
    } else if d == 2 {
        -1
    } else if d == 3 {
        1
    } else if d == 4 {
        -1
    } else if d == 5 {
        -1
    } else if d == 6 {
        1
    } else {
        1
    }
}

fn step_dx(d: u8) -> (r: i64)
    ensures
        r == dir_dx(d as int),
        -1 <= r <= 1,
{
    match d {
        0 => -1,
        1 => 1,
        2 => 0,
        3 => 0,
        4 => -1,
        5 => 1,
        6 => -1,
        _ => 1,
    }
}

fn step_dz(d: u8) -> (r: i64)
    ensures
        r == dir_dz(d as int),
        -1 <= r <= 1,
{
    match d {
        0 => 0,
        1 => 0,
        2 => -1,
        3 => 1,
        4 => -1,
        5 => -1,
        6 => 1,
        _ => 1,
    }
}
/// Whether a packed waypoint names a tile of the 128 x 128 search window
/// centered on the source.
pub open spec fn in_search_window(p: u32, src_x: int, src_z: int, y: int) -> bool {
    exists|lx: int, lz: int|
        #![trigger pack_coord(src_x - 64 + lx, src_z - 64 + lz, y)]
        0 <= lx < 128 && 0 <= lz < 128 && p == pack_coord(src_x - 64 + lx, src_z - 64 + lz, y)
}

/// The arguments of one `find_path` invocation, bundled so that the
/// reachability specification below can speak of them as one value.
pub struct PathQuery {
    pub map: CollisionFlagMap,
    pub y: int,
    pub src_x: int,
    pub src_z: int,
    pub dest_x: int,
    pub dest_z: int,
    pub src_size: int,
    pub dest_width: int,
    pub dest_height: int,
    pub angle: LocAngle,
    pub shape: int,
    pub block_access: u8,
    pub strategy: CollisionStrategies,
}

pub open spec fn path_query(
    map: CollisionFlagMap,
    y: int,
    src_x: int,
    src_z: int,
    dest_x: int,
    dest_z: int,
    src_size: int,
    dest_width: int,
    dest_height: int,
    angle: LocAngle,
    shape: int,
    block_access: u8,
    strategy: CollisionStrategies,
) -> PathQuery {
    PathQuery {
        map,
        y,
        src_x,
        src_z,
        dest_x,
        dest_z,
        src_size,
        dest_width,
        dest_height,
        angle,
        shape,
        block_access,
        strategy,
    }
}

/// May the query's entity step by the unit offset `(ddx, ddz)` from the
/// world tile `(wx, wz)`?
#[verifier::opaque]
pub open spec fn query_step(q: PathQuery, wx: int, wz: int, ddx: int, ddz: int) -> bool {
    &&& -1 <= ddx <= 1
    &&& -1 <= ddz <= 1
    &&& (ddx != 0 || ddz != 0)
    &&& spec_can_travel(q.map, q.y, wx, wz, ddx, ddz, q.src_size, 0u32, q.strategy)
}

/// A walk through the search window, in local window coordinates (the
/// source tile is at (64, 64)): it starts at the source, never leaves the
/// window, and every later tile is one permitted unit step from its
/// predecessor.
pub open spec fn window_path_ok(q: PathQuery, p: Seq<(int, int)>) -> bool {
    &&& p.len() > 0
    &&& p[0] == (64int, 64int)
    &&& forall|i: int| #![trigger p[i]] 0 <= i < p.len() ==> 0 <= p[i].0 < 128 && 0 <= p[i].1 < 128
    &&& forall|i: int|
        #![trigger p[i]]
        1 <= i < p.len() ==> query_step(
            q,
            q.src_x - 64 + p[i - 1].0,
            q.src_z - 64 + p[i - 1].1,
            p[i].0 - p[i - 1].0,
            p[i].1 - p[i - 1].1,
        )
}

/// Whether the window tile `(lx, lz)` is reachable from the source by
/// steps the query's strategy permits, without leaving the window.
pub open spec fn window_reachable(q: PathQuery, lx: int, lz: int) -> bool {
    exists|p: Seq<(int, int)>|
        #![trigger window_path_ok(q, p)]
        window_path_ok(q, p) && p.last() == (lx, lz)
}

/// Whether the window tile `(lx, lz)` satisfies the query's destination
/// condition.
#[verifier::opaque]
pub open spec fn window_dest(q: PathQuery, lx: int, lz: int) -> bool {
    spec_reached(
        q.map,
        q.y,
        q.src_x - 64 + lx,
        q.src_z - 64 + lz,
        q.dest_x,
        q.dest_z,
        q.dest_width,
        q.dest_height,
        q.src_size,
        q.angle,
        q.shape,
        q.block_access,
    )
}

/// What `find_path` promises of its result length. Beyond the waypoint
/// cap: the result is empty when the source already satisfies the
/// destination; with `move_near` unset it is non-empty whenever the
/// waypoint budget is positive and some reachable window tile satisfies
/// the destination (the flood fill is complete within its window), and
/// empty whenever no reachable window tile does; and a non-empty,
/// untruncated result ends on a waypoint naming a tile that satisfies the
/// destination.
pub open spec fn find_path_post(
    q: PathQuery,
    move_near: bool,
    max_waypoints: u8,
    r: Seq<u32>,
) -> bool {
    &&& r.len() <= max_waypoints as int
    &&& (window_dest(q, 64, 64) ==> r.len() == 0)
    &&& ((!move_near && max_waypoints > 0 && !window_dest(q, 64, 64) && (exists|lx: int, lz: int|
        0 <= lx < 128 && 0 <= lz < 128 && #[trigger] window_reachable(q, lx, lz) && window_dest(
            q,
            lx,
            lz,
        ))) ==> r.len() > 0)
    &&& ((!move_near && (forall|lx: int, lz: int|
        0 <= lx < 128 && 0 <= lz < 128 && #[trigger] window_reachable(q, lx, lz) ==> !window_dest(
            q,
            lx,
            lz,
        ))) ==> r.len() == 0)
    &&& ((!move_near && 0 < r.len() < max_waypoints as int) ==> (exists|lx: int, lz: int|
        #![trigger pack_coord(q.src_x - 64 + lx, q.src_z - 64 + lz, q.y)]
        0 <= lx < 128 && 0 <= lz < 128 && window_dest(q, lx, lz) && r.last() == pack_coord(
            q.src_x - 64 + lx,
            q.src_z - 64 + lz,
            q.y,
        )))
}

/// How many entries of the direction grid are still unvisited.
spec fn zero_count(s: Seq<u8>) -> int
    decreases s.len(),
{
    if s.len() == 0 {
        0
    } else {
        zero_count(s.drop_last()) + if s.last() == 0u8 {
            1int
        } else {
            0int
        }
    }
}

proof fn lemma_zero_count_bounds(s: Seq<u8>)
    ensures
        0 <= zero_count(s) <= s.len(),
    decreases s.len(),
{
    if s.len() > 0 {
        lemma_zero_count_bounds(s.drop_last());
    }
}

proof fn lemma_zero_count_push(s: Seq<u8>, v: u8)
    ensures
        zero_count(s.push(v)) == zero_count(s) + if v == 0u8 {
            1int
        } else {
            0int
        },
{
    assert(s.push(v).drop_last() =~= s);
}

proof fn lemma_zero_count_update(s: Seq<u8>, i: int, v: u8)
    requires
        0 <= i < s.len(),
        s[i] == 0,
        v != 0,
    ensures
        zero_count(s.update(i, v)) == zero_count(s) - 1,
    decreases s.len(),
{
    if i == s.len() - 1 {
        assert(s.update(i, v).drop_last() =~= s.drop_last());
    } else {
        assert(s.update(i, v).drop_last() =~= s.drop_last().update(i, v));
        lemma_zero_count_update(s.drop_last(), i, v);
        assert(s.update(i, v).last() == s.last());
    }
}

proof fn lemma_zero_count_pos(s: Seq<u8>, i: int)
    requires
        0 <= i < s.len(),
        s[i] == 0,
    ensures
        zero_count(s) >= 1,
    decreases s.len(),
{
    if i == s.len() - 1 {
        lemma_zero_count_bounds(s.drop_last());
    } else {
        lemma_zero_count_pos(s.drop_last(), i);
    }
}

/// The recorded arrival of a visited tile `i` (direction code 1 to 8): its
/// parent lies in the window, is itself visited, sits one closer to the
/// source, and the step from it was permitted.
#[verifier::opaque]
spec fn parent_ok(q: PathQuery, dirs: Seq<u8>, dists: Seq<u16>, i: int) -> bool {
    let d = dirs[i] - 1;
    let lx = i % 128;
    let lz = i / 128;
    let plx = lx - dir_dx(d as int);
    let plz = lz - dir_dz(d as int);
    &&& 0 <= plx < 128
    &&& 0 <= plz < 128
    &&& dirs[plx + plz * 128] != 0
    &&& dists[i] == dists[plx + plz * 128] + 1
    &&& query_step(q, q.src_x - 64 + plx, q.src_z - 64 + plz, dir_dx(d as int), dir_dz(d as int))
}

/// A dequeued tile `t` was expanded in direction `d`: if the step is
/// permitted and stays in the window, the neighbor is visited.
#[verifier::opaque]
spec fn expanded(q: PathQuery, dirs: Seq<u8>, t: int, d: int) -> bool {
    let lx = t % 128;
    let lz = t / 128;
    let nlx = lx + dir_dx(d);
    let nlz = lz + dir_dz(d);
    (0 <= nlx < 128 && 0 <= nlz < 128 && query_step(
        q,
        q.src_x - 64 + lx,
        q.src_z - 64 + lz,
        dir_dx(d),
        dir_dz(d),
    )) ==> dirs[nlx + nlz * 128] != 0
}

proof fn lemma_dir_exists(ddx: int, ddz: int)
    requires
        -1 <= ddx <= 1,
        -1 <= ddz <= 1,
        ddx != 0 || ddz != 0,
    ensures
        exists|d: int| 0 <= d < 8 && #[trigger] dir_dx(d) == ddx && dir_dz(d) == ddz,
{
    if ddx == -1 && ddz == 0 {
        assert(dir_dx(0) == -1 && dir_dz(0) == 0);
    } else if ddx == 1 && ddz == 0 {
        assert(dir_dx(1) == 1 && dir_dz(1) == 0);
    } else if ddx == 0 && ddz == -1 {
        assert(dir_dx(2) == 0 && dir_dz(2) == -1);
    } else if ddx == 0 && ddz == 1 {
        assert(dir_dx(3) == 0 && dir_dz(3) == 1);
    } else if ddx == -1 && ddz == -1 {
        assert(dir_dx(4) == -1 && dir_dz(4) == -1);
    } else if ddx == 1 && ddz == -1 {
        assert(dir_dx(5) == 1 && dir_dz(5) == -1);
    } else if ddx == -1 && ddz == 1 {
        assert(dir_dx(6) == -1 && dir_dz(6) == 1);
    } else {
        assert(dir_dx(7) == 1 && dir_dz(7) == 1);
    }
}

/// Marking one newly reached neighbor preserves the bookkeeping records:
/// the parent structure, the queue membership of visited tiles, and the
/// expansion facts of already dequeued tiles.
#[verifier::rlimit(100)]
#[verifier::spinoff_prover]
proof fn lemma_step_records(
    q: PathQuery,
    dirs0: Seq<u8>,
    dists0: Seq<u16>,
    qu0: Seq<u32>,
    dirs1: Seq<u8>,
    dists1: Seq<u16>,
    qu1: Seq<u32>,
    head: int,
    idx: int,
    lx: int,
    lz: int,
    d: int,
    dcode: u8,
    nlx: int,
    nlz: int,
    ni: int,
    pd: u16,
)
    requires
        dirs0.len() == 16384,
        dists0.len() == 16384,
        forall|i: int| 0 <= i < qu0.len() ==> #[trigger] qu0[i] < 16384,
        forall|i: int| 0 <= i < qu0.len() ==> dirs0[#[trigger] qu0[i] as int] != 0,
        forall|i: int| 0 <= i < 16384 ==> #[trigger] dirs0[i] <= 9,
        forall|i: int| 0 <= i < 16384 && #[trigger] dirs0[i] == 9 ==> i == 8256,
        forall|i: int|
            0 <= i < 16384 && 1 <= #[trigger] dirs0[i] <= 8 ==> parent_ok(q, dirs0, dists0, i),
        forall|i: int| 0 <= i < 16384 && #[trigger] dirs0[i] != 0 ==> qu0.contains(i as u32),
        forall|j: int, d2: int|
            0 <= j < head - 1 && 0 <= d2 < 8 ==> #[trigger] expanded(q, dirs0, qu0[j] as int, d2),
        head <= qu0.len(),
        0 <= idx < 16384,
        dirs0[idx] != 0,
        0 <= lx < 128,
        0 <= lz < 128,
        idx == lx + lz * 128,
        0 <= d < 8,
        dcode == d + 1,
        pd < 65535,
        nlx == lx + dir_dx(d),
        nlz == lz + dir_dz(d),
        0 <= nlx < 128,
        0 <= nlz < 128,
        ni == nlx + nlz * 128,
        dirs0[ni] == 0,
        pd == dists0[idx],
        query_step(q, q.src_x - 64 + lx, q.src_z - 64 + lz, dir_dx(d), dir_dz(d)),
        dirs1 == dirs0.update(ni, dcode),
        dists1 == dists0.update(ni, (pd + 1) as u16),
        qu1 == qu0.push(ni as u32),
    ensures
        forall|i: int| 0 <= i < qu1.len() ==> #[trigger] qu1[i] < 16384,
        forall|i: int| 0 <= i < qu1.len() ==> dirs1[#[trigger] qu1[i] as int] != 0,
        forall|i: int| 0 <= i < 16384 ==> #[trigger] dirs1[i] <= 9,
        forall|i: int| 0 <= i < 16384 && #[trigger] dirs1[i] == 9 ==> i == 8256,
        forall|i: int|
            0 <= i < 16384 && 1 <= #[trigger] dirs1[i] <= 8 ==> parent_ok(q, dirs1, dists1, i),
        forall|i: int| 0 <= i < 16384 && #[trigger] dirs1[i] != 0 ==> qu1.contains(i as u32),
        forall|j: int, d2: int|
            0 <= j < head - 1 && 0 <= d2 < 8 ==> #[trigger] expanded(q, dirs1, qu1[j] as int, d2),
{
    reveal(parent_ok);
    reveal(expanded);
    assert(ni == nlz * 128 + nlx);
    lemma_fundamental_div_mod_converse_div(ni, 128, nlz, nlx);
    lemma_fundamental_div_mod_converse_mod(ni, 128, nlz, nlx);
    assert(ni != idx);
    assert(parent_ok(q, dirs1, dists1, ni));
    assert forall|i: int| 0 <= i < 16384 && 1 <= #[trigger] dirs1[i] <= 8 implies parent_ok(
        q,
        dirs1,
        dists1,
        i,
    ) by {
        if i != ni {
            assert(parent_ok(q, dirs0, dists0, i));
        }
    }
    assert forall|i: int| 0 <= i < 16384 && #[trigger] dirs1[i] != 0 implies qu1.contains(
        i as u32,
    ) by {
        if i != ni {
            assert(dirs0[i] != 0);
            let jj = choose|jj: int| 0 <= jj < qu0.len() && qu0[jj] == i as u32;
            assert(qu1[jj] == i as u32);
        } else {
            assert(qu1[qu1.len() - 1] == ni as u32);
        }
    }
    assert forall|j: int, d2: int| 0 <= j < head - 1 && 0 <= d2 < 8 implies #[trigger] expanded(
        q,
        dirs1,
        qu1[j] as int,
        d2,
    ) by {
        assert(qu1[j] == qu0[j]);
        assert(expanded(q, dirs0, qu0[j] as int, d2));
    }
}

/// Marking one newly reached neighbor keeps every visited tile reachable:
/// the new tile's walk is its parent's walk extended by the one permitted
/// step.
#[verifier::rlimit(100)]
#[verifier::spinoff_prover]
proof fn lemma_step_reachable(
    q: PathQuery,
    dirs0: Seq<u8>,
    dirs1: Seq<u8>,
    lx: int,
    lz: int,
    dcode: u8,
    nlx: int,
    nlz: int,
    ni: int,
)
    requires
        dirs0.len() == 16384,
        forall|i: int|
            0 <= i < 16384 && #[trigger] dirs0[i] != 0 ==> window_reachable(q, i % 128, i / 128),
        0 <= lx < 128,
        0 <= lz < 128,
        0 <= nlx < 128,
        0 <= nlz < 128,
        ni == nlx + nlz * 128,
        dcode != 0,
        window_reachable(q, lx, lz),
        query_step(q, q.src_x - 64 + lx, q.src_z - 64 + lz, nlx - lx, nlz - lz),
        dirs1 == dirs0.update(ni, dcode),
    ensures
        forall|i: int|
            0 <= i < 16384 && #[trigger] dirs1[i] != 0 ==> window_reachable(q, i % 128, i / 128),
{
    assert(ni == nlz * 128 + nlx);
    lemma_fundamental_div_mod_converse_div(ni, 128, nlz, nlx);
    lemma_fundamental_div_mod_converse_mod(ni, 128, nlz, nlx);
    let p0 = choose|p: Seq<(int, int)>|
        #![trigger window_path_ok(q, p)]
        window_path_ok(q, p) && p.last() == (lx, lz);
    let p1 = p0.push((nlx, nlz));
    assert(window_path_ok(q, p1)) by {
        assert(p1[0] == p0[0]);
        assert forall|i: int| #![trigger p1[i]] 0 <= i < p1.len() implies 0 <= p1[i].0 < 128 && 0
            <= p1[i].1 < 128 by {
            if i < p0.len() {
                assert(p1[i] == p0[i]);
            } else {
                assert(p1[i] == (nlx, nlz));
            }
        }
        assert forall|i: int| #![trigger p1[i]] 1 <= i < p1.len() implies query_step(
            q,
            q.src_x - 64 + p1[i - 1].0,
            q.src_z - 64 + p1[i - 1].1,
            p1[i].0 - p1[i - 1].0,
            p1[i].1 - p1[i - 1].1,
        ) by {
            if i < p0.len() {
                assert(p1[i] == p0[i] && p1[i - 1] == p0[i - 1]);
            } else {
                assert(p1[i] == (nlx, nlz));
                assert(p1[i - 1] == p0[p0.len() - 1]);
                assert(p0.last() == (lx, lz));
            }
        }
    }
    assert(p1.last() == (nlx, nlz));
    assert(window_reachable(q, ni % 128, ni / 128));
    assert forall|i: int| 0 <= i < 16384 && #[trigger] dirs1[i] != 0 implies window_reachable(
        q,
        i % 128,
        i / 128,
    ) by {
        if i != ni {
            assert(dirs0[i] != 0);
        }
    }
}

/// Marking one newly reached neighbor keeps the distance bound: the
/// unvisited count falls by one while the new distance is its parent's
/// plus one.
#[verifier::rlimit(100)]
#[verifier::spinoff_prover]
proof fn lemma_step_distbound(
    q: PathQuery,
    dirs0: Seq<u8>,
    dists0: Seq<u16>,
    dirs1: Seq<u8>,
    dists1: Seq<u16>,
    idx: int,
    dcode: u8,
    ni: int,
    pd: u16,
)
    requires
        dirs0.len() == 16384,
        dists0.len() == 16384,
        forall|i: int|
            0 <= i < 16384 && #[trigger] dirs0[i] != 0 ==> dists0[i] + zero_count(dirs0) <= 16384,
        0 <= idx < 16384,
        dirs0[idx] != 0,
        0 <= ni < 16384,
        dirs0[ni] == 0,
        dcode != 0,
        pd == dists0[idx],
        dirs1 == dirs0.update(ni, dcode),
        dists1 == dists0.update(ni, (pd + 1) as u16),
    ensures
        zero_count(dirs1) == zero_count(dirs0) - 1,
        pd + 1 <= 16384,
        forall|i: int|
            0 <= i < 16384 && #[trigger] dirs1[i] != 0 ==> dists1[i] + zero_count(dirs1) <= 16384,
{
    lemma_zero_count_pos(dirs0, ni);
    lemma_zero_count_update(dirs0, ni, dcode);
    assert forall|i: int| 0 <= i < 16384 && #[trigger] dirs1[i] != 0 implies dists1[i]
        + zero_count(dirs1) <= 16384 by {
        if i != ni {
            assert(dirs0[i] != 0);
            assert(dists1[i] == dists0[i]);
        }
    }
}

/// Completeness of the closed fill: once every visited tile has been
/// expanded in all eight directions, the end of every permitted walk from
/// the source is visited.
proof fn lemma_reachable_is_marked(q: PathQuery, dirs: Seq<u8>, queue: Seq<u32>, p: Seq<(int, int)>)
    requires
        dirs.len() == 16384,
        dirs[8256int] != 0,
        forall|i: int| 0 <= i < queue.len() ==> #[trigger] queue[i] < 16384,
        forall|i: int| 0 <= i < 16384 && #[trigger] dirs[i] != 0 ==> queue.contains(i as u32),
        forall|j: int, d: int|
            0 <= j < queue.len() && 0 <= d < 8 ==> #[trigger] expanded(q, dirs, queue[j] as int, d),
        window_path_ok(q, p),
    ensures
        dirs[p.last().0 + p.last().1 * 128] != 0,
    decreases p.len(),
{
    reveal(expanded);
    if p.len() == 1 {
        assert(p.last() == (64int, 64int));
    } else {
        let p0 = p.drop_last();
        assert(window_path_ok(q, p0)) by {
            assert(p0[0] == p[0]);
            assert forall|i: int| #![trigger p0[i]] 0 <= i < p0.len() implies 0 <= p0[i].0 < 128
                && 0 <= p0[i].1 < 128 by {
                assert(p0[i] == p[i]);
            }
            assert forall|i: int| #![trigger p0[i]] 1 <= i < p0.len() implies query_step(
                q,
                q.src_x - 64 + p0[i - 1].0,
                q.src_z - 64 + p0[i - 1].1,
                p0[i].0 - p0[i - 1].0,
                p0[i].1 - p0[i - 1].1,
            ) by {
                assert(p0[i] == p[i] && p0[i - 1] == p[i - 1]);
            }
        }
        lemma_reachable_is_marked(q, dirs, queue, p0);
        let prev = p[p.len() - 2];
        let lastt = p.last();
        let plx = prev.0;
        let plz = prev.1;
        let lx = lastt.0;
        let lz = lastt.1;
        assert(p0.last() == prev);
        let pi = plx + plz * 128;
        assert(dirs[pi] != 0);
        assert(pi == plz * 128 + plx);
        assert(0 <= plx < 128 && 0 <= plz < 128 && 0 <= lx < 128 && 0 <= lz < 128) by {
            assert(p[p.len() - 2] == prev && p[p.len() - 1] == lastt);
        }
        lemma_fundamental_div_mod_converse_div(pi, 128, plz, plx);
        lemma_fundamental_div_mod_converse_mod(pi, 128, plz, plx);
        assert(queue.contains(pi as u32));
        let j = choose|jj: int| 0 <= jj < queue.len() && queue[jj] == pi as u32;
        assert(query_step(q, q.src_x - 64 + plx, q.src_z - 64 + plz, lx - plx, lz - plz)) by {
            assert(p[p.len() - 1] == lastt && p[p.len() - 2] == prev);
        }
        assert(-1 <= lx - plx <= 1 && -1 <= lz - plz <= 1 && (lx - plx != 0 || lz - plz != 0))
            by {
            reveal(query_step);
        }
        lemma_dir_exists(lx - plx, lz - plz);
        let d = choose|d: int|
            0 <= d < 8 && #[trigger] dir_dx(d) == lx - plx && dir_dz(d) == lz - plz;
        assert(expanded(q, dirs, queue[j] as int, d));
        assert(queue[j] as int == pi);
        assert(pi % 128 + dir_dx(d) == lx && pi / 128 + dir_dz(d) == lz);
    }
}

/// The pathfinder holds no state across calls; each invocation is an
/// independent search over the store's current contents.
pub struct PathFinder {
}

impl PathFinder {
    pub fn new() -> PathFinder {
        PathFinder {  }
    }

    /// Breadth-first flood fill from the source tile toward the first tile
    /// satisfying the destination condition of `reached`.
    ///
    /// The contract pins the search down at its boundaries
    /// (`find_path_post`): at most `max_waypoints` packed waypoints, each
    /// inside the window; an empty result when the source itself already
    /// satisfies the destination; with `move_near` unset, a non-empty
    /// result whenever some reachable window tile satisfies the
    /// destination, and an empty result whenever none does.
    #[verifier::rlimit(100)]
    #[verifier::spinoff_prover]
    pub fn find_path(
        &self,
        map: &CollisionFlagMap,
        y: i32,
        src_x: i32,
        src_z: i32,
        dest_x: i32,
        dest_z: i32,
        src_size: u8,
        dest_width: u8,
        dest_height: u8,
        angle: LocAngle,
        shape: i8,
        move_near: bool,
        block_access_flags: u8,
        max_waypoints: u8,
        strategy: &CollisionStrategies,
    ) -> (r: Vec<u32>)
        requires
            src_size >= 1,
            dest_width >= 1,
            dest_height >= 1,
        ensures
            r@.len() <= max_waypoints as int,
            forall|i: int|
                0 <= i < r@.len() ==> in_search_window(
                    #[trigger] r@[i],
                    src_x as int,
                    src_z as int,
                    y as int,
                ),
            find_path_post(
                (path_query(
                    *map,
                    y as int,
                    src_x as int,
                    src_z as int,
                    dest_x as int,
                    dest_z as int,
                    src_size as int,
                    dest_width as int,
                    dest_height as int,
                    angle,
                    shape as int,
                    block_access_flags,
                    *strategy,
                )),
                move_near,
                max_waypoints,
                r@,
            ),
    {
        let ghost q = path_query(
            *map,
            y as int,
            src_x as int,
            src_z as int,
            dest_x as int,
            dest_z as int,
            src_size as int,
            dest_width as int,
            dest_height as int,
            angle,
            shape as int,
            block_access_flags,
            *strategy,
        );
        let ghost src_hits = window_dest(q, 64, 64);
        let yi = y as i64;
        let base_x: i64 = src_x as i64 - 64;
        let base_z: i64 = src_z as i64 - 64;
        let dxi = dest_x as i64;
        let dzi = dest_z as i64;
        // 0 = unvisited, 1..=8 = arrived by that direction, 9 = the source.
        let mut directions: Vec<u8> = Vec::new();
        let mut dists: Vec<u16> = Vec::new();
        let mut k: usize = 0;
        while k < 16384
            invariant
                directions@.len() == k,
                dists@.len() == k,
                k <= 16384,
                zero_count(directions@) == k,
                forall|i: int| 0 <= i < k ==> directions@[i] == 0,
                forall|i: int| 0 <= i < k ==> dists@[i] == 0,
            decreases 16384 - k,
        {
            proof {
                lemma_zero_count_push(directions@, 0);
            }
            directions.push(0);
            dists.push(0);
            k += 1;
        }
        let src_idx: u32 = 64 + 64 * 128;
        proof {
            lemma_zero_count_update(directions@, src_idx as int, 9);
        }
        directions.set(src_idx as usize, 9);
        let mut queue: Vec<u32> = Vec::new();
        queue.push(src_idx);
        proof {
            assert(queue@[0] == src_idx);
            assert forall|i: int| 0 <= i < 16384 && #[trigger] directions@[i] != 0 implies queue@
                .contains(i as u32) by {
                assert(i == src_idx as int);
                assert(queue@[0] == i as u32);
            }
            let p0 = seq![(64int, 64int)];
            assert(p0.len() == 1 && p0[0] == (64int, 64int) && p0.last() == (64int, 64int));
            assert(window_path_ok(q, p0)) by {
                assert forall|i: int| #![trigger p0[i]] 0 <= i < p0.len() implies 0 <= p0[i].0
                    < 128 && 0 <= p0[i].1 < 128 by {
                    assert(p0[i] == (64int, 64int));
                }
            }
            assert(window_reachable(q, 64, 64));
            assert forall|i: int|
                0 <= i < 16384 && #[trigger] directions@[i] != 0 implies window_reachable(
                q,
                i % 128,
                i / 128,
            ) by {
                assert(i == src_idx as int);
                assert(i % 128 == 64 && i / 128 == 64);
            }
        }
        let mut head: usize = 0;
        let mut found: u32 = 16384;
        let mut best_idx: u32 = src_idx;
        let mut best_cost: i64 = 0x7FFFFFFFFFFFFFFF;
        while head < queue.len() && found == 16384
            invariant
                q == path_query(
                    *map,
                    y as int,
                    src_x as int,
                    src_z as int,
                    dest_x as int,
                    dest_z as int,
                    src_size as int,
                    dest_width as int,
                    dest_height as int,
                    angle,
                    shape as int,
                    block_access_flags,
                    *strategy,
                ),
                src_hits == window_dest(q, 64, 64),
                src_size >= 1,
                dest_width >= 1,
                dest_height >= 1,
                yi == y as i64,
                base_x == src_x as i64 - 64,
                base_z == src_z as i64 - 64,
                dxi == dest_x as i64,
                dzi == dest_z as i64,
                src_idx == 8256,
                directions@.len() == 16384,
                dists@.len() == 16384,
                queue@.len() + zero_count(directions@) == 16384,
                0 <= zero_count(directions@),
                head <= queue@.len(),
                forall|i: int| 0 <= i < queue@.len() ==> #[trigger] queue@[i] < 16384,
                forall|i: int|
                    0 <= i < queue@.len() ==> directions@[#[trigger] queue@[i] as int] != 0,
                best_idx < 16384,
                directions@[best_idx as int] != 0,
                found <= 16384,
                directions@[src_idx as int] == 9,
                dists@[src_idx as int] == 0,
                forall|i: int| 0 <= i < 16384 ==> #[trigger] directions@[i] <= 9,
                forall|i: int| 0 <= i < 16384 && #[trigger] directions@[i] == 9 ==> i == src_idx,
                forall|i: int|
                    0 <= i < 16384 && 1 <= #[trigger] directions@[i] <= 8 ==> parent_ok(
                        q,
                        directions@,
                        dists@,
                        i,
                    ),
                forall|i: int|
                    0 <= i < 16384 && #[trigger] directions@[i] != 0 ==> queue@.contains(i as u32),
                forall|i: int|
                    0 <= i < 16384 && #[trigger] directions@[i] != 0 ==> window_reachable(
                        q,
                        i % 128,
                        i / 128,
                    ),
                forall|i: int|
                    0 <= i < 16384 && #[trigger] directions@[i] != 0 ==> dists@[i] + zero_count(
                        directions@,
                    ) <= 16384,
                found == 16384 ==> forall|j: int|
                    0 <= j < head ==> !window_dest(
                        q,
                        #[trigger] queue@[j] as int % 128,
                        queue@[j] as int / 128,
                    ),
                found == 16384 ==> forall|j: int, d: int|
                    0 <= j < head && 0 <= d < 8 ==> #[trigger] expanded(
                        q,
                        directions@,
                        queue@[j] as int,
                        d,
                    ),
                found != 16384 ==> directions@[found as int] != 0 && window_dest(
                    q,
                    found as int % 128,
                    found as int / 128,
                ) && head > 0,
                head == 0 ==> queue@ =~= seq![src_idx] && found == 16384,
                src_hits && head > 0 ==> found == src_idx,
            decreases 16384 - head,
        {
            let ghost first = head == 0;
            let idx: u32 = queue[head];
            head += 1;
            let lx: i64 = (idx % 128) as i64;
            let lz: i64 = (idx / 128) as i64;
            let wx: i64 = base_x + lx;
            let wz: i64 = base_z + lz;
            proof {
                vstd::arithmetic::div_mod::lemma_fundamental_div_mod(idx as int, 128);
            }
            if reached_wide(
                map,
                yi,
                wx,
                wz,
                dxi,
                dzi,
                dest_width,
                dest_height,
                src_size,
                angle,
                shape,
                block_access_flags,
            ) {
                proof {
                    reveal(window_dest);
                    if first {
                        assert(idx == src_idx);
                    }
                    assert(window_dest(q, idx as int % 128, idx as int / 128));
                }
                found = idx;
            } else {
                proof {
                    reveal(window_dest);
                    if first {
                        assert(idx == src_idx);
                        assert(!src_hits);
                    }
                    assert(!window_dest(q, idx as int % 128, idx as int / 128));
                }
                if move_near {
                    let ddx: i64 = if wx < dxi {
                        dxi - wx
                    } else if wx > dxi + (dest_width as i64 - 1) {
                        wx - (dxi + (dest_width as i64 - 1))
                    } else {
                        0
                    };
                    let ddz: i64 = if wz < dzi {
                        dzi - wz
                    } else if wz > dzi + (dest_height as i64 - 1) {
                        wz - (dzi + (dest_height as i64 - 1))
                    } else {
                        0
                    };
                    // distances beyond the window are all equally poor:
                    // clamp them so the squares cannot overflow
                    let cddx: i64 = if ddx > 65535 {
                        65535
                    } else {
                        ddx
                    };
                    let cddz: i64 = if ddz > 65535 {
                        65535
                    } else {
                        ddz
                    };
                    proof {
                        assert(0 <= cddx * cddx + cddz * cddz <= 0x200000000) by (nonlinear_arith)
                            requires
                                0 <= cddx <= 65535,
                                0 <= cddz <= 65535,
                        ;
                    }
                    let cost: i64 = cddx * cddx + cddz * cddz;
                    if cost < best_cost {
                        best_cost = cost;
                        best_idx = idx;
                    }
                }
                let mut d: u8 = 0;
                while d < 8
                    invariant
                        q == path_query(
                            *map,
                            y as int,
                            src_x as int,
                            src_z as int,
                            dest_x as int,
                            dest_z as int,
                            src_size as int,
                            dest_width as int,
                            dest_height as int,
                            angle,
                            shape as int,
                            block_access_flags,
                            *strategy,
                        ),
                        src_hits == window_dest(q, 64, 64),
                        src_size >= 1,
                        dest_width >= 1,
                        dest_height >= 1,
                        yi == y as i64,
                        base_x == src_x as i64 - 64,
                        base_z == src_z as i64 - 64,
                        src_idx == 8256,
                        directions@.len() == 16384,
                        dists@.len() == 16384,
                        queue@.len() + zero_count(directions@) == 16384,
                        0 <= zero_count(directions@),
                        head <= queue@.len(),
                        head > 0,
                        queue@[head - 1] == idx,
                        forall|i: int| 0 <= i < queue@.len() ==> #[trigger] queue@[i] < 16384,
                        forall|i: int|
                            0 <= i < queue@.len() ==> directions@[#[trigger] queue@[i] as int]
                                != 0,
                        best_idx < 16384,
                        directions@[best_idx as int] != 0,
                        found == 16384,
                        directions@[src_idx as int] == 9,
                        dists@[src_idx as int] == 0,
                        d <= 8,
                        0 <= lx < 128,
                        0 <= lz < 128,
                        idx < 16384,
                        idx as int == lx + lz * 128,
                        wx == base_x + lx,
                        wz == base_z + lz,
                        forall|i: int| 0 <= i < 16384 ==> #[trigger] directions@[i] <= 9,
                        forall|i: int|
                            0 <= i < 16384 && #[trigger] directions@[i] == 9 ==> i == src_idx,
                        forall|i: int|
                            0 <= i < 16384 && 1 <= #[trigger] directions@[i] <= 8 ==> parent_ok(
                                q,
                                directions@,
                                dists@,
                                i,
                            ),
                        forall|i: int|
                            0 <= i < 16384 && #[trigger] directions@[i] != 0 ==> queue@.contains(
                                i as u32,
                            ),
                        forall|i: int|
                            0 <= i < 16384 && #[trigger] directions@[i] != 0 ==> window_reachable(
                                q,
                                i % 128,
                                i / 128,
                            ),
                        forall|i: int|
                            0 <= i < 16384 && #[trigger] directions@[i] != 0 ==> dists@[i]
                                + zero_count(directions@) <= 16384,
                        forall|j: int|
                            0 <= j < head - 1 ==> !window_dest(
                                q,
                                #[trigger] queue@[j] as int % 128,
                                queue@[j] as int / 128,
                            ),
                        !window_dest(q, lx as int, lz as int),
                        forall|j: int, d2: int|
                            0 <= j < head - 1 && 0 <= d2 < 8 ==> #[trigger] expanded(
                                q,
                                directions@,
                                queue@[j] as int,
                                d2,
                            ),
                        forall|d2: int|
                            0 <= d2 < d ==> #[trigger] expanded(q, directions@, idx as int, d2),
                        src_hits && head > 0 ==> found == src_idx,
                    decreases 8 - d,
                {
                    let sdx = step_dx(d);
                    let sdz = step_dz(d);
                    let nlx: i64 = lx + sdx;
                    let nlz: i64 = lz + sdz;
                    if 0 <= nlx && nlx < 128 && 0 <= nlz && nlz < 128 {
                        let nidx: u32 = (nlx + nlz * 128) as u32;
                        proof {
                            assert(nidx as int == nlz * 128 + nlx);
                            lemma_fundamental_div_mod_converse_div(
                                nidx as int,
                                128,
                                nlz as int,
                                nlx as int,
                            );
                            lemma_fundamental_div_mod_converse_mod(
                                nidx as int,
                                128,
                                nlz as int,
                                nlx as int,
                            );
                        }
                        if directions[nidx as usize] == 0 {
                            if can_travel_wide(
                                map,
                                yi,
                                wx,
                                wz,
                                sdx as i8,
                                sdz as i8,
                                src_size,
                                0,
                                strategy,
                            ) {
                                let ghost dirs0 = directions@;
                                let ghost dists0 = dists@;
                                let ghost qu0 = queue@;
                                proof {
                                    lemma_zero_count_pos(directions@, nidx as int);
                                }
                                let pd = dists[idx as usize];
                                directions.set(nidx as usize, d + 1);
                                dists.set(nidx as usize, pd + 1);
                                queue.push(nidx);
                                proof {
                                    assert(dirs0[idx as int] != 0);
                                    assert(pd + zero_count(dirs0) <= 16384);
                                    assert(pd < 65535);
                                    assert(query_step(
                                        q,
                                        q.src_x - 64 + lx,
                                        q.src_z - 64 + lz,
                                        dir_dx(d as int),
                                        dir_dz(d as int),
                                    )) by {
                                        reveal(query_step);
                                    }
                                    lemma_step_records(
                                        q,
                                        dirs0,
                                        dists0,
                                        qu0,
                                        directions@,
                                        dists@,
                                        queue@,
                                        head as int,
                                        idx as int,
                                        lx as int,
                                        lz as int,
                                        d as int,
                                        (d + 1) as u8,
                                        nlx as int,
                                        nlz as int,
                                        nidx as int,
                                        pd,
                                    );
                                    assert(window_reachable(q, lx as int, lz as int)) by {
                                        assert(dirs0[idx as int] != 0);
                                    }
                                    assert(query_step(
                                        q,
                                        q.src_x - 64 + lx,
                                        q.src_z - 64 + lz,
                                        nlx - lx,
                                        nlz - lz,
                                    )) by {
                                        reveal(query_step);
                                    }
                                    lemma_step_reachable(
                                        q,
                                        dirs0,
                                        directions@,
                                        lx as int,
                                        lz as int,
                                        (d + 1) as u8,
                                        nlx as int,
                                        nlz as int,
                                        nidx as int,
                                    );
                                    lemma_step_distbound(
                                        q,
                                        dirs0,
                                        dists0,
                                        directions@,
                                        dists@,
                                        idx as int,
                                        (d + 1) as u8,
                                        nidx as int,
                                        pd,
                                    );
                                    assert forall|d2: int| 0 <= d2 < d implies #[trigger] expanded(
                                        q,
                                        directions@,
                                        idx as int,
                                        d2,
                                    ) by {
                                        reveal(expanded);
                                        assert(expanded(q, dirs0, idx as int, d2));
                                    }
                                }
                            }
                        }
                    }
                    proof {
                        assert forall|d2: int| 0 <= d2 < d + 1 implies #[trigger] expanded(
                            q,
                            directions@,
                            idx as int,
                            d2,
                        ) by {
                            reveal(expanded);
                            if d2 == d as int {
                                reveal(query_step);
                                assert(lx + dir_dx(d2) == nlx && lz + dir_dz(d2) == nlz);
                            }
                        }
                    }
                    d += 1;
                }
            }
        }
        proof {
            lemma_zero_count_bounds(directions@);
            if found == 16384 {
                assert(head == queue@.len());
                assert forall|lx: int, lz: int|
                    0 <= lx < 128 && 0 <= lz < 128 && #[trigger] window_reachable(
                        q,
                        lx,
                        lz,
                    ) implies !window_dest(q, lx, lz) by {
                    let p = choose|p: Seq<(int, int)>|
                        #![trigger window_path_ok(q, p)]
                        window_path_ok(q, p) && p.last() == (lx, lz);
                    lemma_reachable_is_marked(q, directions@, queue@, p);
                    let t = lx + lz * 128;
                    assert(t == lz * 128 + lx);
                    lemma_fundamental_div_mod_converse_div(t, 128, lz, lx);
                    lemma_fundamental_div_mod_converse_mod(t, 128, lz, lx);
                    assert(directions@[t] != 0);
                    assert(queue@.contains(t as u32));
                    let j = choose|j: int| 0 <= j < queue@.len() && queue@[j] == t as u32;
                    assert(!window_dest(q, queue@[j] as int % 128, queue@[j] as int / 128));
                }
            }
        }
        let target: u32 = if found < 16384 {
            found
        } else if move_near {
            best_idx
        } else {
            return Vec::new();
        };
        // Walk the direction pointers backwards from the target to the
        // source, collecting the stepped tiles, target first. The recorded
        // distances fall by one at each hop, so the walk ends at the
        // source.
        let mut tiles_rev: Vec<u32> = Vec::new();
        let mut cur: u32 = target;
        proof {
            if src_hits {
                assert(target == src_idx);
            }
        }
        while directions[cur as usize] != 9
            invariant
                directions@.len() == 16384,
                dists@.len() == 16384,
                src_idx == 8256,
                directions@[src_idx as int] == 9,
                forall|i: int| 0 <= i < 16384 ==> #[trigger] directions@[i] <= 9,
                forall|i: int| 0 <= i < 16384 && #[trigger] directions@[i] == 9 ==> i == src_idx,
                forall|i: int|
                    0 <= i < 16384 && 1 <= #[trigger] directions@[i] <= 8 ==> parent_ok(
                        q,
                        directions@,
                        dists@,
                        i,
                    ),
                cur < 16384,
                directions@[cur as int] != 0,
                tiles_rev@.len() == 0 ==> cur == target,
                tiles_rev@.len() > 0 ==> tiles_rev@[0] == target,
                src_hits ==> cur == src_idx && tiles_rev@.len() == 0,
                forall|i: int| 0 <= i < tiles_rev@.len() ==> #[trigger] tiles_rev@[i] < 16384,
            decreases dists@[cur as int],
        {
            let dcode = directions[cur as usize];
            proof {
                reveal(parent_ok);
                assert(1 <= dcode <= 8);
                assert(parent_ok(q, directions@, dists@, cur as int));
                vstd::arithmetic::div_mod::lemma_fundamental_div_mod(cur as int, 128);
            }
            tiles_rev.push(cur);
            let pdx = step_dx(dcode - 1);
            let pdz = step_dz(dcode - 1);
            let plx: i64 = (cur % 128) as i64 - pdx;
            let plz: i64 = (cur / 128) as i64 - pdz;
            proof {
                assert(plx + plz * 128 == plz * 128 + plx);
                lemma_fundamental_div_mod_converse_div(plx + plz * 128, 128, plz as int, plx as int);
                lemma_fundamental_div_mod_converse_mod(plx + plz * 128, 128, plz as int, plx as int);
            }
            cur = (plx + plz * 128) as u32;
        }
        proof {
            assert(cur == src_idx);
            if target != src_idx {
                assert(tiles_rev@.len() >= 1);
            }
        }
        // Emit, source side first, the last tile of every straight run and
        // the target, up to `max_waypoints` entries.
        let n = tiles_rev.len();
        let mut out: Vec<u32> = Vec::new();
        let mut i: usize = 0;
        while i < n && out.len() < max_waypoints as usize
            invariant
                n == tiles_rev@.len(),
                directions@.len() == 16384,
                forall|j: int| 0 <= j < tiles_rev@.len() ==> #[trigger] tiles_rev@[j] < 16384,
                base_x == src_x as i64 - 64,
                base_z == src_z as i64 - 64,
                yi == y as i64,
                i <= n,
                out@.len() <= max_waypoints as int,
                src_hits ==> n == 0 && out@.len() == 0,
                n > 0 ==> tiles_rev@[0] == target,
                target < 16384,
                i == n && n > 0 ==> out@.len() >= 1 && out@.last() == pack_coord(
                    src_x as int - 64 + target as int % 128,
                    src_z as int - 64 + target as int / 128,
                    y as int,
                ),
                forall|j: int|
                    0 <= j < out@.len() ==> in_search_window(
                        #[trigger] out@[j],
                        src_x as int,
                        src_z as int,
                        y as int,
                    ),
            decreases n - i,
        {
            let t: u32 = tiles_rev[n - 1 - i];
            let emit: bool = if i == n - 1 {
                true
            } else {
                directions[t as usize] != directions[tiles_rev[n - 2 - i] as usize]
            };
            if emit {
                let lx: i64 = (t % 128) as i64;
                let lz: i64 = (t / 128) as i64;
                let p = pack_coord_at(base_x + lx, base_z + lz, yi);
                proof {
                    assert(0 <= (lx as int) && (lx as int) < 128 && 0 <= (lz as int) && (lz as int)
                        < 128 && p == pack_coord(
                        src_x as int - 64 + lx as int,
                        src_z as int - 64 + lz as int,
                        y as int,
                    ));
                    assert(in_search_window(p, src_x as int, src_z as int, y as int));
                    if i == n - 1 {
                        assert(t == target);
                    }
                }
                out.push(p);
            }
            i += 1;
        }
        proof {
            if !move_near && max_waypoints > 0 && !src_hits && found < 16384 {
                assert(window_dest(q, found as int % 128, found as int / 128));
                if found == src_idx {
                    assert(found as int % 128 == 64 && found as int / 128 == 64);
                }
                assert(target != src_idx);
                assert(out@.len() >= 1);
            }
            if found < 16384 {
                assert(directions@[found as int] != 0);
                assert(window_reachable(q, found as int % 128, found as int / 128));
            }
            if !move_near && 0 < out@.len() < max_waypoints as int {
                assert(i == n && n > 0);
                assert(out@.last() == pack_coord(
                    q.src_x - 64 + target as int % 128,
                    q.src_z - 64 + target as int / 128,
                    q.y,
                ));
                assert(target == found && found < 16384);
                assert(window_dest(q, target as int % 128, target as int / 128));
                assert(0 <= target as int % 128 < 128 && 0 <= target as int / 128 < 128) by {
                    vstd::arithmetic::div_mod::lemma_fundamental_div_mod(target as int, 128);
                };
            }
            assert(find_path_post(q, move_near, max_waypoints, out@));
        }
        out
    }
}

/// The greedy step the naive path takes from `(cx, cz)` toward `(ex, ez)`:
/// the diagonal toward the target when it is open, else the horizontal,
/// else the vertical, else nothing (a local dead end).
pub open spec fn naive_step(
    map: CollisionFlagMap,
    y: int,
    cx: int,
    cz: int,
    ex: int,
    ez: int,
    s: int,
    extra: u32,
    strat: CollisionStrategies,
) -> Option<(int, int)> {
    let dx = sign_to(cx, ex);
    let dz = sign_to(cz, ez);
    if dx != 0 && dz != 0 && spec_can_travel(map, y, cx, cz, dx, dz, s, extra, strat) {
        Some((cx + dx, cz + dz))
    } else if dx != 0 && spec_can_travel(map, y, cx, cz, dx, 0, s, extra, strat) {
        Some((cx + dx, cz))
    } else if dz != 0 && spec_can_travel(map, y, cx, cz, 0, dz, s, extra, strat) {
        Some((cx, cz + dz))
    } else {
        None
    }
}

/// The tiles the naive path steps through, packed, from `(cx, cz)` until
/// the target tile, a blocked step, or a dead end.
pub open spec fn naive_trace(
    map: CollisionFlagMap,
    y: int,
    cx: int,
    cz: int,
    ex: int,
    ez: int,
    s: int,
    extra: u32,
    strat: CollisionStrategies,
) -> Seq<u32>
    decreases iabs(ex - cx) + iabs(ez - cz),
{
    if cx == ex && cz == ez {
        Seq::empty()
    } else {
        match naive_step(map, y, cx, cz, ex, ez, s, extra, strat) {
            None => Seq::empty(),
            Some(p) => seq![pack_coord(p.0, p.1, y)] + naive_trace(
                map,
                y,
                p.0,
                p.1,
                ex,
                ez,
                s,
                extra,
                strat,
            ),
        }
    }
}

/// The full naive trace between two footprints: it aims at the tile of the
/// destination footprint closest to the source anchor.
pub open spec fn spec_naive_path(
    map: CollisionFlagMap,
    y: int,
    src_x: int,
    src_z: int,
    dest_x: int,
    dest_z: int,
    src_w: int,
    dest_w: int,
    dest_h: int,
    extra: u32,
    strat: CollisionStrategies,
) -> Seq<u32> {
    let ex = closest_in(dest_x, dest_w, src_x);
    let ez = closest_in(dest_z, dest_h, src_z);
    naive_trace(map, y, src_x, src_z, ex, ez, src_w, extra, strat)
}

/// Law: the naive path is never longer than the distance it has to cover.
/// Every step advances at least one axis toward the target tile, so the
/// number of stepped tiles is at most the sum of the two axis distances.
pub proof fn lemma_naive_trace_bounded(
    map: CollisionFlagMap,
    y: int,
    cx: int,
    cz: int,
    ex: int,
    ez: int,
    s: int,
    extra: u32,
    strat: CollisionStrategies,
)
    ensures
        naive_trace(map, y, cx, cz, ex, ez, s, extra, strat).len() <= iabs(ex - cx) + iabs(
            ez - cz,
        ),
    decreases iabs(ex - cx) + iabs(ez - cz),
{
    if cx == ex && cz == ez {
    } else {
        match naive_step(map, y, cx, cz, ex, ez, s, extra, strat) {
            None => {},
            Some(p) => {
                lemma_naive_trace_bounded(map, y, p.0, p.1, ex, ez, s, extra, strat);
            },
        }
    }
}

proof fn lemma_naive_unfold(
    map: CollisionFlagMap,
    y: int,
    cx: int,
    cz: int,
    ex: int,
    ez: int,
    s: int,
    extra: u32,
    strat: CollisionStrategies,
    nx: int,
    nz: int,
    prefix: Seq<u32>,
)
    requires
        !(cx == ex && cz == ez),
        naive_step(map, y, cx, cz, ex, ez, s, extra, strat) == Some((nx, nz)),
    ensures
        prefix + naive_trace(map, y, cx, cz, ex, ez, s, extra, strat) =~= (prefix + seq![
            pack_coord(nx, nz, y),
        ]) + naive_trace(map, y, nx, nz, ex, ez, s, extra, strat),
{
    assert(naive_trace(map, y, cx, cz, ex, ez, s, extra, strat) == seq![pack_coord(nx, nz, y)]
        + naive_trace(map, y, nx, nz, ex, ez, s, extra, strat));
}

/// Non-searching fallback: from the source anchor, repeatedly take the
/// single compass step that most directly approaches the destination
/// footprint, diagonals first, and stop at the target tile, at the first
/// blocked step, or at a dead end. Never backtracks, never explores
/// alternatives. The step checks use the square footprint of the source
/// width.
#[verifier::loop_isolation(false)]
#[verifier::rlimit(100)]
pub fn find_naive_path(
    map: &CollisionFlagMap,
    y: i32,
    src_x: i32,
    src_z: i32,
    dest_x: i32,
    dest_z: i32,
    src_width: u8,
    src_height: u8,
    dest_width: u8,
    dest_height: u8,
    extra_flag: u32,
    strategy: &CollisionStrategies,
) -> (r: Vec<u32>)
    requires
        src_width >= 1,
        src_height >= 1,
        dest_width >= 1,
        dest_height >= 1,
    ensures
        r@ == spec_naive_path(
            *map,
            y as int,
            src_x as int,
            src_z as int,
            dest_x as int,
            dest_z as int,
            src_width as int,
            dest_width as int,
            dest_height as int,
            extra_flag,
            *strategy,
        ),
{
    let yi = y as i64;
    let x0 = src_x as i64;
    let z0 = src_z as i64;
    let ex: i64 = {
        let d = dest_x as i64;
        if x0 < d {
            d
        } else if x0 > d + (dest_width as i64 - 1) {
            d + (dest_width as i64 - 1)
        } else {
            x0
        }
    };
    let ez: i64 = {
        let d = dest_z as i64;
        if z0 < d {
            d
        } else if z0 > d + (dest_height as i64 - 1) {
            d + (dest_height as i64 - 1)
        } else {
            z0
        }
    };
    proof {
        assert(ex as int == closest_in(dest_x as int, dest_width as int, src_x as int));
        assert(ez as int == closest_in(dest_z as int, dest_height as int, src_z as int));
    }
    let mut cx: i64 = x0;
    let mut cz: i64 = z0;
    let mut out: Vec<u32> = Vec::new();
    while cx != ex || cz != ez
        invariant
            -0x80000000 <= yi <= 0x80000000,
            -0x80000100 <= cx <= 0x80000100,
            -0x80000100 <= cz <= 0x80000100,
            naive_trace(
                *map,
                yi as int,
                x0 as int,
                z0 as int,
                ex as int,
                ez as int,
                src_width as int,
                extra_flag,
                *strategy,
            ) == out@ + naive_trace(
                *map,
                yi as int,
                cx as int,
                cz as int,
                ex as int,
                ez as int,
                src_width as int,
                extra_flag,
                *strategy,
            ),
        decreases iabs(ex as int - cx as int) + iabs(ez as int - cz as int),
    {
        let sx: i64 = if ex > cx {
            1
        } else if ex < cx {
            -1
        } else {
            0
        };
        let sz: i64 = if ez > cz {
            1
        } else if ez < cz {
            -1
        } else {
            0
        };
        let diag_ok: bool = sx != 0 && sz != 0 && can_travel_wide(
            map,
            yi,
            cx,
            cz,
            sx as i8,
            sz as i8,
            src_width,
            extra_flag,
            strategy,
        );
        let h_ok: bool = sx != 0 && can_travel_wide(
            map,
            yi,
            cx,
            cz,
            sx as i8,
            0,
            src_width,
            extra_flag,
            strategy,
        );
        let v_ok: bool = sz != 0 && can_travel_wide(
            map,
            yi,
            cx,
            cz,
            0,
            sz as i8,
            src_width,
            extra_flag,
            strategy,
        );
        let (nx, nz): (i64, i64) = if diag_ok {
            (cx + sx, cz + sz)
        } else if h_ok {
            (cx + sx, cz)
        } else if v_ok {
            (cx, cz + sz)
        } else {
            proof {
                assert(naive_step(
                    *map,
                    yi as int,
                    cx as int,
                    cz as int,
                    ex as int,
                    ez as int,
                    src_width as int,
                    extra_flag,
                    *strategy,
                ) is None);
                assert(out@ + Seq::<u32>::empty() =~= out@);
            }
            return out;
        };
        let p = pack_coord_at(nx, nz, yi);
        proof {
            assert(naive_step(
                *map,
                yi as int,
                cx as int,
                cz as int,
                ex as int,
                ez as int,
                src_width as int,
                extra_flag,
                *strategy,
            ) == Some((nx as int, nz as int)));
            lemma_naive_unfold(
                *map,
                yi as int,
                cx as int,
                cz as int,
                ex as int,
                ez as int,
                src_width as int,
                extra_flag,
                *strategy,
                nx as int,
                nz as int,
                out@,
            );
        }
        out.push(p);
        cx = nx;
        cz = nz;
    }
    proof {
        assert(out@ + Seq::<u32>::empty() =~= out@);
    }
    out
}

} // verus!
