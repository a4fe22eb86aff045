//! The collision flag store: a sparse, zone-allocated 3D bitmask grid.
//!
//! The world is a 16384 x 16384 grid of tiles on 4 planes, partitioned into
//! 8 x 8 zones whose storage is allocated on demand. A tile in an unallocated
//! zone reads as flag word zero for every query; allocation is purely a
//! memory-management concern and never changes query results. Out-of-range
//! coordinates are accepted silently: every coordinate is reduced modulo the
//! world size (and the plane modulo the plane count) before use, so a
//! far-flung tile is just another tile.

use vstd::prelude::*;
use vstd::arithmetic::div_mod::{
    lemma_div_denominator, lemma_fundamental_div_mod_converse_div,
    lemma_fundamental_div_mod_converse_mod, lemma_mod_multiples_vanish,
};
use std::collections::HashMap;

verus! {

broadcast use vstd::std_specs::hash::group_hash_axioms;

/// Tiles per axis; horizontal coordinates wrap at this bound.
pub const WORLD_SIZE: u32 = 16384;

/// Vertical planes; plane indices wrap at this bound.
pub const PLANE_COUNT: u32 = 4;

/// Tiles per zone edge.
pub const ZONE_SIZE: u32 = 8;

/// A horizontal coordinate reduced to the canonical range `[0, 16384)`.
pub open spec fn wcoord(v: int) -> int {
    v % 16384
}

/// A plane index reduced to the canonical range `[0, 4)`.
pub open spec fn wplane(v: int) -> int {
    v % 4
}

/// Canonical tile coordinates: both horizontal coordinates in `[0, 16384)`
/// and the plane in `[0, 4)`.
pub open spec fn canon(x: int, z: int, y: int) -> bool {
    &&& 0 <= x < 16384
    &&& 0 <= z < 16384
    &&& 0 <= y < 4
}

/// Storage key of a canonical tile.
pub open spec fn tile_key(x: int, z: int, y: int) -> int {
    x + z * 16384 + y * 0x10000000
}

/// Storage key of a zone, from canonical zone coordinates (tile coordinates
/// divided by the zone edge).
pub open spec fn zone_key(zx: int, zz: int, y: int) -> int {
    zx + zz * 2048 + y * 0x400000
}

/// Storage key of the zone containing a canonical tile.
pub open spec fn zone_key_of(x: int, z: int, y: int) -> int {
    zone_key(x / 8, z / 8, y)
}

/// Whether two canonical tiles lie in the same zone.
pub open spec fn same_zone(a: int, b: int, c: int, x: int, z: int, y: int) -> bool {
    &&& a / 8 == x / 8
    &&& b / 8 == z / 8
    &&& c == y
}

/// The canonical tile whose storage key is `k`.
pub open spec fn key_x(k: int) -> int {
    k % 16384
}

pub open spec fn key_z(k: int) -> int {
    (k / 16384) % 16384
}

pub open spec fn key_y(k: int) -> int {
    k / 0x10000000
}

proof fn lemma_tile_key_decompose(x: int, z: int, y: int)
    requires
        canon(x, z, y),
    ensures
        0 <= tile_key(x, z, y) < 0x40000000,
        key_x(tile_key(x, z, y)) == x,
        key_z(tile_key(x, z, y)) == z,
        key_y(tile_key(x, z, y)) == y,
{
    let k = tile_key(x, z, y);
    let q = z + 16384 * y;
    assert(k == q * 16384 + x);
    lemma_fundamental_div_mod_converse_mod(k, 16384, q, x);
    lemma_fundamental_div_mod_converse_div(k, 16384, q, x);
    assert(q == y * 16384 + z);
    lemma_fundamental_div_mod_converse_mod(q, 16384, y, z);
    lemma_fundamental_div_mod_converse_div(q, 16384, y, z);
    lemma_div_denominator(k, 16384, 16384);
}

proof fn lemma_tile_key_injective(a: int, b: int, c: int, x: int, z: int, y: int)
    requires
        canon(a, b, c),
        canon(x, z, y),
        tile_key(a, b, c) == tile_key(x, z, y),
    ensures
        a == x && b == z && c == y,
{
    lemma_tile_key_decompose(a, b, c);
    lemma_tile_key_decompose(x, z, y);
}

proof fn lemma_key_canon(k: int)
    requires
        0 <= k < 0x40000000,
    ensures
        canon(key_x(k), key_z(k), key_y(k)),
        tile_key(key_x(k), key_z(k), key_y(k)) == k,
{
    vstd::arithmetic::div_mod::lemma_fundamental_div_mod(k, 16384);
    vstd::arithmetic::div_mod::lemma_fundamental_div_mod(k / 16384, 16384);
    lemma_div_denominator(k, 16384, 16384);
    vstd::arithmetic::div_mod::lemma_div_pos_is_pos(k, 16384);
    vstd::arithmetic::div_mod::lemma_div_pos_is_pos(k / 16384, 16384);
}

proof fn lemma_zone_key_injective(a: int, b: int, c: int, x: int, z: int, y: int)
    requires
        0 <= a < 2048,
        0 <= b < 2048,
        0 <= c < 4,
        0 <= x < 2048,
        0 <= z < 2048,
        0 <= y < 4,
        zone_key(a, b, c) == zone_key(x, z, y),
    ensures
        a == x && b == z && c == y,
{
    let k = zone_key(a, b, c);
    lemma_fundamental_div_mod_converse_mod(k, 2048, b + 2048 * c, a);
    lemma_fundamental_div_mod_converse_div(k, 2048, b + 2048 * c, a);
    lemma_fundamental_div_mod_converse_mod(k, 2048, z + 2048 * y, x);
    lemma_fundamental_div_mod_converse_div(k, 2048, z + 2048 * y, x);
    let q = k / 2048;
    lemma_fundamental_div_mod_converse_mod(q, 2048, c, b);
    lemma_fundamental_div_mod_converse_div(q, 2048, c, b);
    lemma_fundamental_div_mod_converse_mod(q, 2048, y, z);
    lemma_fundamental_div_mod_converse_div(q, 2048, y, z);
}

/// Reduce a horizontal coordinate to the canonical range.
pub(crate) fn wrap_coord(v: i64) -> (r: u32)
    requires
        -0x2000000000000000 <= v < 0x2000000000000000,
    ensures
        0 <= r < 16384,
        r == wcoord(v as int),
{
    let u: u64 = (v + 0x2000000000000000) as u64;
    proof {
        lemma_mod_multiples_vanish(0x800000000000, v as int, 16384);
    }
    (u % 16384) as u32
}

/// Reduce a plane index to the canonical range.
pub(crate) fn wrap_plane(v: i64) -> (r: u32)
    requires
        -0x2000000000000000 <= v < 0x2000000000000000,
    ensures
        0 <= r < 4,
        r == wplane(v as int),
{
    let u: u64 = (v + 0x2000000000000000) as u64;
    proof {
        lemma_mod_multiples_vanish(0x800000000000000, v as int, 4);
    }
    (u % 4) as u32
}

fn tile_key_exec(cx: u32, cz: u32, cy: u32) -> (k: u64)
    requires
        cx < 16384,
        cz < 16384,
        cy < 4,
    ensures
        k == tile_key(cx as int, cz as int, cy as int),
{
    cx as u64 + cz as u64 * 16384 + cy as u64 * 0x10000000
}

fn zone_key_exec(cx: u32, cz: u32, cy: u32) -> (k: u64)
    requires
        cx < 16384,
        cz < 16384,
        cy < 4,
    ensures
        k == zone_key_of(cx as int, cz as int, cy as int),
{
    (cx / 8) as u64 + (cz / 8) as u64 * 2048 + cy as u64 * 0x400000
}

/// A tile packed into one word: the canonical `z` in the low 14 bits, the
/// canonical `x` in the next 14, the plane in the two above.
pub open spec fn pack_coord(x: int, z: int, y: int) -> u32 {
    (wcoord(z) + wcoord(x) * 0x4000 + wplane(y) * 0x10000000) as u32
}

/// Pack a tile coordinate into one word.
pub fn pack_coord_at(x: i64, z: i64, y: i64) -> (r: u32)
    requires
        -0x2000000000000000 <= x < 0x2000000000000000,
        -0x2000000000000000 <= z < 0x2000000000000000,
        -0x2000000000000000 <= y < 0x2000000000000000,
    ensures
        r == pack_coord(x as int, z as int, y as int),
{
    let cx = wrap_coord(x);
    let cz = wrap_coord(z);
    let cy = wrap_plane(y);
    cz + cx * 0x4000 + cy * 0x10000000
}

/// The flag word of a tile named by raw (unreduced) coordinates.
pub open spec fn raw_flags(s: CollisionFlagMap, x: int, z: int, y: int) -> u32 {
    s.flags_at(wcoord(x), wcoord(z), wplane(y))
}

/// Law: zone allocation is transparent. `allocate_if_absent` ensures that
/// the flag word of every tile is unchanged; this lemma records that the
/// results of the two flag queries, `get` (the flag word itself) and
/// `is_flagged` (any bit of a mask set), are then identical before and
/// after, for every tile and every mask.
pub proof fn lemma_zone_transparency(s0: CollisionFlagMap, s1: CollisionFlagMap)
    requires
        forall|a: int, b: int, c: int| #[trigger]
            s1.flags_at(a, b, c) == s0.flags_at(a, b, c),
    ensures
        forall|a: int, b: int, c: int, m: u32|
            (#[trigger] (s1.flags_at(a, b, c) & m) != 0) == (s0.flags_at(a, b, c) & m != 0),
{
}

/// Law: `add(mask)` followed by `remove(mask)` on the same tile restores
/// the flag word of every tile of the store, provided the added bits were
/// clear on that tile before the `add`. (When some of the bits were already
/// set by another contributor, the removal clears them too: the store keeps
/// no reference counts, which is a documented caller obligation.)
///
/// The two quantified hypotheses are exactly what the `add` and `remove`
/// contracts ensure about the flag words.
pub proof fn lemma_add_remove_inverse(
    s0: CollisionFlagMap,
    s1: CollisionFlagMap,
    s2: CollisionFlagMap,
    x: int,
    z: int,
    y: int,
    mask: u32,
)
    requires
        canon(x, z, y),
        s0.flags_at(x, z, y) & mask == 0,
        forall|a: int, b: int, c: int|
            canon(a, b, c) ==> #[trigger] s1.flags_at(a, b, c) == (if a == x && b == z && c == y {
                s0.flags_at(a, b, c) | mask
            } else {
                s0.flags_at(a, b, c)
            }),
        forall|a: int, b: int, c: int|
            canon(a, b, c) ==> #[trigger] s2.flags_at(a, b, c) == (if a == x && b == z && c == y {
                s1.flags_at(a, b, c) & !mask
            } else {
                s1.flags_at(a, b, c)
            }),
    ensures
        forall|a: int, b: int, c: int|
            canon(a, b, c) ==> #[trigger] s2.flags_at(a, b, c) == s0.flags_at(a, b, c),
{
    assert forall|a: int, b: int, c: int| canon(a, b, c) implies #[trigger] s2.flags_at(a, b, c)
        == s0.flags_at(a, b, c) by {
        if a == x && b == z && c == y {
            let t = s0.flags_at(x, z, y);
            assert(t & mask == 0 ==> ((t | mask) & !mask) == t) by (bit_vector);
        }
    }
}

/// The sparse collision flag store.
///
/// `tiles` holds the flag word of every tile that has been written; `zones`
/// holds the keys of every allocated zone. A tile entry exists only inside
/// an allocated zone, so a tile without an entry reads as zero.
pub struct CollisionFlagMap {
    tiles: HashMap<u64, u32>,
    zones: HashMap<u64, bool>,
}

impl CollisionFlagMap {
    /// Internal well-formedness: every stored tile key is a valid canonical
    /// key and its zone is allocated.
    pub closed spec fn wf(self) -> bool {
        forall|k: u64| #[trigger]
            self.tiles@.contains_key(k) ==> 0 <= k < 0x40000000 && self.zones@.contains_key(
                zone_key(key_x(k as int) / 8, key_z(k as int) / 8, key_y(k as int)) as u64,
            )
    }

    /// The flag word of the canonical tile `(x, z, y)`.
    pub closed spec fn flags_at(self, x: int, z: int, y: int) -> u32 {
        if self.tiles@.contains_key(tile_key(x, z, y) as u64) {
            self.tiles@[tile_key(x, z, y) as u64]
        } else {
            0
        }
    }

    /// Whether the zone containing the canonical tile `(x, z, y)` is
    /// allocated.
    pub closed spec fn zone_at(self, x: int, z: int, y: int) -> bool {
        self.zones@.contains_key(zone_key_of(x, z, y) as u64)
    }

    /// Create an empty store: nothing allocated, every tile fully open.
    pub fn new() -> (r: CollisionFlagMap)
        ensures
            r.wf(),
            forall|a: int, b: int, c: int| #[trigger] r.flags_at(a, b, c) == 0,
            forall|a: int, b: int, c: int| !#[trigger] r.zone_at(a, b, c),
    {
        CollisionFlagMap { tiles: HashMap::new(), zones: HashMap::new() }
    }

    /// Read the flag word of a tile. A tile in an unallocated zone (or one
    /// never written) reads as zero.
    pub fn get(&self, x: i32, z: i32, y: i32) -> (r: u32)
        ensures
            r == self.flags_at(wcoord(x as int), wcoord(z as int), wplane(y as int)),
    {
        self.get_wide(x as i64, z as i64, y as i64)
    }

    /// Read the flag word of a tile, with coordinates already widened; used
    /// by the traversal algorithms, whose coordinate arithmetic runs in
    /// `i64`.
    pub(crate) fn get_wide(&self, x: i64, z: i64, y: i64) -> (r: u32)
        requires
            -0x2000000000000000 <= x < 0x2000000000000000,
            -0x2000000000000000 <= z < 0x2000000000000000,
            -0x2000000000000000 <= y < 0x2000000000000000,
        ensures
            r == self.flags_at(wcoord(x as int), wcoord(z as int), wplane(y as int)),
    {
        let cx = wrap_coord(x);
        let cz = wrap_coord(z);
        let cy = wrap_plane(y);
        let k = tile_key_exec(cx, cz, cy);
        match self.tiles.get(&k) {
            Some(v) => *v,
            None => 0,
        }
    }

    /// True if any bit of `masks` is set on the tile.
    pub fn is_flagged(&self, x: i32, z: i32, y: i32, masks: u32) -> (r: bool)
        ensures
            r == (self.flags_at(wcoord(x as int), wcoord(z as int), wplane(y as int)) & masks
                != 0),
    {
        self.get(x, z, y) & masks != 0
    }

    /// Whether the zone containing the tile is allocated.
    pub fn is_zone_allocated(&self, x: i32, z: i32, y: i32) -> (r: bool)
        ensures
            r == self.zone_at(wcoord(x as int), wcoord(z as int), wplane(y as int)),
    {
        let cx = wrap_coord(x as i64);
        let cz = wrap_coord(z as i64);
        let cy = wrap_plane(y as i64);
        let zk = zone_key_exec(cx, cz, cy);
        self.zones.contains_key(&zk)
    }

    /// Allocate the zone containing the tile if it is not allocated yet.
    /// Idempotent, and invisible to every flag query.
    pub fn allocate_if_absent(&mut self, x: i32, z: i32, y: i32)
        requires
            old(self).wf(),
        ensures
            final(self).wf(),
            forall|a: int, b: int, c: int| #[trigger]
                final(self).flags_at(a, b, c) == old(self).flags_at(a, b, c),
            forall|a: int, b: int, c: int|
                canon(a, b, c) ==> #[trigger] final(self).zone_at(a, b, c) == (old(self).zone_at(
                    a,
                    b,
                    c,
                ) || same_zone(
                    a,
                    b,
                    c,
                    wcoord(x as int),
                    wcoord(z as int),
                    wplane(y as int),
                )),
    {
        let cx = wrap_coord(x as i64);
        let cz = wrap_coord(z as i64);
        let cy = wrap_plane(y as i64);
        let zk = zone_key_exec(cx, cz, cy);
        self.zones.insert(zk, true);
        proof {
            assert forall|a: int, b: int, c: int| canon(a, b, c) implies #[trigger] self.zone_at(
                a,
                b,
                c,
            ) == (old(self).zone_at(a, b, c) || same_zone(
                a,
                b,
                c,
                cx as int,
                cz as int,
                cy as int,
            )) by {
                if zone_key_of(a, b, c) == zone_key_of(cx as int, cz as int, cy as int) {
                    lemma_zone_key_injective(
                        a / 8,
                        b / 8,
                        c,
                        cx as int / 8,
                        cz as int / 8,
                        cy as int,
                    );
                }
            }
        }
    }

    /// Write `new_word` to the tile, allocating its zone first if absent,
    /// and prove the effect on every tile and zone of the store.
    fn write_word(&mut self, cx: u32, cz: u32, cy: u32, new_word: u32)
        requires
            old(self).wf(),
            cx < 16384,
            cz < 16384,
            cy < 4,
        ensures
            final(self).wf(),
            forall|a: int, b: int, c: int|
                canon(a, b, c) ==> #[trigger] final(self).flags_at(a, b, c) == (if a == cx as int
                    && b == cz as int && c == cy as int {
                    new_word
                } else {
                    old(self).flags_at(a, b, c)
                }),
            forall|a: int, b: int, c: int|
                canon(a, b, c) ==> #[trigger] final(self).zone_at(a, b, c) == (old(self).zone_at(
                    a,
                    b,
                    c,
                ) || same_zone(a, b, c, cx as int, cz as int, cy as int)),
    {
        let zk = zone_key_exec(cx, cz, cy);
        let k = tile_key_exec(cx, cz, cy);
        self.zones.insert(zk, true);
        self.tiles.insert(k, new_word);
        proof {
            lemma_tile_key_decompose(cx as int, cz as int, cy as int);
            assert forall|a: int, b: int, c: int| canon(a, b, c) implies #[trigger] self.flags_at(
                a,
                b,
                c,
            ) == (if a == cx as int && b == cz as int && c == cy as int {
                new_word
            } else {
                old(self).flags_at(a, b, c)
            }) by {
                if tile_key(a, b, c) == tile_key(cx as int, cz as int, cy as int) {
                    lemma_tile_key_injective(a, b, c, cx as int, cz as int, cy as int);
                }
            }
            assert forall|a: int, b: int, c: int| canon(a, b, c) implies #[trigger] self.zone_at(
                a,
                b,
                c,
            ) == (old(self).zone_at(a, b, c) || same_zone(
                a,
                b,
                c,
                cx as int,
                cz as int,
                cy as int,
            )) by {
                if zone_key_of(a, b, c) == zone_key_of(cx as int, cz as int, cy as int) {
                    lemma_zone_key_injective(
                        a / 8,
                        b / 8,
                        c,
                        cx as int / 8,
                        cz as int / 8,
                        cy as int,
                    );
                }
            }
        }
    }

    /// Overwrite the flag word of a tile, allocating its zone first if
    /// absent. Every other tile and zone is untouched.
    pub fn set(&mut self, x: i32, z: i32, y: i32, mask: u32)
        requires
            old(self).wf(),
        ensures
            final(self).wf(),
            forall|a: int, b: int, c: int|
                canon(a, b, c) ==> #[trigger] final(self).flags_at(a, b, c) == (if a == wcoord(
                    x as int,
                ) && b == wcoord(z as int) && c == wplane(y as int) {
                    mask
                } else {
                    old(self).flags_at(a, b, c)
                }),
            forall|a: int, b: int, c: int|
                canon(a, b, c) ==> #[trigger] final(self).zone_at(a, b, c) == (old(self).zone_at(
                    a,
                    b,
                    c,
                ) || same_zone(
                    a,
                    b,
                    c,
                    wcoord(x as int),
                    wcoord(z as int),
                    wplane(y as int),
                )),
    {
        let cx = wrap_coord(x as i64);
        let cz = wrap_coord(z as i64);
        let cy = wrap_plane(y as i64);
        self.write_word(cx, cz, cy, mask)
    }

    /// OR `mask` into the flag word of a tile, allocating its zone first if
    /// absent. Every other tile and zone is untouched.
    pub fn add(&mut self, x: i32, z: i32, y: i32, mask: u32)
        requires
            old(self).wf(),
        ensures
            final(self).wf(),
            forall|a: int, b: int, c: int|
                canon(a, b, c) ==> #[trigger] final(self).flags_at(a, b, c) == (if a == wcoord(
                    x as int,
                ) && b == wcoord(z as int) && c == wplane(y as int) {
                    old(self).flags_at(a, b, c) | mask
                } else {
                    old(self).flags_at(a, b, c)
                }),
            forall|a: int, b: int, c: int|
                canon(a, b, c) ==> #[trigger] final(self).zone_at(a, b, c) == (old(self).zone_at(
                    a,
                    b,
                    c,
                ) || same_zone(
                    a,
                    b,
                    c,
                    wcoord(x as int),
                    wcoord(z as int),
                    wplane(y as int),
                )),
    {
        self.add_wide(x as i64, z as i64, y as i64, mask)
    }

    /// `add` with coordinates already widened; used where neighbor
    /// arithmetic runs in `i64`.
    pub(crate) fn add_wide(&mut self, x: i64, z: i64, y: i64, mask: u32)
        requires
            old(self).wf(),
            -0x2000000000000000 <= x < 0x2000000000000000,
            -0x2000000000000000 <= z < 0x2000000000000000,
            -0x2000000000000000 <= y < 0x2000000000000000,
        ensures
            final(self).wf(),
            forall|a: int, b: int, c: int|
                canon(a, b, c) ==> #[trigger] final(self).flags_at(a, b, c) == (if a == wcoord(
                    x as int,
                ) && b == wcoord(z as int) && c == wplane(y as int) {
                    old(self).flags_at(a, b, c) | mask
                } else {
                    old(self).flags_at(a, b, c)
                }),
            forall|a: int, b: int, c: int|
                canon(a, b, c) ==> #[trigger] final(self).zone_at(a, b, c) == (old(self).zone_at(
                    a,
                    b,
                    c,
                ) || same_zone(
                    a,
                    b,
                    c,
                    wcoord(x as int),
                    wcoord(z as int),
                    wplane(y as int),
                )),
    {
        let cx = wrap_coord(x);
        let cz = wrap_coord(z);
        let cy = wrap_plane(y);
        let cur = self.get_wide(x, z, y);
        self.write_word(cx, cz, cy, cur | mask)
    }

    /// AND-NOT `mask` out of the flag word of a tile. On a tile of an
    /// unallocated zone this is a no-op, not an error; no zone is ever
    /// allocated by a removal.
    pub fn remove(&mut self, x: i32, z: i32, y: i32, mask: u32)
        requires
            old(self).wf(),
        ensures
            final(self).wf(),
            forall|a: int, b: int, c: int|
                canon(a, b, c) ==> #[trigger] final(self).flags_at(a, b, c) == (if a == wcoord(
                    x as int,
                ) && b == wcoord(z as int) && c == wplane(y as int) {
                    old(self).flags_at(a, b, c) & !mask
                } else {
                    old(self).flags_at(a, b, c)
                }),
            forall|a: int, b: int, c: int|
                canon(a, b, c) ==> #[trigger] final(self).zone_at(a, b, c) == old(self).zone_at(
                    a,
                    b,
                    c,
                ),
    {
        self.remove_wide(x as i64, z as i64, y as i64, mask)
    }

    /// `remove` with coordinates already widened; used where neighbor
    /// arithmetic runs in `i64`.
    pub(crate) fn remove_wide(&mut self, x: i64, z: i64, y: i64, mask: u32)
        requires
            old(self).wf(),
            -0x2000000000000000 <= x < 0x2000000000000000,
            -0x2000000000000000 <= z < 0x2000000000000000,
            -0x2000000000000000 <= y < 0x2000000000000000,
        ensures
            final(self).wf(),
            forall|a: int, b: int, c: int|
                canon(a, b, c) ==> #[trigger] final(self).flags_at(a, b, c) == (if a == wcoord(
                    x as int,
                ) && b == wcoord(z as int) && c == wplane(y as int) {
                    old(self).flags_at(a, b, c) & !mask
                } else {
                    old(self).flags_at(a, b, c)
                }),
            forall|a: int, b: int, c: int|
                canon(a, b, c) ==> #[trigger] final(self).zone_at(a, b, c) == old(self).zone_at(
                    a,
                    b,
                    c,
                ),
    {
        let cx = wrap_coord(x);
        let cz = wrap_coord(z);
        let cy = wrap_plane(y);
        let k = tile_key_exec(cx, cz, cy);
        let cur = match self.tiles.get(&k) {
            Some(v) => Some(*v),
            None => None,
        };
        match cur {
            Some(v) => {
                self.tiles.insert(k, v & !mask);
                proof {
                    lemma_tile_key_decompose(cx as int, cz as int, cy as int);
                    assert forall|a: int, b: int, c: int| canon(a, b, c) implies #[trigger]
                        self.flags_at(a, b, c) == (if a == cx as int && b == cz as int && c
                            == cy as int {
                        old(self).flags_at(a, b, c) & !mask
                    } else {
                        old(self).flags_at(a, b, c)
                    }) by {
                        if tile_key(a, b, c) == tile_key(cx as int, cz as int, cy as int) {
                            lemma_tile_key_injective(a, b, c, cx as int, cz as int, cy as int);
                        }
                    }
                }
            },
            None => {
                proof {
                    assert forall|a: int, b: int, c: int| canon(a, b, c) implies #[trigger]
                        self.flags_at(a, b, c) == (if a == cx as int && b == cz as int && c
                            == cy as int {
                        old(self).flags_at(a, b, c) & !mask
                    } else {
                        old(self).flags_at(a, b, c)
                    }) by {
                        if a == cx as int && b == cz as int && c == cy as int {
                            assert(old(self).flags_at(a, b, c) == 0);
                            assert(0u32 & !mask == 0u32) by (bit_vector);
                        }
                    }
                }
            },
        }
    }

    /// Deallocate the zone containing the tile if it is allocated.
    /// Idempotent. Every tile of the zone reads as zero afterwards; every
    /// other tile and zone is untouched.
    pub fn deallocate_if_present(&mut self, x: i32, z: i32, y: i32)
        requires
            old(self).wf(),
        ensures
            final(self).wf(),
            forall|a: int, b: int, c: int|
                canon(a, b, c) ==> #[trigger] final(self).flags_at(a, b, c) == (if same_zone(
                    a,
                    b,
                    c,
                    wcoord(x as int),
                    wcoord(z as int),
                    wplane(y as int),
                ) {
                    0u32
                } else {
                    old(self).flags_at(a, b, c)
                }),
            forall|a: int, b: int, c: int|
                canon(a, b, c) ==> #[trigger] final(self).zone_at(a, b, c) == (old(self).zone_at(
                    a,
                    b,
                    c,
                ) && !same_zone(
                    a,
                    b,
                    c,
                    wcoord(x as int),
                    wcoord(z as int),
                    wplane(y as int),
                )),
    {
        let cx = wrap_coord(x as i64);
        let cz = wrap_coord(z as i64);
        let cy = wrap_plane(y as i64);
        let zx: u32 = cx / 8;
        let zz: u32 = cz / 8;
        let mut i: u32 = 0;
        while i < 64
            invariant
                old(self).wf(),
                i <= 64,
                cx < 16384,
                cz < 16384,
                cy < 4,
                zx == cx as int / 8,
                zz == cz as int / 8,
                self.zones@ == old(self).zones@,
                forall|k: u64| #[trigger]
                    self.tiles@.contains_key(k) ==> old(self).tiles@.contains_key(k)
                        && self.tiles@[k] == old(self).tiles@[k],
                forall|a: int, b: int, c: int|
                    canon(a, b, c) && !same_zone(a, b, c, cx as int, cz as int, cy as int)
                        ==> self.tiles@.contains_key(tile_key(a, b, c) as u64) == old(
                        self,
                    ).tiles@.contains_key(tile_key(a, b, c) as u64),
                forall|a: int, b: int, c: int|
                    canon(a, b, c) && same_zone(a, b, c, cx as int, cz as int, cy as int) && 8 * (b
                        % 8) + (a % 8) < i ==> !self.tiles@.contains_key(tile_key(a, b, c) as u64),
            decreases 64 - i,
        {
            let lx: u32 = i % 8;
            let lz: u32 = i / 8;
            let tx: u32 = zx * 8 + lx;
            let tz: u32 = zz * 8 + lz;
            proof {
                lemma_fundamental_div_mod_converse_div(tx as int, 8, zx as int, lx as int);
                lemma_fundamental_div_mod_converse_mod(tx as int, 8, zx as int, lx as int);
                lemma_fundamental_div_mod_converse_div(tz as int, 8, zz as int, lz as int);
                lemma_fundamental_div_mod_converse_mod(tz as int, 8, zz as int, lz as int);
            }
            let k = tile_key_exec(tx, tz, cy);
            self.tiles.remove(&k);
            proof {
                assert forall|a: int, b: int, c: int|
                    canon(a, b, c) && !same_zone(
                        a,
                        b,
                        c,
                        cx as int,
                        cz as int,
                        cy as int,
                    ) implies self.tiles@.contains_key(tile_key(a, b, c) as u64) == old(
                    self,
                ).tiles@.contains_key(tile_key(a, b, c) as u64) by {
                    if tile_key(a, b, c) == tile_key(tx as int, tz as int, cy as int) {
                        lemma_tile_key_injective(a, b, c, tx as int, tz as int, cy as int);
                    }
                }
                assert forall|a: int, b: int, c: int|
                    canon(a, b, c) && same_zone(a, b, c, cx as int, cz as int, cy as int) && 8 * (b
                        % 8) + (a % 8) < i + 1 implies !self.tiles@.contains_key(
                    tile_key(a, b, c) as u64,
                ) by {
                    if 8 * (b % 8) + (a % 8) == i as int {
                        vstd::arithmetic::div_mod::lemma_fundamental_div_mod(a, 8);
                        vstd::arithmetic::div_mod::lemma_fundamental_div_mod(b, 8);
                        assert(a % 8 == lx as int && b % 8 == lz as int);
                        assert(a == tx as int && b == tz as int && c == cy as int);
                    }
                }
            }
            i += 1;
        }
        let zk = zone_key_exec(cx, cz, cy);
        self.zones.remove(&zk);
        proof {
            let xi = cx as int;
            let zi = cz as int;
            let yi = cy as int;
            assert forall|a: int, b: int, c: int| canon(a, b, c) implies #[trigger] self.zone_at(
                a,
                b,
                c,
            ) == (old(self).zone_at(a, b, c) && !same_zone(a, b, c, xi, zi, yi)) by {
                if zone_key_of(a, b, c) == zone_key_of(xi, zi, yi) {
                    lemma_zone_key_injective(a / 8, b / 8, c, xi / 8, zi / 8, yi);
                }
            }
            assert forall|a: int, b: int, c: int| canon(a, b, c) implies #[trigger] self.flags_at(
                a,
                b,
                c,
            ) == (if same_zone(a, b, c, xi, zi, yi) {
                0u32
            } else {
                old(self).flags_at(a, b, c)
            }) by {
                if same_zone(a, b, c, xi, zi, yi) {
                    assert(8 * (b % 8) + (a % 8) < 64);
                }
            }
            assert forall|k: u64| #[trigger] self.tiles@.contains_key(k) implies 0 <= k
                < 0x40000000 && self.zones@.contains_key(
                zone_key(key_x(k as int) / 8, key_z(k as int) / 8, key_y(k as int)) as u64,
            ) by {
                let a = key_x(k as int);
                let b = key_z(k as int);
                let c = key_y(k as int);
                lemma_key_canon(k as int);
                if zone_key(a / 8, b / 8, c) == zone_key_of(xi, zi, yi) {
                    lemma_zone_key_injective(a / 8, b / 8, c, xi / 8, zi / 8, yi);
                    assert(same_zone(a, b, c, xi, zi, yi));
                    assert(8 * (b % 8) + (a % 8) < 64);
                    assert(!self.tiles@.contains_key(tile_key(a, b, c) as u64));
                }
            }
        }
    }
}

} // verus!
