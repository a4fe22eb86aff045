//! Rectangular footprint placement: scenery footprints, NPC and player
//! occupancy, blocked floors and roofs.
//!
//! Each operation applies one fixed mask to every tile of a rectangle
//! anchored at `(x, z)` with the given width and length on one plane; a
//! scenery footprint additionally carries the projectile-blocker and
//! route-blocker scenery bits when the caller requests blocking scenery.

use vstd::prelude::*;
use crate::collision::{canon, same_zone, wcoord, wplane, CollisionFlagMap};
use crate::flags;
use crate::wall::{apply_mask, spec_wall_bits};

verus! {

/// Whether the canonical tile `(a, b, c)` lies in the rectangle of `w` x
/// `l` tiles anchored at `(x, z)` on plane `y`.
pub open spec fn in_footprint(
    a: int,
    b: int,
    c: int,
    x: int,
    z: int,
    y: int,
    w: int,
    l: int,
) -> bool {
    exists|i: int, j: int|
        #![trigger wcoord(x + i), wcoord(z + j)]
        0 <= i < w && 0 <= j < l && a == wcoord(x + i) && b == wcoord(z + j) && c == wplane(y)
}

/// Whether the zone of `(a, b, c)` holds some tile of the rectangle.
pub open spec fn zone_in_footprint(
    a: int,
    b: int,
    c: int,
    x: int,
    z: int,
    y: int,
    w: int,
    l: int,
) -> bool {
    exists|i: int, j: int|
        #![trigger wcoord(x + i), wcoord(z + j)]
        0 <= i < w && 0 <= j < l && same_zone(a, b, c, wcoord(x + i), wcoord(z + j), wplane(y))
}

/// The effect of a footprint operation: every tile of the rectangle gets
/// `mask` added or removed, every other tile is untouched; an addition
/// allocates exactly the zones the rectangle meets, a removal touches no
/// zone.
pub open spec fn area_effect(
    s0: CollisionFlagMap,
    s1: CollisionFlagMap,
    x: int,
    z: int,
    y: int,
    w: int,
    l: int,
    mask: u32,
    add: bool,
) -> bool {
    &&& forall|a: int, b: int, c: int|
        canon(a, b, c) ==> #[trigger] s1.flags_at(a, b, c) == (if in_footprint(
            a,
            b,
            c,
            x,
            z,
            y,
            w,
            l,
        ) {
            apply_mask(s0.flags_at(a, b, c), mask, add)
        } else {
            s0.flags_at(a, b, c)
        })
    &&& forall|a: int, b: int, c: int|
        canon(a, b, c) ==> #[trigger] s1.zone_at(a, b, c) == (s0.zone_at(a, b, c) || (add
            && zone_in_footprint(a, b, c, x, z, y, w, l)))
}

proof fn lemma_apply_mask_idempotent(w: u32, m: u32, add: bool)
    ensures
        apply_mask(apply_mask(w, m, add), m, add) == apply_mask(w, m, add),
{
    assert((w | m) | m == w | m) by (bit_vector);
    assert((w & !m) & !m == w & !m) by (bit_vector);
}

/// Tiles handled so far by the row sweep: every full row before `j`, and
/// the first `i` tiles of row `j`.
spec fn covered(a: int, b: int, c: int, x: int, z: int, y: int, w: int, j: int, i: int) -> bool {
    exists|i2: int, j2: int|
        #![trigger wcoord(x + i2), wcoord(z + j2)]
        0 <= i2 < w && 0 <= j2 <= j && (j2 < j || i2 < i) && a == wcoord(x + i2) && b == wcoord(
            z + j2,
        ) && c == wplane(y)
}

spec fn zcovered(a: int, b: int, c: int, x: int, z: int, y: int, w: int, j: int, i: int) -> bool {
    exists|i2: int, j2: int|
        #![trigger wcoord(x + i2), wcoord(z + j2)]
        0 <= i2 < w && 0 <= j2 <= j && (j2 < j || i2 < i) && same_zone(
            a,
            b,
            c,
            wcoord(x + i2),
            wcoord(z + j2),
            wplane(y),
        )
}

/// Apply `mask` to every tile of the rectangle, row by row.
fn change_area(
    map: &mut CollisionFlagMap,
    x: i64,
    z: i64,
    y: i64,
    w: i64,
    l: i64,
    mask: u32,
    add: bool,
)
    requires
        old(map).wf(),
        -0x80000000 <= x <= 0x80000000,
        -0x80000000 <= z <= 0x80000000,
        -0x80000000 <= y <= 0x80000000,
        0 <= w <= 0x80000000,
        0 <= l <= 0x80000000,
    ensures
        final(map).wf(),
        area_effect(*old(map), *final(map), x as int, z as int, y as int, w as int, l as int, mask, add),
{
    let ghost xi = x as int;
    let ghost zi = z as int;
    let ghost yi = y as int;
    let ghost wi = w as int;
    let ghost li = l as int;
    let mut j: i64 = 0;
    while j < l
        invariant
            old(map).wf(),
            map.wf(),
            0 <= j <= l,
            -0x80000000 <= x <= 0x80000000,
            -0x80000000 <= z <= 0x80000000,
            -0x80000000 <= y <= 0x80000000,
            0 <= w <= 0x80000000,
            0 <= l <= 0x80000000,
            xi == x as int && zi == z as int && yi == y as int && wi == w as int && li == l as int,
            forall|a: int, b: int, c: int|
                canon(a, b, c) ==> #[trigger] map.flags_at(a, b, c) == (if covered(
                    a,
                    b,
                    c,
                    xi,
                    zi,
                    yi,
                    wi,
                    j as int,
                    0,
                ) {
                    apply_mask(old(map).flags_at(a, b, c), mask, add)
                } else {
                    old(map).flags_at(a, b, c)
                }),
            forall|a: int, b: int, c: int|
                canon(a, b, c) ==> #[trigger] map.zone_at(a, b, c) == (old(map).zone_at(a, b, c)
                    || (add && zcovered(a, b, c, xi, zi, yi, wi, j as int, 0))),
        decreases l - j,
    {
        let mut i: i64 = 0;
        while i < w
            invariant
                old(map).wf(),
                map.wf(),
                0 <= j < l,
                0 <= i <= w,
                -0x80000000 <= x <= 0x80000000,
                -0x80000000 <= z <= 0x80000000,
                -0x80000000 <= y <= 0x80000000,
                0 <= w <= 0x80000000,
                0 <= l <= 0x80000000,
                xi == x as int && zi == z as int && yi == y as int && wi == w as int && li
                    == l as int,
                forall|a: int, b: int, c: int|
                    canon(a, b, c) ==> #[trigger] map.flags_at(a, b, c) == (if covered(
                        a,
                        b,
                        c,
                        xi,
                        zi,
                        yi,
                        wi,
                        j as int,
                        i as int,
                    ) {
                        apply_mask(old(map).flags_at(a, b, c), mask, add)
                    } else {
                        old(map).flags_at(a, b, c)
                    }),
                forall|a: int, b: int, c: int|
                    canon(a, b, c) ==> #[trigger] map.zone_at(a, b, c) == (old(map).zone_at(a, b, c)
                        || (add && zcovered(a, b, c, xi, zi, yi, wi, j as int, i as int))),
            decreases w - i,
        {
            if add {
                map.add_wide(x + i, z + j, y, mask);
            } else {
                map.remove_wide(x + i, z + j, y, mask);
            }
            proof {
                let ta = wcoord(xi + i);
                let tb = wcoord(zi + j);
                let tc = wplane(yi);
                assert forall|a: int, b: int, c: int| canon(a, b, c) implies #[trigger]
                    map.flags_at(a, b, c) == (if covered(a, b, c, xi, zi, yi, wi, j as int, i + 1) {
                    apply_mask(old(map).flags_at(a, b, c), mask, add)
                } else {
                    old(map).flags_at(a, b, c)
                }) by {
                    if a == ta && b == tb && c == tc {
                        assert(0 <= (i as int) && (i as int) < wi && 0 <= (j as int) && ((
                        j as int) < (j as int) || (i as int) < i + 1) && a == wcoord(xi + i) && b
                            == wcoord(zi + j) && c == wplane(yi));
                        assert(covered(a, b, c, xi, zi, yi, wi, j as int, i + 1));
                        if covered(a, b, c, xi, zi, yi, wi, j as int, i as int) {
                            lemma_apply_mask_idempotent(old(map).flags_at(a, b, c), mask, add);
                        }
                    } else {
                        if covered(a, b, c, xi, zi, yi, wi, j as int, i + 1) {
                            let (i2, j2) = choose|i2: int, j2: int|
                                #![trigger wcoord(xi + i2), wcoord(zi + j2)]
                                0 <= i2 < wi && 0 <= j2 <= j as int && (j2 < j as int || i2 < i + 1)
                                    && a == wcoord(xi + i2) && b == wcoord(zi + j2) && c == wplane(
                                    yi,
                                );
                            if !(j2 < j as int || i2 < i as int) {
                                assert(i2 == i as int && j2 == j as int);
                                assert(false);
                            }
                            assert(covered(a, b, c, xi, zi, yi, wi, j as int, i as int));
                        }
                    }
                }
                assert forall|a: int, b: int, c: int| canon(a, b, c) implies #[trigger]
                    map.zone_at(a, b, c) == (old(map).zone_at(a, b, c) || (add && zcovered(
                    a,
                    b,
                    c,
                    xi,
                    zi,
                    yi,
                    wi,
                    j as int,
                    i + 1,
                ))) by {
                    if add && same_zone(a, b, c, ta, tb, tc) {
                        assert(0 <= (i as int) && (i as int) < wi && 0 <= (j as int) && ((
                        j as int) < (j as int) || (i as int) < i + 1) && same_zone(
                            a,
                            b,
                            c,
                            wcoord(xi + i),
                            wcoord(zi + j),
                            wplane(yi),
                        ));
                        assert(zcovered(a, b, c, xi, zi, yi, wi, j as int, i + 1));
                    }
                    if add && zcovered(a, b, c, xi, zi, yi, wi, j as int, i + 1) && !zcovered(
                        a,
                        b,
                        c,
                        xi,
                        zi,
                        yi,
                        wi,
                        j as int,
                        i as int,
                    ) {
                        let (i2, j2) = choose|i2: int, j2: int|
                            #![trigger wcoord(xi + i2), wcoord(zi + j2)]
                            0 <= i2 < wi && 0 <= j2 <= j as int && (j2 < j as int || i2 < i + 1)
                                && same_zone(a, b, c, wcoord(xi + i2), wcoord(zi + j2), wplane(yi));
                        assert(i2 == i as int && j2 == j as int);
                        assert(same_zone(a, b, c, ta, tb, tc));
                    }
                }
            }
            i += 1;
        }
        proof {
            assert forall|a: int, b: int, c: int|
                covered(a, b, c, xi, zi, yi, wi, j + 1, 0) implies covered(
                a,
                b,
                c,
                xi,
                zi,
                yi,
                wi,
                j as int,
                wi,
            ) by {
                let (i2, j2) = choose|i2: int, j2: int|
                    #![trigger wcoord(xi + i2), wcoord(zi + j2)]
                    0 <= i2 < wi && 0 <= j2 <= j + 1 && (j2 < j + 1 || i2 < 0) && a == wcoord(
                        xi + i2,
                    ) && b == wcoord(zi + j2) && c == wplane(yi);
                assert(0 <= i2 < wi && 0 <= j2 <= j as int && (j2 < j as int || i2 < wi) && a
                    == wcoord(xi + i2) && b == wcoord(zi + j2) && c == wplane(yi));
            }
            assert forall|a: int, b: int, c: int|
                covered(a, b, c, xi, zi, yi, wi, j as int, wi) implies covered(
                a,
                b,
                c,
                xi,
                zi,
                yi,
                wi,
                j + 1,
                0,
            ) by {
                let (i2, j2) = choose|i2: int, j2: int|
                    #![trigger wcoord(xi + i2), wcoord(zi + j2)]
                    0 <= i2 < wi && 0 <= j2 <= j as int && (j2 < j as int || i2 < wi) && a
                        == wcoord(xi + i2) && b == wcoord(zi + j2) && c == wplane(yi);
                assert(0 <= i2 < wi && 0 <= j2 <= j + 1 && (j2 < j + 1 || i2 < 0) && a == wcoord(
                    xi + i2,
                ) && b == wcoord(zi + j2) && c == wplane(yi));
            }
            assert forall|a: int, b: int, c: int|
                zcovered(a, b, c, xi, zi, yi, wi, j + 1, 0) implies zcovered(
                a,
                b,
                c,
                xi,
                zi,
                yi,
                wi,
                j as int,
                wi,
            ) by {
                let (i2, j2) = choose|i2: int, j2: int|
                    #![trigger wcoord(xi + i2), wcoord(zi + j2)]
                    0 <= i2 < wi && 0 <= j2 <= j + 1 && (j2 < j + 1 || i2 < 0) && same_zone(
                        a,
                        b,
                        c,
                        wcoord(xi + i2),
                        wcoord(zi + j2),
                        wplane(yi),
                    );
                assert(0 <= i2 < wi && 0 <= j2 <= j as int && (j2 < j as int || i2 < wi)
                    && same_zone(a, b, c, wcoord(xi + i2), wcoord(zi + j2), wplane(yi)));
            }
            assert forall|a: int, b: int, c: int|
                zcovered(a, b, c, xi, zi, yi, wi, j as int, wi) implies zcovered(
                a,
                b,
                c,
                xi,
                zi,
                yi,
                wi,
                j + 1,
                0,
            ) by {
                let (i2, j2) = choose|i2: int, j2: int|
                    #![trigger wcoord(xi + i2), wcoord(zi + j2)]
                    0 <= i2 < wi && 0 <= j2 <= j as int && (j2 < j as int || i2 < wi) && same_zone(
                        a,
                        b,
                        c,
                        wcoord(xi + i2),
                        wcoord(zi + j2),
                        wplane(yi),
                    );
                assert(0 <= i2 < wi && 0 <= j2 <= j + 1 && (j2 < j + 1 || i2 < 0) && same_zone(
                    a,
                    b,
                    c,
                    wcoord(xi + i2),
                    wcoord(zi + j2),
                    wplane(yi),
                ));
            }
        }
        j += 1;
    }
    proof {
        assert forall|a: int, b: int, c: int|
            in_footprint(a, b, c, xi, zi, yi, wi, li) == covered(
                a,
                b,
                c,
                xi,
                zi,
                yi,
                wi,
                li,
                0,
            ) by {
            if in_footprint(a, b, c, xi, zi, yi, wi, li) {
                let (i2, j2) = choose|i2: int, j2: int|
                    #![trigger wcoord(xi + i2), wcoord(zi + j2)]
                    0 <= i2 < wi && 0 <= j2 < li && a == wcoord(xi + i2) && b == wcoord(zi + j2)
                        && c == wplane(yi);
                assert(0 <= i2 < wi && 0 <= j2 <= li && (j2 < li || i2 < 0) && a == wcoord(xi + i2)
                    && b == wcoord(zi + j2) && c == wplane(yi));
            }
            if covered(a, b, c, xi, zi, yi, wi, li, 0) {
                let (i2, j2) = choose|i2: int, j2: int|
                    #![trigger wcoord(xi + i2), wcoord(zi + j2)]
                    0 <= i2 < wi && 0 <= j2 <= li && (j2 < li || i2 < 0) && a == wcoord(xi + i2)
                        && b == wcoord(zi + j2) && c == wplane(yi);
                assert(0 <= i2 < wi && 0 <= j2 < li && a == wcoord(xi + i2) && b == wcoord(zi + j2)
                    && c == wplane(yi));
            }
        }
        assert forall|a: int, b: int, c: int|
            zone_in_footprint(a, b, c, xi, zi, yi, wi, li) == zcovered(
                a,
                b,
                c,
                xi,
                zi,
                yi,
                wi,
                li,
                0,
            ) by {
            if zone_in_footprint(a, b, c, xi, zi, yi, wi, li) {
                let (i2, j2) = choose|i2: int, j2: int|
                    #![trigger wcoord(xi + i2), wcoord(zi + j2)]
                    0 <= i2 < wi && 0 <= j2 < li && same_zone(
                        a,
                        b,
                        c,
                        wcoord(xi + i2),
                        wcoord(zi + j2),
                        wplane(yi),
                    );
                assert(0 <= i2 < wi && 0 <= j2 <= li && (j2 < li || i2 < 0) && same_zone(
                    a,
                    b,
                    c,
                    wcoord(xi + i2),
                    wcoord(zi + j2),
                    wplane(yi),
                ));
            }
            if zcovered(a, b, c, xi, zi, yi, wi, li, 0) {
                let (i2, j2) = choose|i2: int, j2: int|
                    #![trigger wcoord(xi + i2), wcoord(zi + j2)]
                    0 <= i2 < wi && 0 <= j2 <= li && (j2 < li || i2 < 0) && same_zone(
                        a,
                        b,
                        c,
                        wcoord(xi + i2),
                        wcoord(zi + j2),
                        wplane(yi),
                    );
                assert(0 <= i2 < wi && 0 <= j2 < li && same_zone(
                    a,
                    b,
                    c,
                    wcoord(xi + i2),
                    wcoord(zi + j2),
                    wplane(yi),
                ));
            }
        }
    }
}

/// The mask a scenery footprint carries: the occupancy bit always, the
/// projectile-blocker and route-blocker scenery bits when requested.
pub open spec fn loc_mask(block_proj: bool, block_route: bool) -> u32 {
    spec_wall_bits(
        flags::LOC,
        flags::LOC_PROJ_BLOCKER,
        flags::LOC_ROUTE_BLOCKER,
        block_proj,
        block_route,
    )
}

/// Place or remove a scenery footprint of `width` x `length` tiles.
/// A non-positive dimension makes the footprint empty.
pub fn change_loc(
    map: &mut CollisionFlagMap,
    x: i32,
    z: i32,
    y: i32,
    width: i32,
    length: i32,
    block_proj: bool,
    block_route: bool,
    add: bool,
)
    requires
        old(map).wf(),
    ensures
        final(map).wf(),
        area_effect(
            *old(map),
            *final(map),
            x as int,
            z as int,
            y as int,
            (if width >= 0 { width as int } else { 0 }),
            (if length >= 0 { length as int } else { 0 }),
            loc_mask(block_proj, block_route),
            add,
        ),
{
    let mask: u32 = flags::LOC | (if block_proj {
        flags::LOC_PROJ_BLOCKER
    } else {
        0u32
    }) | (if block_route {
        flags::LOC_ROUTE_BLOCKER
    } else {
        0u32
    });
    let w: i64 = if width >= 0 {
        width as i64
    } else {
        0
    };
    let l: i64 = if length >= 0 {
        length as i64
    } else {
        0
    };
    change_area(map, x as i64, z as i64, y as i64, w, l, mask, add);
}

/// Place or remove a square NPC occupancy footprint of `size` x `size`
/// tiles.
pub fn change_npc(map: &mut CollisionFlagMap, x: i32, z: i32, y: i32, size: i32, add: bool)
    requires
        old(map).wf(),
    ensures
        final(map).wf(),
        area_effect(
            *old(map),
            *final(map),
            x as int,
            z as int,
            y as int,
            (if size >= 0 { size as int } else { 0 }),
            (if size >= 0 { size as int } else { 0 }),
            flags::NPC,
            add,
        ),
{
    let s: i64 = if size >= 0 {
        size as i64
    } else {
        0
    };
    change_area(map, x as i64, z as i64, y as i64, s, s, flags::NPC, add);
}

/// Place or remove a square player occupancy footprint of `size` x `size`
/// tiles.
pub fn change_player(map: &mut CollisionFlagMap, x: i32, z: i32, y: i32, size: i32, add: bool)
    requires
        old(map).wf(),
    ensures
        final(map).wf(),
        area_effect(
            *old(map),
            *final(map),
            x as int,
            z as int,
            y as int,
            (if size >= 0 { size as int } else { 0 }),
            (if size >= 0 { size as int } else { 0 }),
            flags::PLAYER,
            add,
        ),
{
    let s: i64 = if size >= 0 {
        size as i64
    } else {
        0
    };
    change_area(map, x as i64, z as i64, y as i64, s, s, flags::PLAYER, add);
}

/// Mark or unmark the floor of one tile as blocked. An addition allocates
/// the containing zone if absent; a removal never allocates or frees one.
pub fn change_floor(map: &mut CollisionFlagMap, x: i32, z: i32, y: i32, add: bool)
    requires
        old(map).wf(),
    ensures
        final(map).wf(),
        forall|a: int, b: int, c: int|
            canon(a, b, c) ==> #[trigger] final(map).flags_at(a, b, c) == (if a == wcoord(x as int)
                && b == wcoord(z as int) && c == wplane(y as int) {
                apply_mask(old(map).flags_at(a, b, c), flags::FLOOR, add)
            } else {
                old(map).flags_at(a, b, c)
            }),
        forall|a: int, b: int, c: int|
            canon(a, b, c) ==> #[trigger] final(map).zone_at(a, b, c) == (old(map).zone_at(a, b, c)
                || (add && same_zone(
                a,
                b,
                c,
                wcoord(x as int),
                wcoord(z as int),
                wplane(y as int),
            ))),
{
    if add {
        map.add(x, z, y, flags::FLOOR);
    } else {
        map.remove(x, z, y, flags::FLOOR);
    }
}

/// Mark or unmark one tile as roofed. An addition allocates the containing
/// zone if absent; a removal never allocates or frees one.
pub fn change_roof(map: &mut CollisionFlagMap, x: i32, z: i32, y: i32, add: bool)
    requires
        old(map).wf(),
    ensures
        final(map).wf(),
        forall|a: int, b: int, c: int|
            canon(a, b, c) ==> #[trigger] final(map).flags_at(a, b, c) == (if a == wcoord(x as int)
                && b == wcoord(z as int) && c == wplane(y as int) {
                apply_mask(old(map).flags_at(a, b, c), flags::ROOF, add)
            } else {
                old(map).flags_at(a, b, c)
            }),
        forall|a: int, b: int, c: int|
            canon(a, b, c) ==> #[trigger] final(map).zone_at(a, b, c) == (old(map).zone_at(a, b, c)
                || (add && same_zone(
                a,
                b,
                c,
                wcoord(x as int),
                wcoord(z as int),
                wplane(y as int),
            ))),
{
    if add {
        map.add(x, z, y, flags::ROOF);
    } else {
        map.remove(x, z, y, flags::ROOF);
    }
}

} // verus!
