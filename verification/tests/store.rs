use rsmod_pathfinder::collision::CollisionFlagMap;
use rsmod_pathfinder::flags;
use rsmod_pathfinder::area::{change_floor, change_loc, change_npc, change_player, change_roof};
use rsmod_pathfinder::wall::{change_wall, change_wall_corner, change_wall_l, change_wall_straight};
use rsmod_pathfinder::loc::{LocAngle, LocShape};

#[test]
fn empty_store_reads_zero() {
    let m = CollisionFlagMap::new();
    assert_eq!(m.get(0, 0, 0), 0);
    assert_eq!(m.get(12345, 9876, 3), 0);
    assert!(!m.is_flagged(5, 5, 0, 0xFFFFFFFF));
    assert!(!m.is_zone_allocated(5, 5, 0));
}

#[test]
fn set_get_roundtrip() {
    let mut m = CollisionFlagMap::new();
    m.set(7, 9, 1, 0xABCD);
    assert_eq!(m.get(7, 9, 1), 0xABCD);
    assert!(m.is_zone_allocated(7, 9, 1));
    m.set(7, 9, 1, 0x1);
    assert_eq!(m.get(7, 9, 1), 0x1);
    assert_eq!(m.get(8, 9, 1), 0);
}

#[test]
fn add_is_bitwise_or() {
    let mut m = CollisionFlagMap::new();
    m.add(3, 4, 0, 0x5);
    m.add(3, 4, 0, 0x9);
    assert_eq!(m.get(3, 4, 0), 0xD);
}

#[test]
fn remove_is_bitwise_and_not() {
    let mut m = CollisionFlagMap::new();
    m.add(3, 4, 0, 0xF);
    m.remove(3, 4, 0, 0x6);
    assert_eq!(m.get(3, 4, 0), 0x9);
}

#[test]
fn remove_on_unallocated_zone_is_noop() {
    let mut m = CollisionFlagMap::new();
    m.remove(100, 100, 0, 0xFF);
    assert_eq!(m.get(100, 100, 0), 0);
    assert!(!m.is_zone_allocated(100, 100, 0));
}

// Zone transparency: query results are identical whether the zone was just
// allocated or already allocated, as long as no mutation occurred between.
#[test]
fn zone_transparency() {
    let mut m = CollisionFlagMap::new();
    let before = m.get(50, 50, 0);
    let before_flagged = m.is_flagged(50, 50, 0, 0xFF);
    m.allocate_if_absent(50, 50, 0);
    assert_eq!(m.get(50, 50, 0), before);
    assert_eq!(m.is_flagged(50, 50, 0, 0xFF), before_flagged);
    m.add(60, 60, 0, 0x7);
    let v = m.get(60, 60, 0);
    m.allocate_if_absent(60, 60, 0);
    assert_eq!(m.get(60, 60, 0), v);
    m.allocate_if_absent(60, 60, 0);
    assert_eq!(m.get(60, 60, 0), v);
}

// Add then remove of the same mask restores the pre-add flag word when the
// added bits were clear before.
#[test]
fn add_remove_inverse() {
    let mut m = CollisionFlagMap::new();
    m.add(5, 5, 0, 0x100);
    m.add(5, 5, 0, 0x2);
    m.remove(5, 5, 0, 0x2);
    assert_eq!(m.get(5, 5, 0), 0x100);
}

#[test]
fn deallocate_clears_whole_zone() {
    let mut m = CollisionFlagMap::new();
    m.add(8, 8, 0, 0x3);
    m.add(15, 15, 0, 0x4);
    m.add(16, 8, 0, 0x5);
    m.deallocate_if_present(8, 8, 0);
    assert_eq!(m.get(8, 8, 0), 0);
    assert_eq!(m.get(15, 15, 0), 0);
    assert!(!m.is_zone_allocated(8, 8, 0));
    assert_eq!(m.get(16, 8, 0), 0x5);
    assert!(m.is_zone_allocated(16, 8, 0));
    m.deallocate_if_present(8, 8, 0);
    assert_eq!(m.get(8, 8, 0), 0);
}

#[test]
fn coordinates_wrap_at_world_bounds() {
    let mut m = CollisionFlagMap::new();
    m.add(16384 + 2, 1, 0, 0x9);
    assert_eq!(m.get(2, 1, 0), 0x9);
    assert_eq!(m.get(-16382, 1, 0), 0x9);
    m.add(0, 0, 4, 0x11);
    assert_eq!(m.get(0, 0, 0), 0x11);
}

// Wall symmetry: a straight wall sets the facing bit on the origin and the
// exact complementary bit on the neighbor across the shared edge; removal
// clears exactly those two bits.
#[test]
fn straight_wall_sets_complementary_bits() {
    let mut m = CollisionFlagMap::new();
    change_wall_straight(&mut m, 10, 10, 0, LocAngle::WEST, false, false, true);
    assert_eq!(m.get(10, 10, 0), flags::WALL_WEST);
    assert_eq!(m.get(9, 10, 0), flags::WALL_EAST);
    m.add(10, 10, 0, flags::LOC);
    change_wall_straight(&mut m, 10, 10, 0, LocAngle::WEST, false, false, false);
    assert_eq!(m.get(10, 10, 0), flags::LOC);
    assert_eq!(m.get(9, 10, 0), 0);
}

#[test]
fn straight_wall_north_south_angles() {
    let mut m = CollisionFlagMap::new();
    change_wall_straight(&mut m, 4, 4, 0, LocAngle::NORTH, false, false, true);
    assert_eq!(m.get(4, 4, 0), flags::WALL_NORTH);
    assert_eq!(m.get(4, 5, 0), flags::WALL_SOUTH);
    change_wall_straight(&mut m, 8, 8, 0, LocAngle::SOUTH, false, false, true);
    assert_eq!(m.get(8, 8, 0), flags::WALL_SOUTH);
    assert_eq!(m.get(8, 7, 0), flags::WALL_NORTH);
    change_wall_straight(&mut m, 12, 12, 0, LocAngle::EAST, false, false, true);
    assert_eq!(m.get(12, 12, 0), flags::WALL_EAST);
    assert_eq!(m.get(13, 12, 0), flags::WALL_WEST);
}

// A route-blocking or projectile-blocking wall is still a normal wall: the
// optional classes are additive with the plain bits.
#[test]
fn blocking_walls_are_additive() {
    let mut m = CollisionFlagMap::new();
    change_wall_straight(&mut m, 3, 3, 0, LocAngle::WEST, true, true, true);
    assert_eq!(
        m.get(3, 3, 0),
        flags::WALL_WEST | flags::WALL_WEST_PROJ_BLOCKER | flags::WALL_WEST_ROUTE_BLOCKER
    );
    assert_eq!(
        m.get(2, 3, 0),
        flags::WALL_EAST | flags::WALL_EAST_PROJ_BLOCKER | flags::WALL_EAST_ROUTE_BLOCKER
    );
    change_wall_straight(&mut m, 3, 3, 0, LocAngle::WEST, true, true, false);
    assert_eq!(m.get(3, 3, 0), 0);
    assert_eq!(m.get(2, 3, 0), 0);
}

#[test]
fn corner_wall_sets_complementary_bits() {
    let mut m = CollisionFlagMap::new();
    change_wall_corner(&mut m, 0, 0, 0, LocAngle::WEST, false, false, true);
    assert_eq!(m.get(0, 0, 0), flags::WALL_NORTH_WEST);
    assert_eq!(m.get(-1, 1, 0), flags::WALL_SOUTH_EAST);
    change_wall_corner(&mut m, 20, 20, 0, LocAngle::NORTH, false, false, true);
    assert_eq!(m.get(20, 20, 0), flags::WALL_NORTH_EAST);
    assert_eq!(m.get(21, 21, 0), flags::WALL_SOUTH_WEST);
}

#[test]
fn l_wall_sets_three_tiles() {
    let mut m = CollisionFlagMap::new();
    change_wall_l(&mut m, 5, 5, 0, LocAngle::NORTH, false, false, true);
    assert_eq!(m.get(5, 5, 0), flags::WALL_NORTH | flags::WALL_EAST);
    assert_eq!(m.get(6, 5, 0), flags::WALL_WEST);
    assert_eq!(m.get(5, 6, 0), flags::WALL_SOUTH);
    change_wall_l(&mut m, 5, 5, 0, LocAngle::NORTH, false, false, false);
    assert_eq!(m.get(5, 5, 0), 0);
    assert_eq!(m.get(6, 5, 0), 0);
    assert_eq!(m.get(5, 6, 0), 0);
}

#[test]
fn change_wall_dispatches_by_shape() {
    let mut m = CollisionFlagMap::new();
    change_wall(&mut m, 2, 2, 0, LocAngle::WEST, LocShape::WALL_STRAIGHT, false, false, true);
    assert_eq!(m.get(2, 2, 0), flags::WALL_WEST);
    let mut m2 = CollisionFlagMap::new();
    change_wall(
        &mut m2,
        2,
        2,
        0,
        LocAngle::WEST,
        LocShape::WALL_SQUARE_CORNER,
        false,
        false,
        true,
    );
    assert_eq!(m2.get(2, 2, 0), flags::WALL_NORTH_WEST);
    let mut m3 = CollisionFlagMap::new();
    change_wall(&mut m3, 2, 2, 0, LocAngle::WEST, LocShape::WALL_L, false, false, true);
    assert_eq!(m3.get(2, 2, 0), flags::WALL_WEST | flags::WALL_NORTH);
}

#[test]
fn loc_footprint_covers_rectangle() {
    let mut m = CollisionFlagMap::new();
    change_loc(&mut m, 0, 0, 0, 2, 3, true, false, true);
    for x in 0..2 {
        for z in 0..3 {
            assert_eq!(m.get(x, z, 0), flags::LOC | flags::LOC_PROJ_BLOCKER);
        }
    }
    assert_eq!(m.get(2, 0, 0), 0);
    assert_eq!(m.get(0, 3, 0), 0);
    change_loc(&mut m, 0, 0, 0, 2, 3, true, false, false);
    assert_eq!(m.get(0, 0, 0), 0);
    assert_eq!(m.get(1, 2, 0), 0);
}

#[test]
fn npc_and_player_footprints() {
    let mut m = CollisionFlagMap::new();
    change_npc(&mut m, 5, 5, 0, 2, true);
    assert_eq!(m.get(5, 5, 0), flags::NPC);
    assert_eq!(m.get(6, 6, 0), flags::NPC);
    assert_eq!(m.get(7, 5, 0), 0);
    change_player(&mut m, 5, 5, 0, 1, true);
    assert_eq!(m.get(5, 5, 0), flags::NPC | flags::PLAYER);
    change_npc(&mut m, 5, 5, 0, 2, false);
    assert_eq!(m.get(5, 5, 0), flags::PLAYER);
}

#[test]
fn floor_and_roof_single_tile() {
    let mut m = CollisionFlagMap::new();
    change_floor(&mut m, 9, 9, 0, true);
    assert_eq!(m.get(9, 9, 0), flags::FLOOR);
    change_roof(&mut m, 9, 9, 0, true);
    assert_eq!(m.get(9, 9, 0), flags::FLOOR | flags::ROOF);
    change_floor(&mut m, 9, 9, 0, false);
    change_roof(&mut m, 9, 9, 0, false);
    assert_eq!(m.get(9, 9, 0), 0);
}
