use rsmod_pathfinder::collision::CollisionFlagMap;
use rsmod_pathfinder::flags;
use rsmod_pathfinder::loc::{
    get_collision_strategy, loc_shape_layer, CollisionStrategies, CollisionType, LocAngle,
    LocLayer, LocShape,
};
use rsmod_pathfinder::path::{find_naive_path, PathFinder};
use rsmod_pathfinder::ray::{has_line_of_sight, has_line_of_walk, line_of_sight, line_of_walk};
use rsmod_pathfinder::reach::{reached, BLOCK_ACCESS_WEST};
use rsmod_pathfinder::step::can_travel;
use rsmod_pathfinder::wall::change_wall_straight;

fn pack(x: u32, z: u32, y: u32) -> u32 {
    z + x * 0x4000 + y * 0x10000000
}

#[test]
fn angle_decoding() {
    assert_eq!(LocAngle::from(0), Some(LocAngle::WEST));
    assert_eq!(LocAngle::from(3), Some(LocAngle::SOUTH));
    assert_eq!(LocAngle::from(4), None);
}

#[test]
fn shape_decoding() {
    assert_eq!(LocShape::from(0), Some(LocShape::WALL_STRAIGHT));
    assert_eq!(LocShape::from(22), Some(LocShape::GROUND_DECOR));
    assert_eq!(LocShape::from(23), None);
    assert_eq!(LocShape::from(-1), None);
}

#[test]
fn shape_layer_classification() {
    assert_eq!(loc_shape_layer(LocShape::WALL_STRAIGHT), LocLayer::WALL);
    assert_eq!(loc_shape_layer(LocShape::WALL_SQUARE_CORNER), LocLayer::WALL);
    assert_eq!(loc_shape_layer(LocShape::WALLDECOR_DIAGONAL_BOTH), LocLayer::WALL_DECOR);
    assert_eq!(loc_shape_layer(LocShape::WALL_DIAGONAL), LocLayer::GROUND);
    assert_eq!(loc_shape_layer(LocShape::ROOF_FLAT), LocLayer::GROUND);
    assert_eq!(loc_shape_layer(LocShape::GROUND_DECOR), LocLayer::GROUND_DECOR);
}

#[test]
fn strategy_selector_defaults_to_normal() {
    assert_eq!(CollisionType::from(0), CollisionType::NORMAL);
    assert_eq!(CollisionType::from(4), CollisionType::LINE_OF_SIGHT);
    assert_eq!(CollisionType::from(99), CollisionType::NORMAL);
    assert_eq!(CollisionType::from(-1), CollisionType::NORMAL);
    assert_eq!(get_collision_strategy(CollisionType::BLOCKED), CollisionStrategies::Blocked);
    assert_eq!(get_collision_strategy(CollisionType::NORMAL), CollisionStrategies::Normal);
}

#[test]
fn strategy_rules() {
    let normal = CollisionStrategies::Normal;
    let blocked = CollisionStrategies::Blocked;
    let indoors = CollisionStrategies::Indoors;
    let outdoors = CollisionStrategies::Outdoors;
    let los = CollisionStrategies::LineOfSight;
    assert!(normal.can_move(flags::WALL_SOUTH, flags::WALL_NORTH));
    assert!(!normal.can_move(flags::WALL_SOUTH, flags::WALL_SOUTH));
    assert!(!indoors.can_move(0, flags::WALL_SOUTH));
    assert!(indoors.can_move(flags::ROOF, flags::WALL_SOUTH));
    assert!(outdoors.can_move(0, flags::WALL_SOUTH));
    assert!(!outdoors.can_move(flags::ROOF, flags::WALL_SOUTH));
    // sight ignores route blockers and occupancy, only projectile
    // counterparts of the masked wall bits obstruct
    assert!(los.can_move(flags::WALL_WEST_ROUTE_BLOCKER | flags::NPC, flags::WALL_WEST));
    assert!(!los.can_move(flags::WALL_WEST_PROJ_BLOCKER, flags::WALL_WEST));
    // Blocked never reports passable where Normal reports blocked
    for tile in [0u32, flags::WALL_SOUTH, flags::LOC, flags::FLOOR] {
        for block in [0u32, flags::WALL_SOUTH, flags::NPC] {
            if blocked.can_move(tile, block) {
                assert!(normal.can_move(tile, block));
            }
        }
    }
    assert!(blocked.can_move(0, 0));
    assert!(!blocked.can_move(flags::WALL_SOUTH, 0));
}

// Scenario: empty store, single straight wall facing west at (10,10,0).
#[test]
fn west_wall_blocks_both_sides() {
    let mut m = CollisionFlagMap::new();
    change_wall_straight(&mut m, 10, 10, 0, LocAngle::WEST, false, false, true);
    let normal = CollisionStrategies::Normal;
    assert!(!can_travel(&m, 0, 10, 10, -1, 0, 1, 0, &normal));
    assert!(!can_travel(&m, 0, 9, 10, 1, 0, 1, 0, &normal));
    assert!(can_travel(&m, 0, 10, 10, 0, 1, 1, 0, &normal));
}

// Diagonal cutting: a diagonal step fails whenever either orthogonal
// neighbor is blocked, even though the corner tile itself is clear.
#[test]
fn diagonal_cannot_cut_corners() {
    let mut m = CollisionFlagMap::new();
    m.add(1, 0, 0, flags::LOC);
    let normal = CollisionStrategies::Normal;
    assert_eq!(m.get(1, 1, 0), 0);
    assert!(!can_travel(&m, 0, 0, 0, 1, 1, 1, 0, &normal));
    let mut m2 = CollisionFlagMap::new();
    m2.add(0, 1, 0, flags::LOC);
    assert!(!can_travel(&m2, 0, 0, 0, 1, 1, 1, 0, &normal));
    let m3 = CollisionFlagMap::new();
    assert!(can_travel(&m3, 0, 0, 0, 1, 1, 1, 0, &normal));
}

#[test]
fn extra_flag_blocks_occupied_tiles() {
    let mut m = CollisionFlagMap::new();
    m.add(1, 0, 0, flags::NPC);
    let normal = CollisionStrategies::Normal;
    assert!(can_travel(&m, 0, 0, 0, 1, 0, 1, 0, &normal));
    assert!(!can_travel(&m, 0, 0, 0, 1, 0, 1, flags::NPC, &normal));
}

#[test]
fn clear_line_of_sight_traces_to_destination() {
    let m = CollisionFlagMap::new();
    let trace = line_of_sight(&m, 0, 0, 0, 3, 0, 1, 1, 1, 1, 0);
    assert_eq!(trace, vec![pack(1, 0, 0), pack(2, 0, 0), pack(3, 0, 0)]);
    assert!(has_line_of_sight(&m, 0, 0, 0, 3, 0, 1, 1, 1, 1, 0));
}

// Scenario: a projectile-blocker wall bit on the crossed edge blocks
// sight; the same geometry with only a route-blocker bit leaves the walk
// trace clear.
#[test]
fn projectile_blocker_blocks_sight_route_blocker_does_not_block_walk() {
    let mut m = CollisionFlagMap::new();
    m.add(6, 5, 0, flags::WALL_EAST_PROJ_BLOCKER);
    assert!(!has_line_of_sight(&m, 0, 5, 5, 7, 5, 1, 1, 1, 1, 0));
    let trace = line_of_sight(&m, 0, 5, 5, 7, 5, 1, 1, 1, 1, 0);
    assert_eq!(trace, vec![pack(6, 5, 0)]);
    let mut m2 = CollisionFlagMap::new();
    m2.add(6, 5, 0, flags::WALL_EAST_ROUTE_BLOCKER);
    assert!(has_line_of_walk(&m2, 0, 5, 5, 7, 5, 1, 1, 1, 1, 0));
    let walk = line_of_walk(&m2, 0, 5, 5, 7, 5, 1, 1, 1, 1, 0);
    assert_eq!(walk, vec![pack(6, 5, 0), pack(7, 5, 0)]);
}

#[test]
fn plain_wall_blocks_walk_but_not_sight() {
    let mut m = CollisionFlagMap::new();
    m.add(6, 5, 0, flags::WALL_EAST);
    assert!(!has_line_of_walk(&m, 0, 5, 5, 7, 5, 1, 1, 1, 1, 0));
    assert!(has_line_of_sight(&m, 0, 5, 5, 7, 5, 1, 1, 1, 1, 0));
}

#[test]
fn reached_rectangle_adjacency() {
    let m = CollisionFlagMap::new();
    // standing right beside an obstacle shape
    assert!(reached(&m, 0, 0, 0, 1, 0, 1, 1, 1, LocAngle::WEST, 10, 0));
    // overlap counts as reached
    assert!(reached(&m, 0, 4, 4, 4, 4, 2, 2, 1, LocAngle::WEST, 10, 0));
    // two tiles away is not adjacent
    assert!(!reached(&m, 0, 0, 0, 2, 0, 1, 1, 1, LocAngle::WEST, 10, 0));
    // a closed west face denies the approach from the west
    assert!(!reached(&m, 0, 0, 0, 1, 0, 1, 1, 1, LocAngle::WEST, 10, BLOCK_ACCESS_WEST));
    // a wall on the contact edge denies it too
    let mut m2 = CollisionFlagMap::new();
    m2.add(1, 0, 0, flags::WALL_WEST);
    assert!(!reached(&m2, 0, 0, 0, 1, 0, 1, 1, 1, LocAngle::WEST, 10, 0));
}

#[test]
fn reached_without_shape_needs_overlap() {
    let m = CollisionFlagMap::new();
    // no shape at all: a plain destination is reached by standing inside it
    assert!(reached(&m, 0, 4, 4, 4, 4, 2, 2, 1, LocAngle::WEST, -1, 0));
    assert!(!reached(&m, 0, 0, 0, 1, 0, 1, 1, 1, LocAngle::WEST, -1, 0));
}

#[test]
fn reached_wall_from_open_side() {
    let m = CollisionFlagMap::new();
    // a west-facing straight wall at (10,10): reachable from its own tile
    // and from the west neighbor, not from the east neighbor
    assert!(reached(&m, 0, 10, 10, 10, 10, 1, 1, 1, LocAngle::WEST, 0, 0));
    assert!(reached(&m, 0, 9, 10, 10, 10, 1, 1, 1, LocAngle::WEST, 0, 0));
    assert!(!reached(&m, 0, 11, 10, 10, 10, 1, 1, 1, LocAngle::WEST, 0, 0));
}

// Scenario: a 3 x 3 open room, corner to corner: the flood fill finds the
// diagonal and compresses it to a single waypoint at the destination.
#[test]
fn find_path_across_open_room() {
    let m = CollisionFlagMap::new();
    let pf = PathFinder::new();
    let r = pf.find_path(
        &m,
        0,
        0,
        0,
        2,
        2,
        1,
        1,
        1,
        LocAngle::WEST,
        -1,
        false,
        0,
        25,
        &CollisionStrategies::Normal,
    );
    assert_eq!(r, vec![pack(2, 2, 0)]);
}

#[test]
fn find_path_to_own_tile_is_empty() {
    let m = CollisionFlagMap::new();
    let pf = PathFinder::new();
    let r = pf.find_path(
        &m,
        0,
        0,
        0,
        0,
        0,
        1,
        1,
        1,
        LocAngle::WEST,
        -1,
        false,
        0,
        25,
        &CollisionStrategies::Normal,
    );
    assert_eq!(r, Vec::<u32>::new());
}

#[test]
fn find_path_respects_waypoint_cap() {
    let m = CollisionFlagMap::new();
    let pf = PathFinder::new();
    let r = pf.find_path(
        &m,
        0,
        0,
        0,
        5,
        3,
        1,
        1,
        1,
        LocAngle::WEST,
        -1,
        false,
        0,
        1,
        &CollisionStrategies::Normal,
    );
    assert!(!r.is_empty());
    assert!(r.len() <= 1);
}

#[test]
fn find_path_outside_window_is_empty_unless_move_near() {
    let m = CollisionFlagMap::new();
    let pf = PathFinder::new();
    let unreachable = pf.find_path(
        &m,
        0,
        0,
        0,
        200,
        0,
        1,
        1,
        1,
        LocAngle::WEST,
        -1,
        false,
        0,
        25,
        &CollisionStrategies::Normal,
    );
    assert_eq!(unreachable, Vec::<u32>::new());
    let near = pf.find_path(
        &m,
        0,
        0,
        0,
        200,
        0,
        1,
        1,
        1,
        LocAngle::WEST,
        -1,
        true,
        0,
        25,
        &CollisionStrategies::Normal,
    );
    assert!(!near.is_empty());
    assert!(near.len() <= 25);
}

#[test]
fn naive_path_walks_straight() {
    let m = CollisionFlagMap::new();
    let r = find_naive_path(&m, 0, 0, 0, 3, 3, 1, 1, 1, 1, 0, &CollisionStrategies::Normal);
    assert_eq!(r, vec![pack(1, 1, 0), pack(2, 2, 0), pack(3, 3, 0)]);
}

#[test]
fn naive_path_stops_at_obstruction() {
    let mut m = CollisionFlagMap::new();
    // a scenery column between source and destination on the straight line
    m.add(2, 0, 0, flags::LOC);
    m.add(2, 1, 0, flags::LOC);
    let r = find_naive_path(&m, 0, 0, 0, 4, 0, 1, 1, 1, 1, 0, &CollisionStrategies::Normal);
    assert_eq!(r, vec![pack(1, 0, 0)]);
}

#[test]
fn wide_entity_checks_whole_leading_edge() {
    let mut m = CollisionFlagMap::new();
    m.add(2, 1, 0, flags::LOC);
    let normal = CollisionStrategies::Normal;
    // a 2 x 2 entity at (0,0) moving east enters column 2, rows 0 and 1
    assert!(!can_travel(&m, 0, 0, 0, 1, 0, 2, 0, &normal));
    let m2 = CollisionFlagMap::new();
    assert!(can_travel(&m2, 0, 0, 0, 1, 0, 2, 0, &normal));
}

#[test]
fn indoors_and_outdoors_follow_the_roof() {
    let mut m = CollisionFlagMap::new();
    m.add(1, 0, 0, flags::ROOF);
    assert!(can_travel(&m, 0, 0, 0, 1, 0, 1, 0, &CollisionStrategies::Indoors));
    assert!(!can_travel(&m, 0, 0, 0, 1, 0, 1, 0, &CollisionStrategies::Outdoors));
    let m2 = CollisionFlagMap::new();
    assert!(!can_travel(&m2, 0, 0, 0, 1, 0, 1, 0, &CollisionStrategies::Indoors));
    assert!(can_travel(&m2, 0, 0, 0, 1, 0, 1, 0, &CollisionStrategies::Outdoors));
}

#[test]
fn find_path_routes_around_an_obstacle() {
    let mut m = CollisionFlagMap::new();
    m.add(1, 0, 0, flags::LOC);
    m.add(1, 1, 0, flags::LOC);
    let pf = PathFinder::new();
    let r = pf.find_path(
        &m,
        0,
        0,
        0,
        2,
        0,
        1,
        1,
        1,
        LocAngle::WEST,
        -1,
        false,
        0,
        25,
        &CollisionStrategies::Normal,
    );
    assert!(!r.is_empty());
    assert_eq!(r.last(), Some(&pack(2, 0, 0)));
}

#[test]
fn naive_path_dead_end_is_empty() {
    let mut m = CollisionFlagMap::new();
    m.add(1, 0, 0, flags::LOC);
    let r = find_naive_path(&m, 0, 0, 0, 3, 0, 1, 1, 1, 1, 0, &CollisionStrategies::Normal);
    assert_eq!(r, Vec::<u32>::new());
}

#[test]
fn diagonal_sight_line() {
    let m = CollisionFlagMap::new();
    let trace = line_of_sight(&m, 0, 0, 0, 2, 2, 1, 1, 1, 1, 0);
    assert_eq!(trace, vec![pack(1, 1, 0), pack(2, 2, 0)]);
}

#[test]
fn block_any_covers_every_blocking_class() {
    let walls = 0xFFu32;
    let proj = flags::WALL_NORTH_WEST_PROJ_BLOCKER
        | flags::WALL_NORTH_PROJ_BLOCKER
        | flags::WALL_NORTH_EAST_PROJ_BLOCKER
        | flags::WALL_EAST_PROJ_BLOCKER
        | flags::WALL_SOUTH_EAST_PROJ_BLOCKER
        | flags::WALL_SOUTH_PROJ_BLOCKER
        | flags::WALL_SOUTH_WEST_PROJ_BLOCKER
        | flags::WALL_WEST_PROJ_BLOCKER;
    let route = flags::WALL_NORTH_WEST_ROUTE_BLOCKER
        | flags::WALL_NORTH_ROUTE_BLOCKER
        | flags::WALL_NORTH_EAST_ROUTE_BLOCKER
        | flags::WALL_EAST_ROUTE_BLOCKER
        | flags::WALL_SOUTH_EAST_ROUTE_BLOCKER
        | flags::WALL_SOUTH_ROUTE_BLOCKER
        | flags::WALL_SOUTH_WEST_ROUTE_BLOCKER
        | flags::WALL_WEST_ROUTE_BLOCKER;
    let expected = walls
        | proj
        | route
        | flags::LOC
        | flags::LOC_PROJ_BLOCKER
        | flags::LOC_ROUTE_BLOCKER
        | flags::NPC
        | flags::PLAYER
        | flags::FLOOR;
    assert_eq!(flags::BLOCK_ANY, expected);
}

#[test]
fn floor_blocks_movement() {
    let mut m = CollisionFlagMap::new();
    m.add(1, 0, 0, flags::FLOOR);
    assert!(!can_travel(&m, 0, 0, 0, 1, 0, 1, 0, &CollisionStrategies::Normal));
}

#[test]
fn scenery_blocks_walk_line() {
    let mut m = CollisionFlagMap::new();
    m.add(6, 5, 0, flags::LOC);
    assert!(!has_line_of_walk(&m, 0, 5, 5, 7, 5, 1, 1, 1, 1, 0));
    // walking straight onto the destination tile itself is not obstructed
    // by what stands on the destination
    let mut m2 = CollisionFlagMap::new();
    m2.add(7, 5, 0, flags::LOC);
    assert!(has_line_of_walk(&m2, 0, 5, 5, 7, 5, 1, 1, 1, 1, 0));
}

#[test]
fn reached_corner_and_l_walls() {
    let m = CollisionFlagMap::new();
    // a west corner wall at (10,10) faces its north-west neighbor
    assert!(reached(&m, 0, 9, 11, 10, 10, 1, 1, 1, LocAngle::WEST, 1, 0));
    assert!(!reached(&m, 0, 11, 10, 10, 10, 1, 1, 1, LocAngle::WEST, 1, 0));
    // a north L wall at (10,10) faces both its east and north neighbors
    assert!(reached(&m, 0, 11, 10, 10, 10, 1, 1, 1, LocAngle::NORTH, 2, 0));
    assert!(reached(&m, 0, 10, 11, 10, 10, 1, 1, 1, LocAngle::NORTH, 2, 0));
    assert!(!reached(&m, 0, 9, 10, 10, 10, 1, 1, 1, LocAngle::NORTH, 2, 0));
}

#[test]
fn find_path_to_blocked_tile_is_empty() {
    let mut m = CollisionFlagMap::new();
    // the destination tile itself is occupied, so no step may enter it and
    // the fill exhausts the window without a hit
    m.add(5, 5, 0, flags::LOC);
    let pf = PathFinder::new();
    let r = pf.find_path(
        &m,
        0,
        0,
        0,
        5,
        5,
        1,
        1,
        1,
        LocAngle::WEST,
        -1,
        false,
        0,
        25,
        &CollisionStrategies::Normal,
    );
    assert_eq!(r, Vec::<u32>::new());
}
