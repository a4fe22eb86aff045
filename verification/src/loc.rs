//! Scenery shape taxonomy and collision strategies.
//!
//! A scenery object ("loc") has a shape, an orientation angle, and a layer
//! that is a pure function of the shape. A collision strategy is a pure
//! passability predicate over a tile flag word and a block mask; the
//! traversal algorithms build the mask, the strategy interprets it.

use vstd::prelude::*;
use crate::flags;

verus! {

/// Orientation of a placed scenery object, in 90-degree steps.
#[allow(non_camel_case_types)]
#[derive(Clone, Copy, Debug, PartialEq, Eq, Structural)]
pub enum LocAngle {
    WEST,
    NORTH,
    EAST,
    SOUTH,
}

impl LocAngle {
    /// Decode a raw angle value. An out-of-range value is an invalid
    /// discriminant: it is reported as `None`, and the boundary layer
    /// treats it as a fatal caller error rather than defaulting silently.
    pub fn from(value: u8) -> (r: Option<LocAngle>)
        ensures
            r == (match value {
                0u8 => Some(LocAngle::WEST),
                1u8 => Some(LocAngle::NORTH),
                2u8 => Some(LocAngle::EAST),
                3u8 => Some(LocAngle::SOUTH),
                _ => None::<LocAngle>,
            }),
    {
        match value {
            0 => Some(LocAngle::WEST),
            1 => Some(LocAngle::NORTH),
            2 => Some(LocAngle::EAST),
            3 => Some(LocAngle::SOUTH),
            _ => None,
        }
    }
}

/// The logical shape of a scenery object.
#[allow(non_camel_case_types)]
#[derive(Clone, Copy, Debug, PartialEq, Eq, Structural)]
pub enum LocShape {
    WALL_STRAIGHT,
    WALL_DIAGONAL_CORNER,
    WALL_L,
    WALL_SQUARE_CORNER,
    WALLDECOR_STRAIGHT_NOOFFSET,
    WALLDECOR_STRAIGHT_OFFSET,
    WALLDECOR_DIAGONAL_OFFSET,
    WALLDECOR_DIAGONAL_NOOFFSET,
    WALLDECOR_DIAGONAL_BOTH,
    WALL_DIAGONAL,
    CENTREPIECE_STRAIGHT,
    CENTREPIECE_DIAGONAL,
    ROOF_STRAIGHT,
    ROOF_DIAGONAL_WITH_ROOFEDGE,
    ROOF_DIAGONAL,
    ROOF_L_CONCAVE,
    ROOF_L_CONVEX,
    ROOF_FLAT,
    ROOFEDGE_STRAIGHT,
    ROOFEDGE_DIAGONAL_CORNER,
    ROOFEDGE_L,
    ROOFEDGE_SQUARE_CORNER,
    GROUND_DECOR,
}

/// Raw encoding of each shape, the inverse of `LocShape::from`.
pub open spec fn shape_raw(s: LocShape) -> int {
    match s {
        LocShape::WALL_STRAIGHT => 0,
        LocShape::WALL_DIAGONAL_CORNER => 1,
        LocShape::WALL_L => 2,
        LocShape::WALL_SQUARE_CORNER => 3,
        LocShape::WALLDECOR_STRAIGHT_NOOFFSET => 4,
        LocShape::WALLDECOR_STRAIGHT_OFFSET => 5,
        LocShape::WALLDECOR_DIAGONAL_OFFSET => 6,
        LocShape::WALLDECOR_DIAGONAL_NOOFFSET => 7,
        LocShape::WALLDECOR_DIAGONAL_BOTH => 8,
        LocShape::WALL_DIAGONAL => 9,
        LocShape::CENTREPIECE_STRAIGHT => 10,
        LocShape::CENTREPIECE_DIAGONAL => 11,
        LocShape::ROOF_STRAIGHT => 12,
        LocShape::ROOF_DIAGONAL_WITH_ROOFEDGE => 13,
        LocShape::ROOF_DIAGONAL => 14,
        LocShape::ROOF_L_CONCAVE => 15,
        LocShape::ROOF_L_CONVEX => 16,
        LocShape::ROOF_FLAT => 17,
        LocShape::ROOFEDGE_STRAIGHT => 18,
        LocShape::ROOFEDGE_DIAGONAL_CORNER => 19,
        LocShape::ROOFEDGE_L => 20,
        LocShape::ROOFEDGE_SQUARE_CORNER => 21,
        LocShape::GROUND_DECOR => 22,
    }
}

impl LocShape {
    /// Decode a raw shape value; an out-of-range value is reported as
    /// `None` and treated by the boundary layer as a fatal caller error.
    pub fn from(value: i8) -> (r: Option<LocShape>)
        ensures
            r matches Some(s) ==> shape_raw(s) == value as int,
            r is None <==> !(0 <= value as int <= 22),
    {
        match value {
            0 => Some(LocShape::WALL_STRAIGHT),
            1 => Some(LocShape::WALL_DIAGONAL_CORNER),
            2 => Some(LocShape::WALL_L),
            3 => Some(LocShape::WALL_SQUARE_CORNER),
            4 => Some(LocShape::WALLDECOR_STRAIGHT_NOOFFSET),
            5 => Some(LocShape::WALLDECOR_STRAIGHT_OFFSET),
            6 => Some(LocShape::WALLDECOR_DIAGONAL_OFFSET),
            7 => Some(LocShape::WALLDECOR_DIAGONAL_NOOFFSET),
            8 => Some(LocShape::WALLDECOR_DIAGONAL_BOTH),
            9 => Some(LocShape::WALL_DIAGONAL),
            10 => Some(LocShape::CENTREPIECE_STRAIGHT),
            11 => Some(LocShape::CENTREPIECE_DIAGONAL),
            12 => Some(LocShape::ROOF_STRAIGHT),
            13 => Some(LocShape::ROOF_DIAGONAL_WITH_ROOFEDGE),
            14 => Some(LocShape::ROOF_DIAGONAL),
            15 => Some(LocShape::ROOF_L_CONCAVE),
            16 => Some(LocShape::ROOF_L_CONVEX),
            17 => Some(LocShape::ROOF_FLAT),
            18 => Some(LocShape::ROOFEDGE_STRAIGHT),
            19 => Some(LocShape::ROOFEDGE_DIAGONAL_CORNER),
            20 => Some(LocShape::ROOFEDGE_L),
            21 => Some(LocShape::ROOFEDGE_SQUARE_CORNER),
            22 => Some(LocShape::GROUND_DECOR),
            _ => None,
        }
    }
}

/// The logical layer a scenery shape occupies.
#[allow(non_camel_case_types)]
#[derive(Clone, Copy, Debug, PartialEq, Eq, Structural)]
pub enum LocLayer {
    WALL,
    WALL_DECOR,
    GROUND,
    GROUND_DECOR,
}

/// Layer classification as a pure function of the shape.
pub open spec fn layer_of(shape: LocShape) -> LocLayer {
    match shape {
        LocShape::WALL_STRAIGHT
        | LocShape::WALL_DIAGONAL_CORNER
        | LocShape::WALL_L
        | LocShape::WALL_SQUARE_CORNER => LocLayer::WALL,
        LocShape::WALLDECOR_STRAIGHT_NOOFFSET
        | LocShape::WALLDECOR_STRAIGHT_OFFSET
        | LocShape::WALLDECOR_DIAGONAL_OFFSET
        | LocShape::WALLDECOR_DIAGONAL_NOOFFSET
        | LocShape::WALLDECOR_DIAGONAL_BOTH => LocLayer::WALL_DECOR,
        LocShape::WALL_DIAGONAL
        | LocShape::CENTREPIECE_STRAIGHT
        | LocShape::CENTREPIECE_DIAGONAL
        | LocShape::ROOF_STRAIGHT
        | LocShape::ROOF_DIAGONAL_WITH_ROOFEDGE
        | LocShape::ROOF_DIAGONAL
        | LocShape::ROOF_L_CONCAVE
        | LocShape::ROOF_L_CONVEX
        | LocShape::ROOF_FLAT
        | LocShape::ROOFEDGE_STRAIGHT
        | LocShape::ROOFEDGE_DIAGONAL_CORNER
        | LocShape::ROOFEDGE_L
        | LocShape::ROOFEDGE_SQUARE_CORNER => LocLayer::GROUND,
        LocShape::GROUND_DECOR => LocLayer::GROUND_DECOR,
    }
}

/// Classify a scenery shape into its layer. Pure: no store access.
pub fn loc_shape_layer(shape: LocShape) -> (r: LocLayer)
    ensures
        r == layer_of(shape),
{
    match shape {
        LocShape::WALL_STRAIGHT
        | LocShape::WALL_DIAGONAL_CORNER
        | LocShape::WALL_L
        | LocShape::WALL_SQUARE_CORNER => LocLayer::WALL,
        LocShape::WALLDECOR_STRAIGHT_NOOFFSET
        | LocShape::WALLDECOR_STRAIGHT_OFFSET
        | LocShape::WALLDECOR_DIAGONAL_OFFSET
        | LocShape::WALLDECOR_DIAGONAL_NOOFFSET
        | LocShape::WALLDECOR_DIAGONAL_BOTH => LocLayer::WALL_DECOR,
        LocShape::WALL_DIAGONAL
        | LocShape::CENTREPIECE_STRAIGHT
        | LocShape::CENTREPIECE_DIAGONAL
        | LocShape::ROOF_STRAIGHT
        | LocShape::ROOF_DIAGONAL_WITH_ROOFEDGE
        | LocShape::ROOF_DIAGONAL
        | LocShape::ROOF_L_CONCAVE
        | LocShape::ROOF_L_CONVEX
        | LocShape::ROOF_FLAT
        | LocShape::ROOFEDGE_STRAIGHT
        | LocShape::ROOFEDGE_DIAGONAL_CORNER
        | LocShape::ROOFEDGE_L
        | LocShape::ROOFEDGE_SQUARE_CORNER => LocLayer::GROUND,
        LocShape::GROUND_DECOR => LocLayer::GROUND_DECOR,
    }
}

/// The collision strategy selector handed across the boundary.
#[allow(non_camel_case_types)]
#[derive(Clone, Copy, Debug, PartialEq, Eq, Structural)]
pub enum CollisionType {
    NORMAL,
    BLOCKED,
    INDOORS,
    OUTDOORS,
    LINE_OF_SIGHT,
}

impl CollisionType {
    /// Decode a raw selector value; an out-of-range value defaults to
    /// `NORMAL`.
    pub fn from(value: i32) -> (r: CollisionType)
        ensures
            r == (match value {
                1i32 => CollisionType::BLOCKED,
                2i32 => CollisionType::INDOORS,
                3i32 => CollisionType::OUTDOORS,
                4i32 => CollisionType::LINE_OF_SIGHT,
                _ => CollisionType::NORMAL,
            }),
    {
        match value {
            1 => CollisionType::BLOCKED,
            2 => CollisionType::INDOORS,
            3 => CollisionType::OUTDOORS,
            4 => CollisionType::LINE_OF_SIGHT,
            _ => CollisionType::NORMAL,
        }
    }
}

/// A passability predicate over a tile flag word and a block mask.
#[allow(non_camel_case_types)]
#[derive(Clone, Copy, Debug, PartialEq, Eq, Structural)]
pub enum CollisionStrategies {
    /// Standard movement: blocked when any bit of the mask is set.
    Normal,
    /// Coarse conservative check: blocked when any blocking-class bit is
    /// set at all, whatever the direction.
    Blocked,
    /// Standard movement restricted to roofed tiles.
    Indoors,
    /// Standard movement restricted to unroofed tiles.
    Outdoors,
    /// Sight: only the projectile-blocker counterparts of the wall and
    /// scenery bits in the mask obstruct; occupancy, floor and
    /// route-blocker bits are ignored.
    LineOfSight,
}

impl CollisionStrategies {
    /// What `can_move` returns, as a pure function of the flag word and the
    /// block mask.
    pub open spec fn spec_can_move(self, tile_flags: u32, block_flags: u32) -> bool {
        match self {
            CollisionStrategies::Normal => tile_flags & block_flags == 0,
            CollisionStrategies::Blocked => tile_flags & (block_flags | flags::BLOCK_ANY) == 0,
            CollisionStrategies::Indoors => tile_flags & block_flags == 0 && tile_flags
                & flags::ROOF != 0,
            CollisionStrategies::Outdoors => tile_flags & (block_flags | flags::ROOF) == 0,
            CollisionStrategies::LineOfSight => tile_flags & ((block_flags & 0x1FF) << 9u32) == 0,
        }
    }

    /// May a single entity cross into a tile carrying `tile_flags`, when
    /// the direction and entity context of the step demand that the bits of
    /// `block_flags` be clear?
    pub fn can_move(&self, tile_flags: u32, block_flags: u32) -> (r: bool)
        ensures
            r == self.spec_can_move(tile_flags, block_flags),
    {
        match self {
            CollisionStrategies::Normal => tile_flags & block_flags == 0,
            CollisionStrategies::Blocked => tile_flags & (block_flags | flags::BLOCK_ANY) == 0,
            CollisionStrategies::Indoors => tile_flags & block_flags == 0 && tile_flags
                & flags::ROOF != 0,
            CollisionStrategies::Outdoors => tile_flags & (block_flags | flags::ROOF) == 0,
            CollisionStrategies::LineOfSight => tile_flags & ((block_flags & 0x1FF) << 9u32) == 0,
        }
    }
}

/// Select the strategy for a boundary selector value.
pub fn get_collision_strategy(collision: CollisionType) -> (r: CollisionStrategies)
    ensures
        r == (match collision {
            CollisionType::NORMAL => CollisionStrategies::Normal,
            CollisionType::BLOCKED => CollisionStrategies::Blocked,
            CollisionType::INDOORS => CollisionStrategies::Indoors,
            CollisionType::OUTDOORS => CollisionStrategies::Outdoors,
            CollisionType::LINE_OF_SIGHT => CollisionStrategies::LineOfSight,
        }),
{
    match collision {
        CollisionType::NORMAL => CollisionStrategies::Normal,
        CollisionType::BLOCKED => CollisionStrategies::Blocked,
        CollisionType::INDOORS => CollisionStrategies::Indoors,
        CollisionType::OUTDOORS => CollisionStrategies::Outdoors,
        CollisionType::LINE_OF_SIGHT => CollisionStrategies::LineOfSight,
    }
}

/// Law: the `Blocked` strategy is conservative. Whenever it reports a tile
/// passable, the `Normal` strategy reports it passable too, for the same
/// flag word and block mask.
pub proof fn lemma_blocked_conservative(tile_flags: u32, block_flags: u32)
    ensures
        CollisionStrategies::Blocked.spec_can_move(tile_flags, block_flags)
            ==> CollisionStrategies::Normal.spec_can_move(tile_flags, block_flags),
{
    let t = tile_flags;
    let b = block_flags;
    assert(t & (b | 0x7FFBFFFFu32) == 0 ==> t & b == 0) by (bit_vector);
    assert(flags::BLOCK_ANY == 0x7FFBFFFFu32);
}

} // verus!
