use vstd::prelude::*;

verus! {

/// A tile of the hex map, in offset coordinates.
#[derive(Clone, Copy, PartialEq, Eq, Structural, Debug)]
pub struct MapPos {
    pub x: i32,
    pub y: i32,
}

/// Half of `v`, rounded toward zero, as Rust's `/` does.
pub open spec fn half_toward_zero(v: int) -> int {
    if v >= 0 { v / 2 } else { -((-v) / 2) }
}

pub open spec fn abs(v: int) -> int {
    if v >= 0 { v } else { -v }
}

/// The number of hex steps between two tiles.
pub open spec fn hex_distance(from: MapPos, to: MapPos) -> int {
    let dx = (to.x + half_toward_zero(to.y as int)) - (from.x + half_toward_zero(from.y as int));
    let dy = from.y - to.y;
    (abs(dx) + abs(dy) + abs(dx + dy)) / 2
}

fn half_i64(v: i64) -> (r: i64)
    requires
        -0x1_0000_0000 <= v <= 0x1_0000_0000,
    ensures
        r == half_toward_zero(v as int),
{
    if v >= 0 {
        v / 2
    } else {
        -((-v) / 2)
    }
}

fn abs_i64(v: i64) -> (r: i64)
    requires
        -0x10_0000_0000 <= v <= 0x10_0000_0000,
    ensures
        r == abs(v as int),
{
    if v >= 0 {
        v
    } else {
        -v
    }
}

/// The hex distance between two tiles, computed without overflow for
/// every pair of positions.
pub fn distance(from: MapPos, to: MapPos) -> (d: i64)
    ensures
        d == hex_distance(from, to),
        d >= 0,
{
    let dx: i64 = (to.x as i64 + half_i64(to.y as i64)) - (from.x as i64 + half_i64(from.y as i64));
    let dy: i64 = from.y as i64 - to.y as i64;
    (abs_i64(dx) + abs_i64(dy) + abs_i64(dx + dy)) / 2
}

/// Where a unit stands: a tile and a slot inside it.
#[derive(Clone, Copy, PartialEq, Eq, Structural, Debug)]
pub struct ExactPos {
    pub map_pos: MapPos,
    pub slot_id: SlotId,
}

/// A place inside a tile.
#[derive(Clone, Copy, PartialEq, Eq, Structural, Debug)]
pub enum SlotId {
    Id(u8),
    WholeTile,
    Air,
}

/// A number of hex steps.
#[derive(Clone, Copy, PartialEq, Eq, Structural, Debug)]
pub struct Distance {
    pub n: i32,
}

#[derive(Clone, Copy, PartialEq, Eq, Structural, Debug)]
pub struct PlayerId {
    pub id: i32,
}

#[derive(Clone, Copy, PartialEq, Eq, Structural, Debug)]
pub struct UnitId {
    pub id: i32,
}

#[derive(Clone, Copy, PartialEq, Eq, Structural, Debug)]
pub struct UnitTypeId {
    pub id: i32,
}

#[derive(Clone, Copy, PartialEq, Eq, Structural, Debug)]
pub struct ObjectId {
    pub id: i32,
}

#[derive(Clone, Copy, PartialEq, Eq, Structural, Debug)]
pub struct SectorId {
    pub id: i32,
}

#[derive(Clone, Copy, PartialEq, Eq, Structural, Debug)]
pub struct MovePoints {
    pub n: i32,
}

#[derive(Clone, Copy, PartialEq, Eq, Structural, Debug)]
pub enum MoveMode {
    Fast,
    Hunt,
}

#[derive(Clone, Copy, PartialEq, Eq, Structural, Debug)]
pub enum FireMode {
    Active,
    Reactive,
}

#[derive(Clone, Copy, PartialEq, Eq, Structural, Debug)]
pub enum ReactionFireMode {
    Normal,
    HoldFire,
}

/// The width and height of the map, in tiles.
#[derive(Clone, Copy, PartialEq, Eq, Structural, Debug)]
pub struct Size2 {
    pub w: i32,
    pub h: i32,
}

} // verus!
