use vstd::prelude::*;
use crate::types::{Distance, ExactPos, PlayerId, UnitId, UnitTypeId};

verus! {

/// What the fog of war needs to know of a kind of unit.
#[derive(Clone, Copy, PartialEq, Eq, Structural, Debug)]
pub struct UnitType {
    /// How far the unit sees.
    pub los_range: Distance,
    /// Up to this distance the unit sees through any cover.
    pub cover_los_range: Distance,
    pub is_air: bool,
    pub is_infantry: bool,
}

/// The unit types of the game, indexed by `UnitTypeId`.
#[derive(Clone, Debug)]
pub struct Db {
    unit_types: Vec<UnitType>,
}

impl Db {
    pub closed spec fn unit_types_spec(&self) -> Seq<UnitType> {
        self.unit_types@
    }

    pub open spec fn has_type(&self, id: UnitTypeId) -> bool {
        0 <= id.id < self.unit_types_spec().len()
    }

    pub open spec fn type_of(&self, id: UnitTypeId) -> UnitType {
        self.unit_types_spec()[id.id as int]
    }

    pub fn new(unit_types: Vec<UnitType>) -> (r: Db)
        ensures
            r.unit_types_spec() == unit_types@,
    {
        Db { unit_types }
    }

    /// The unit type with the given id.
    pub fn unit_type(&self, id: UnitTypeId) -> (r: &UnitType)
        requires
            self.has_type(id),
        ensures
            *r == self.type_of(id),
    {
        &self.unit_types[id.id as usize]
    }
}

/// A unit on the map.
#[derive(Clone, Copy, PartialEq, Eq, Structural, Debug)]
pub struct Unit {
    pub id: UnitId,
    pub pos: ExactPos,
    pub player_id: PlayerId,
    pub type_id: UnitTypeId,
    pub is_alive: bool,
    /// The unit that this one carries, if any.
    pub passenger_id: Option<UnitId>,
    /// The unit that this one tows, if any.
    pub attached_unit_id: Option<UnitId>,
    pub is_loaded: bool,
    pub is_attached: bool,
}

/// What a player is told about a unit when it comes into sight.
#[derive(Clone, Copy, PartialEq, Eq, Structural, Debug)]
pub struct UnitInfo {
    pub unit_id: UnitId,
    pub pos: ExactPos,
    pub type_id: UnitTypeId,
    pub player_id: PlayerId,
    pub passenger_id: Option<UnitId>,
    pub attached_unit_id: Option<UnitId>,
    pub is_loaded: bool,
    pub is_attached: bool,
}

pub open spec fn spec_unit_to_info(unit: Unit) -> UnitInfo {
    UnitInfo {
        unit_id: unit.id,
        pos: unit.pos,
        type_id: unit.type_id,
        player_id: unit.player_id,
        passenger_id: unit.passenger_id,
        attached_unit_id: unit.attached_unit_id,
        is_loaded: unit.is_loaded,
        is_attached: unit.is_attached,
    }
}

/// The description of `unit` that a player is shown.
pub fn unit_to_info(unit: &Unit) -> (r: UnitInfo)
    ensures
        r == spec_unit_to_info(*unit),
{
    UnitInfo {
        unit_id: unit.id,
        pos: unit.pos,
        type_id: unit.type_id,
        player_id: unit.player_id,
        passenger_id: unit.passenger_id,
        attached_unit_id: unit.attached_unit_id,
        is_loaded: unit.is_loaded,
        is_attached: unit.is_attached,
    }
}

} // verus!
