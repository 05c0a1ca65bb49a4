use vstd::prelude::*;
use crate::types::{
    ExactPos, FireMode, MapPos, MoveMode, MovePoints, ObjectId, PlayerId, ReactionFireMode,
    SectorId, UnitId,
};
use crate::unit::UnitInfo;

verus! {

/// The outcome of one attack.
#[derive(Clone, Copy, PartialEq, Eq, Structural, Debug)]
pub struct AttackInfo {
    /// `None` where the attacker stays unknown to the player told of it.
    pub attacker_id: Option<UnitId>,
    pub defender_id: UnitId,
    pub mode: FireMode,
    pub killed: i32,
    pub suppression: i32,
    pub remove_move_points: bool,
    pub is_ambush: bool,
    pub is_inderect: bool,
    pub leave_wrecks: bool,
}

/// Something that happened in the game.
#[allow(inconsistent_fields)]
#[derive(Clone, Copy, PartialEq, Eq, Structural, Debug)]
pub enum CoreEvent {
    Move { unit_id: UnitId, from: ExactPos, to: ExactPos, mode: MoveMode, cost: MovePoints },
    EndTurn { old_id: PlayerId, new_id: PlayerId },
    CreateUnit { unit_info: UnitInfo },
    AttackUnit { attack_info: AttackInfo },
    ShowUnit { unit_info: UnitInfo },
    HideUnit { unit_id: UnitId },
    LoadUnit { transporter_id: Option<UnitId>, passenger_id: UnitId, from: ExactPos, to: ExactPos },
    UnloadUnit { unit_info: UnitInfo, transporter_id: Option<UnitId>, from: ExactPos, to: ExactPos },
    Attach { transporter_id: UnitId, attached_unit_id: Option<UnitId>, from: ExactPos, to: ExactPos },
    Detach { transporter_id: UnitId, from: ExactPos, to: ExactPos },
    SetReactionFireMode { unit_id: UnitId, mode: ReactionFireMode },
    SectorOwnerChanged { sector_id: SectorId, new_owner_id: Option<PlayerId> },
    VictoryPoint { player_id: PlayerId, pos: MapPos, count: i32 },
    Smoke { id: ObjectId, pos: MapPos, unit_id: Option<UnitId> },
    RemoveSmoke { id: ObjectId },
}

} // verus!
