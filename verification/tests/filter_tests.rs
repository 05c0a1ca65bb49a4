use std::rc::Rc;

use fow_core::event::{AttackInfo, CoreEvent};
use fow_core::filter::{filter_events, get_visible_enemies, show_or_hide_passive_enemies};
use fow_core::fow::{Fow, Sight};
use fow_core::map::{Terrain, TileMap};
use fow_core::state::InternalState;
use fow_core::types::{
    Distance, ExactPos, FireMode, MapPos, MoveMode, MovePoints, ObjectId, PlayerId, ReactionFireMode,
    SectorId, SlotId, Size2, UnitId, UnitTypeId,
};
use fow_core::unit::{unit_to_info, Db, Unit, UnitInfo, UnitType};

fn at(x: i32, y: i32) -> ExactPos {
    ExactPos { map_pos: MapPos { x, y }, slot_id: SlotId::Id(0) }
}

fn id(n: i32) -> UnitId {
    UnitId { id: n }
}

fn me() -> PlayerId {
    PlayerId { id: 0 }
}

fn unit(n: i32, player: i32, x: i32, y: i32) -> Unit {
    Unit {
        id: id(n),
        pos: at(x, y),
        player_id: PlayerId { id: player },
        type_id: UnitTypeId { id: 0 },
        is_alive: true,
        passenger_id: None,
        attached_unit_id: None,
        is_loaded: false,
        is_attached: false,
    }
}

/// An 8x8 plain map; player 0 has a watcher on (0, 0) that sees exactly the
/// tiles `seen` (the watcher's range covers the whole map).
fn setup(others: Vec<Unit>, seen: &[(i32, i32)]) -> (InternalState, Fow) {
    let db = Db::new(vec![UnitType {
        los_range: Distance { n: 20 },
        cover_los_range: Distance { n: 20 },
        is_air: false,
        is_infantry: false,
    }]);
    let size = Size2 { w: 8, h: 8 };
    let mut units = vec![unit(100, 0, 0, 0)];
    units.extend(others);
    let state = InternalState::from_parts(TileMap::from_tiles(size, vec![Terrain::Plain; 64]).unwrap(), units, vec![]).unwrap();
    let mut fow = Fow::new(Rc::new(db), size, me());
    let event = CoreEvent::EndTurn { old_id: PlayerId { id: 1 }, new_id: me() };
    let sights: Vec<Sight> = fow
        .sight_requests(&state, &event)
        .into_iter()
        .map(|req| Sight {
            unit_id: req.unit_id,
            origin: req.origin,
            tiles: if req.unit_id == id(100) { seen.iter().map(|&(x, y)| MapPos { x, y }).collect() } else { vec![] },
        })
        .collect();
    fow.apply_event(&state, &event, &sights);
    (state, fow)
}

fn mv(n: i32, from: ExactPos, to: ExactPos) -> CoreEvent {
    CoreEvent::Move { unit_id: id(n), from, to, mode: MoveMode::Hunt, cost: MovePoints { n: 2 } }
}

fn quiet_move(n: i32, from: ExactPos, to: ExactPos) -> CoreEvent {
    CoreEvent::Move { unit_id: id(n), from, to, mode: MoveMode::Fast, cost: MovePoints { n: 0 } }
}

fn info_at(u: &Unit, pos: ExactPos) -> UnitInfo {
    UnitInfo { pos, ..unit_to_info(u) }
}

fn sorted(mut ids: Vec<UnitId>) -> Vec<UnitId> {
    ids.sort_by_key(|u| u.id);
    ids
}

#[test]
fn own_move_is_told_as_it_is() {
    let (state, fow) = setup(vec![unit(1, 0, 3, 3)], &[]);
    let e = mv(1, at(3, 3), at(4, 3));
    let (events, active) = filter_events(&state, me(), &fow, &e);
    assert_eq!(events, vec![e]);
    assert!(active.is_empty());
}

#[test]
fn enemy_coming_into_sight_is_shown_then_moved() {
    let (state, fow) = setup(vec![unit(1, 1, 3, 3)], &[(4, 3)]);
    let e = mv(1, at(3, 3), at(4, 3));
    let (events, active) = filter_events(&state, me(), &fow, &e);
    let u = state.unit(id(1));
    assert_eq!(events, vec![CoreEvent::ShowUnit { unit_info: info_at(u, at(3, 3)) }, e]);
    assert_eq!(active, vec![id(1)]);
}

#[test]
fn enemy_coming_into_sight_shows_its_towed_unit() {
    let mut tower = unit(1, 1, 3, 3);
    tower.attached_unit_id = Some(id(2));
    let (state, fow) = setup(vec![tower, unit(2, 1, 3, 3)], &[(4, 3)]);
    let e = mv(1, at(3, 3), at(4, 3));
    let (events, active) = filter_events(&state, me(), &fow, &e);
    assert_eq!(
        events,
        vec![
            CoreEvent::ShowUnit { unit_info: info_at(state.unit(id(1)), at(3, 3)) },
            CoreEvent::ShowUnit { unit_info: info_at(state.unit(id(2)), at(3, 3)) },
            e,
        ]
    );
    assert_eq!(sorted(active), vec![id(1), id(2)]);
}

#[test]
fn enemy_leaving_sight_is_moved_then_hidden() {
    let (state, fow) = setup(vec![unit(1, 1, 3, 3)], &[(3, 3)]);
    let e = mv(1, at(3, 3), at(4, 3));
    let (events, active) = filter_events(&state, me(), &fow, &e);
    assert_eq!(events, vec![e, CoreEvent::HideUnit { unit_id: id(1) }]);
    assert_eq!(active, vec![id(1)]);
}

#[test]
fn unseen_enemy_move_is_not_told() {
    let (state, fow) = setup(vec![unit(1, 1, 3, 3)], &[]);
    let (events, active) = filter_events(&state, me(), &fow, &mv(1, at(3, 3), at(4, 3)));
    assert!(events.is_empty());
    assert_eq!(active, vec![id(1)]);
}

#[test]
fn seen_enemy_move_is_told_as_it_is() {
    let (state, fow) = setup(vec![unit(1, 1, 3, 3)], &[(3, 3), (4, 3)]);
    let e = mv(1, at(3, 3), at(4, 3));
    let (events, _) = filter_events(&state, me(), &fow, &e);
    assert_eq!(events, vec![e]);
}

#[test]
fn created_units_are_told_when_own_or_seen() {
    let (state, fow) = setup(vec![unit(1, 1, 3, 3), unit(2, 1, 5, 5), unit(3, 0, 6, 6)], &[(3, 3)]);
    for (n, told) in [(1, true), (2, false), (3, true)] {
        let e = CoreEvent::CreateUnit { unit_info: unit_to_info(state.unit(id(n))) };
        let (events, active) = filter_events(&state, me(), &fow, &e);
        if told {
            assert_eq!(events, vec![e]);
            assert_eq!(active, vec![id(n)]);
        } else {
            assert!(events.is_empty());
            assert!(active.is_empty());
        }
    }
}

fn attack(attacker: i32, defender: i32, ambush: bool) -> AttackInfo {
    AttackInfo {
        attacker_id: Some(id(attacker)),
        defender_id: id(defender),
        mode: FireMode::Reactive,
        killed: 2,
        suppression: 20,
        remove_move_points: true,
        is_ambush: ambush,
        is_inderect: false,
        leave_wrecks: true,
    }
}

#[test]
fn ambush_keeps_the_attacker_unknown() {
    let (state, fow) = setup(vec![unit(1, 1, 3, 3)], &[]);
    let info = attack(1, 100, true);
    let (events, active) = filter_events(&state, me(), &fow, &CoreEvent::AttackUnit { attack_info: info });
    assert_eq!(events, vec![CoreEvent::AttackUnit { attack_info: AttackInfo { attacker_id: None, ..info } }]);
    assert_eq!(active, vec![id(100)]);
}

#[test]
fn open_attack_shows_an_unseen_attacker() {
    let (state, fow) = setup(vec![unit(1, 1, 3, 3)], &[]);
    let info = attack(1, 100, false);
    let e = CoreEvent::AttackUnit { attack_info: info };
    let (events, active) = filter_events(&state, me(), &fow, &e);
    assert_eq!(events, vec![CoreEvent::ShowUnit { unit_info: unit_to_info(state.unit(id(1))) }, e]);
    assert_eq!(sorted(active), vec![id(1), id(100)]);
}

#[test]
fn own_ambush_is_told_with_the_attacker() {
    let (state, fow) = setup(vec![unit(1, 1, 3, 3)], &[]);
    let e = CoreEvent::AttackUnit { attack_info: attack(100, 1, true) };
    let (events, active) = filter_events(&state, me(), &fow, &e);
    assert_eq!(events, vec![e]);
    assert_eq!(active, vec![id(1)]);
}

#[test]
fn loading_into_an_unseen_transporter_hides_the_transporter() {
    let (state, fow) = setup(vec![unit(1, 1, 3, 3), unit(2, 1, 4, 3)], &[(3, 3)]);
    let e = CoreEvent::LoadUnit { transporter_id: Some(id(2)), passenger_id: id(1), from: at(3, 3), to: at(4, 3) };
    let (events, active) = filter_events(&state, me(), &fow, &e);
    assert_eq!(
        events,
        vec![CoreEvent::LoadUnit { transporter_id: None, passenger_id: id(1), from: at(3, 3), to: at(4, 3) }]
    );
    assert_eq!(active, vec![id(1)]);
}

#[test]
fn loading_an_unseen_passenger_into_a_seen_transporter_shows_the_passenger() {
    let (state, fow) = setup(vec![unit(1, 1, 3, 3), unit(2, 1, 4, 3)], &[(4, 3)]);
    let e = CoreEvent::LoadUnit { transporter_id: Some(id(2)), passenger_id: id(1), from: at(3, 3), to: at(4, 3) };
    let (events, _) = filter_events(&state, me(), &fow, &e);
    assert_eq!(events, vec![CoreEvent::ShowUnit { unit_info: info_at(state.unit(id(1)), at(3, 3)) }, e]);
}

#[test]
fn own_and_unseen_loads() {
    let (state, fow) = setup(vec![unit(1, 0, 3, 3), unit(2, 1, 4, 3), unit(3, 1, 5, 5)], &[]);
    let own = CoreEvent::LoadUnit { transporter_id: Some(id(2)), passenger_id: id(1), from: at(3, 3), to: at(4, 3) };
    assert_eq!(filter_events(&state, me(), &fow, &own).0, vec![own]);
    let unseen = CoreEvent::LoadUnit { transporter_id: Some(id(2)), passenger_id: id(3), from: at(5, 5), to: at(4, 3) };
    let (events, active) = filter_events(&state, me(), &fow, &unseen);
    assert!(events.is_empty());
    assert!(active.is_empty());
}

#[test]
fn unloading_out_of_sight_hides_the_passenger() {
    let (state, fow) = setup(vec![unit(1, 1, 3, 3), unit(2, 1, 3, 3)], &[(3, 3)]);
    let info = info_at(state.unit(id(1)), at(4, 3));
    let e = CoreEvent::UnloadUnit { unit_info: info, transporter_id: Some(id(2)), from: at(3, 3), to: at(4, 3) };
    let (events, active) = filter_events(&state, me(), &fow, &e);
    assert_eq!(events, vec![e, CoreEvent::HideUnit { unit_id: id(1) }]);
    assert_eq!(active, vec![id(1)]);
}

#[test]
fn unloading_from_an_unseen_transporter_hides_the_transporter() {
    let (state, fow) = setup(vec![unit(1, 1, 3, 3), unit(2, 1, 3, 3)], &[(4, 3)]);
    let info = info_at(state.unit(id(1)), at(4, 3));
    let e = CoreEvent::UnloadUnit { unit_info: info, transporter_id: Some(id(2)), from: at(3, 3), to: at(4, 3) };
    let (events, active) = filter_events(&state, me(), &fow, &e);
    assert_eq!(
        events,
        vec![CoreEvent::UnloadUnit { unit_info: info, transporter_id: None, from: at(3, 3), to: at(4, 3) }]
    );
    assert_eq!(active, vec![id(1)]);
}

#[test]
fn attaching_a_seen_unit_shows_the_unseen_tower() {
    let (state, fow) = setup(vec![unit(1, 1, 3, 3), unit(2, 1, 4, 3)], &[(4, 3)]);
    let e = CoreEvent::Attach { transporter_id: id(1), attached_unit_id: Some(id(2)), from: at(3, 3), to: at(4, 3) };
    let (events, active) = filter_events(&state, me(), &fow, &e);
    let shown = UnitInfo { pos: at(3, 3), attached_unit_id: None, ..unit_to_info(state.unit(id(1))) };
    assert_eq!(events, vec![CoreEvent::ShowUnit { unit_info: shown }, e]);
    assert_eq!(active, vec![id(1)]);
}

#[test]
fn attaching_an_unseen_unit_moves_and_hides_the_tower() {
    let (state, fow) = setup(vec![unit(1, 1, 3, 3), unit(2, 1, 4, 3)], &[(3, 3)]);
    let e = CoreEvent::Attach { transporter_id: id(1), attached_unit_id: Some(id(2)), from: at(3, 3), to: at(4, 3) };
    let (events, _) = filter_events(&state, me(), &fow, &e);
    assert_eq!(events, vec![quiet_move(1, at(3, 3), at(4, 3)), CoreEvent::HideUnit { unit_id: id(1) }]);
}

#[test]
fn own_attach_needs_no_attached_id() {
    let (state, fow) = setup(vec![unit(1, 0, 3, 3)], &[]);
    let e = CoreEvent::Attach { transporter_id: id(1), attached_unit_id: None, from: at(3, 3), to: at(4, 3) };
    let (events, active) = filter_events(&state, me(), &fow, &e);
    assert_eq!(events, vec![e]);
    assert!(active.is_empty());
}

#[test]
fn detaching_out_of_sight_hides_the_tower() {
    let (state, fow) = setup(vec![unit(1, 1, 3, 3)], &[(3, 3)]);
    let e = CoreEvent::Detach { transporter_id: id(1), from: at(3, 3), to: at(4, 3) };
    let (events, active) = filter_events(&state, me(), &fow, &e);
    assert_eq!(events, vec![e, CoreEvent::HideUnit { unit_id: id(1) }]);
    assert_eq!(active, vec![id(1)]);
}

#[test]
fn detaching_into_sight_shows_and_moves_the_tower() {
    let (state, fow) = setup(vec![unit(1, 1, 3, 3)], &[(4, 3)]);
    let e = CoreEvent::Detach { transporter_id: id(1), from: at(3, 3), to: at(4, 3) };
    let (events, _) = filter_events(&state, me(), &fow, &e);
    let shown = UnitInfo { pos: at(3, 3), attached_unit_id: None, ..unit_to_info(state.unit(id(1))) };
    assert_eq!(events, vec![CoreEvent::ShowUnit { unit_info: shown }, quiet_move(1, at(3, 3), at(4, 3))]);
}

#[test]
fn reaction_fire_mode_is_told_to_the_owner_only() {
    let (state, fow) = setup(vec![unit(1, 1, 3, 3)], &[(3, 3)]);
    let theirs = CoreEvent::SetReactionFireMode { unit_id: id(1), mode: ReactionFireMode::HoldFire };
    assert!(filter_events(&state, me(), &fow, &theirs).0.is_empty());
    let mine = CoreEvent::SetReactionFireMode { unit_id: id(100), mode: ReactionFireMode::Normal };
    assert_eq!(filter_events(&state, me(), &fow, &mine).0, vec![mine]);
}

#[test]
fn smoke_from_an_unseen_unit_comes_without_its_layer() {
    let (state, fow) = setup(vec![unit(1, 1, 3, 3), unit(2, 1, 5, 5)], &[(3, 3)]);
    let seen = CoreEvent::Smoke { id: ObjectId { id: 7 }, pos: MapPos { x: 4, y: 4 }, unit_id: Some(id(1)) };
    assert_eq!(filter_events(&state, me(), &fow, &seen).0, vec![seen]);
    let unseen = CoreEvent::Smoke { id: ObjectId { id: 8 }, pos: MapPos { x: 4, y: 4 }, unit_id: Some(id(2)) };
    assert_eq!(
        filter_events(&state, me(), &fow, &unseen).0,
        vec![CoreEvent::Smoke { id: ObjectId { id: 8 }, pos: MapPos { x: 4, y: 4 }, unit_id: None }]
    );
}

#[test]
fn public_events_are_told_as_they_are() {
    let (state, fow) = setup(vec![], &[]);
    for e in [
        CoreEvent::EndTurn { old_id: PlayerId { id: 1 }, new_id: me() },
        CoreEvent::RemoveSmoke { id: ObjectId { id: 3 } },
        CoreEvent::VictoryPoint { player_id: PlayerId { id: 1 }, pos: MapPos { x: 1, y: 1 }, count: 5 },
        CoreEvent::SectorOwnerChanged { sector_id: SectorId { id: 2 }, new_owner_id: None },
    ] {
        let (events, active) = filter_events(&state, me(), &fow, &e);
        assert_eq!(events, vec![e]);
        assert!(active.is_empty());
    }
}

#[test]
fn visible_enemies_are_the_seen_units_of_others() {
    let (state, fow) = setup(vec![unit(1, 1, 3, 3), unit(2, 1, 5, 5), unit(3, 0, 3, 3), unit(4, 2, 6, 6)], &[(3, 3), (6, 6)]);
    assert_eq!(get_visible_enemies(&state, &fow, me()), vec![id(1), id(4)]);
    assert!(get_visible_enemies(&state, &fow, PlayerId { id: 1 }).contains(&id(3)));
}

#[test]
fn passive_enemies_are_shown_and_hidden() {
    let (state, _) = setup(vec![unit(1, 1, 3, 3), unit(2, 1, 5, 5), unit(3, 1, 6, 6), unit(4, 1, 7, 7)], &[]);
    let units = state.units().clone();
    let old = vec![id(1), id(2), id(4)];
    let new = vec![id(2), id(3), id(1)];
    let events = show_or_hide_passive_enemies(&units, &vec![], &old, &new);
    assert_eq!(
        events,
        vec![
            CoreEvent::ShowUnit { unit_info: unit_to_info(state.unit(id(3))) },
            CoreEvent::HideUnit { unit_id: id(4) },
        ]
    );
    let events = show_or_hide_passive_enemies(&units, &vec![id(3), id(4)], &old, &new);
    assert!(events.is_empty());
    let events = show_or_hide_passive_enemies(&units, &vec![], &vec![], &vec![]);
    assert!(events.is_empty());
}
