use std::rc::Rc;

use fow_core::event::{AttackInfo, CoreEvent};
use fow_core::fow::{calc_visibility, fake_fow, FakeFow, FogOfWar, Fow, Sight, SightRequest, TileVisibility};
use fow_core::full_state::FullState;
use fow_core::map::{Terrain, TileMap};
use fow_core::state::{InternalState, Object, ObjectClass};
use fow_core::types::{
    distance, Distance, ExactPos, FireMode, MapPos, MoveMode, MovePoints, PlayerId, SlotId, Size2,
    UnitId, UnitTypeId,
};
use fow_core::unit::{unit_to_info, Db, Unit, UnitType};

const TANK: i32 = 0;
const INFANTRY: i32 = 1;
const PLANE: i32 = 2;

fn db() -> Db {
    Db::new(vec![
        UnitType { los_range: Distance { n: 5 }, cover_los_range: Distance { n: 1 }, is_air: false, is_infantry: false },
        UnitType { los_range: Distance { n: 3 }, cover_los_range: Distance { n: 1 }, is_air: false, is_infantry: true },
        UnitType { los_range: Distance { n: 10 }, cover_los_range: Distance { n: 0 }, is_air: true, is_infantry: false },
    ])
}

fn at(x: i32, y: i32) -> ExactPos {
    ExactPos { map_pos: MapPos { x, y }, slot_id: SlotId::Id(0) }
}

fn unit(id: i32, player: i32, type_id: i32, x: i32, y: i32) -> Unit {
    Unit {
        id: UnitId { id },
        pos: at(x, y),
        player_id: PlayerId { id: player },
        type_id: UnitTypeId { id: type_id },
        is_alive: true,
        passenger_id: None,
        attached_unit_id: None,
        is_loaded: false,
        is_attached: false,
    }
}

fn size() -> Size2 {
    Size2 { w: 8, h: 8 }
}

fn terrain(special: &[(i32, i32, Terrain)]) -> TileMap<Terrain> {
    let mut tiles = vec![Terrain::Plain; 64];
    for &(x, y, t) in special {
        tiles[(x + y * 8) as usize] = t;
    }
    TileMap::from_tiles(size(), tiles).unwrap()
}

fn world(units: Vec<Unit>, objects: Vec<Object>, special: &[(i32, i32, Terrain)]) -> InternalState {
    InternalState::from_parts(terrain(special), units, objects).unwrap()
}

fn all_tiles() -> Vec<MapPos> {
    let mut r = Vec::new();
    for y in 0..8 {
        for x in 0..8 {
            r.push(MapPos { x, y });
        }
    }
    r
}

/// Sights for `event` in which the first looking unit reaches `tiles` and the others nothing.
fn sights(fow: &Fow, state: &InternalState, event: &CoreEvent, tiles: &[MapPos]) -> Vec<Sight> {
    fow.sight_requests(state, event)
        .into_iter()
        .enumerate()
        .map(|(k, req)| Sight {
            unit_id: req.unit_id,
            origin: req.origin,
            tiles: if k == 0 { tiles.to_vec() } else { Vec::new() },
        })
        .collect()
}

fn new_fow(player: i32) -> Fow {
    Fow::new(Rc::new(db()), size(), PlayerId { id: player })
}

fn start_turn(fow: &mut Fow, state: &InternalState, tiles: &[MapPos]) {
    let event = CoreEvent::EndTurn { old_id: PlayerId { id: 9 }, new_id: fow.player_id() };
    let s = sights(fow, state, &event, tiles);
    fow.apply_event(state, &event, &s);
}

#[test]
fn distance_between_neighbours_is_one() {
    assert_eq!(distance(MapPos { x: 0, y: 0 }, MapPos { x: 1, y: 0 }), 1);
    assert_eq!(distance(MapPos { x: 0, y: 0 }, MapPos { x: 0, y: 1 }), 1);
    assert_eq!(distance(MapPos { x: 5, y: 4 }, MapPos { x: 6, y: 5 }), 1);
    assert_eq!(distance(MapPos { x: 5, y: 5 }, MapPos { x: 4, y: 6 }), 1);
}

#[test]
fn distance_exact_values() {
    assert_eq!(distance(MapPos { x: 1, y: 1 }, MapPos { x: 1, y: 1 }), 0);
    assert_eq!(distance(MapPos { x: 0, y: 0 }, MapPos { x: 0, y: 2 }), 2);
    assert_eq!(distance(MapPos { x: 2, y: 2 }, MapPos { x: 0, y: 0 }), 3);
    assert_eq!(distance(MapPos { x: 0, y: 0 }, MapPos { x: 4, y: 4 }), 6);
    assert_eq!(distance(MapPos { x: 0, y: -3 }, MapPos { x: 0, y: 0 }), 3);
    assert_eq!(
        distance(MapPos { x: i32::MIN, y: i32::MIN }, MapPos { x: i32::MAX, y: i32::MAX }),
        distance(MapPos { x: i32::MAX, y: i32::MAX }, MapPos { x: i32::MIN, y: i32::MIN })
    );
}

#[test]
fn tile_visibility_default_and_order() {
    assert_eq!(TileVisibility::default(), TileVisibility::No);
    assert!(TileVisibility::Excellent.is_better_than(TileVisibility::Normal));
    assert!(TileVisibility::Normal.is_better_than(TileVisibility::No));
    assert!(!TileVisibility::Normal.is_better_than(TileVisibility::Normal));
    assert!(!TileVisibility::No.is_better_than(TileVisibility::Excellent));
    assert!(TileVisibility::Normal < TileVisibility::Excellent);
}

#[test]
fn tile_map_rejects_wrong_tile_count() {
    assert!(TileMap::from_tiles(size(), vec![Terrain::Plain; 63]).is_none());
    assert!(TileMap::from_tiles(Size2 { w: -1, h: 2 }, Vec::<Terrain>::new()).is_none());
    let m = TileMap::from_tiles(Size2 { w: 2, h: 1 }, vec![Terrain::City, Terrain::Water]).unwrap();
    assert_eq!(*m.tile(MapPos { x: 1, y: 0 }), Terrain::Water);
    assert!(!m.is_inboard(MapPos { x: 2, y: 0 }));
}

#[test]
fn state_rejects_duplicate_ids_and_units_off_the_map() {
    assert!(InternalState::from_parts(terrain(&[]), vec![unit(1, 0, TANK, 0, 0), unit(1, 1, TANK, 1, 1)], vec![]).is_none());
    assert!(InternalState::from_parts(terrain(&[]), vec![unit(1, 0, TANK, 8, 0)], vec![]).is_none());
    let s = world(vec![unit(1, 0, TANK, 0, 0), unit(2, 1, TANK, 1, 1)], vec![], &[]);
    assert_eq!(s.unit(UnitId { id: 2 }).player_id, PlayerId { id: 1 });
    assert!(s.unit_opt(UnitId { id: 3 }).is_none());
}

#[test]
fn calc_visibility_by_distance_terrain_and_objects() {
    let state = world(
        vec![],
        vec![
            Object { pos: at(4, 0), class: ObjectClass::Smoke },
            Object { pos: at(2, 0), class: ObjectClass::Road },
        ],
        &[(3, 0, Terrain::Trees), (1, 0, Terrain::City)],
    );
    let tank = db().unit_type(UnitTypeId { id: TANK }).clone();
    let o = MapPos { x: 0, y: 0 };
    // Beyond sight range.
    assert_eq!(calc_visibility(&state, &tank, o, MapPos { x: 7, y: 0 }), TileVisibility::No);
    // Within cover range: even a city is seen perfectly.
    assert_eq!(calc_visibility(&state, &tank, o, MapPos { x: 1, y: 0 }), TileVisibility::Excellent);
    // Trees give cover.
    assert_eq!(calc_visibility(&state, &tank, o, MapPos { x: 3, y: 0 }), TileVisibility::Normal);
    // Smoke gives cover, a road does not.
    assert_eq!(calc_visibility(&state, &tank, o, MapPos { x: 4, y: 0 }), TileVisibility::Normal);
    assert_eq!(calc_visibility(&state, &tank, o, MapPos { x: 2, y: 0 }), TileVisibility::Excellent);
    assert_eq!(calc_visibility(&state, &tank, o, MapPos { x: 5, y: 0 }), TileVisibility::Excellent);
}

#[test]
fn new_fow_sees_nothing() {
    let fow = new_fow(0);
    for p in all_tiles() {
        assert!(!fow.is_tile_visible(p));
    }
}

#[test]
fn turn_start_shows_what_own_units_see() {
    let state = world(vec![unit(1, 0, TANK, 0, 0), unit(2, 1, TANK, 7, 7)], vec![], &[]);
    let mut fow = new_fow(0);
    start_turn(&mut fow, &state, &all_tiles());
    assert!(fow.is_tile_visible(MapPos { x: 0, y: 0 }));
    assert!(fow.is_tile_visible(MapPos { x: 5, y: 0 }));
    // Beyond the tank's range.
    assert!(!fow.is_tile_visible(MapPos { x: 6, y: 0 }));
    assert!(!fow.is_tile_visible(MapPos { x: 7, y: 7 }));
    // A ground unit on an unseen tile is not seen.
    assert!(!fow.is_visible(&state, state.unit(UnitId { id: 2 }), at(7, 7)));
    assert!(fow.is_visible(&state, state.unit(UnitId { id: 2 }), at(4, 0)));
}

#[test]
fn turn_start_asks_every_living_own_unit_to_look() {
    let mut dead = unit(3, 0, TANK, 4, 4);
    dead.is_alive = false;
    let state = world(vec![unit(1, 0, PLANE, 0, 0), unit(2, 1, TANK, 7, 7), dead, unit(4, 0, INFANTRY, 2, 2)], vec![], &[]);
    let fow = new_fow(0);
    let event = CoreEvent::EndTurn { old_id: PlayerId { id: 1 }, new_id: PlayerId { id: 0 } };
    assert_eq!(
        fow.sight_requests(&state, &event),
        vec![
            SightRequest { unit_id: UnitId { id: 1 }, origin: MapPos { x: 0, y: 0 }, range: Distance { n: 10 }, simple: true },
            SightRequest { unit_id: UnitId { id: 4 }, origin: MapPos { x: 2, y: 2 }, range: Distance { n: 3 }, simple: false },
        ]
    );
}

#[test]
fn turn_start_closes_the_fog_first() {
    let state = world(vec![unit(1, 0, TANK, 0, 0)], vec![], &[]);
    let mut fow = new_fow(0);
    start_turn(&mut fow, &state, &all_tiles());
    assert!(fow.is_tile_visible(MapPos { x: 3, y: 0 }));
    start_turn(&mut fow, &state, &[MapPos { x: 0, y: 0 }]);
    assert!(fow.is_tile_visible(MapPos { x: 0, y: 0 }));
    assert!(!fow.is_tile_visible(MapPos { x: 3, y: 0 }));
}

#[test]
fn other_players_turn_start_changes_nothing() {
    let state = world(vec![unit(1, 0, TANK, 0, 0)], vec![], &[]);
    let mut fow = new_fow(0);
    start_turn(&mut fow, &state, &all_tiles());
    let event = CoreEvent::EndTurn { old_id: PlayerId { id: 0 }, new_id: PlayerId { id: 1 } };
    assert!(fow.sight_requests(&state, &event).is_empty());
    fow.apply_event(&state, &event, &Vec::new());
    assert!(fow.is_tile_visible(MapPos { x: 3, y: 0 }));
}

#[test]
fn own_move_adds_sight_and_keeps_old_sight() {
    let state = world(vec![unit(1, 0, TANK, 0, 0)], vec![], &[]);
    let mut fow = new_fow(0);
    start_turn(&mut fow, &state, &[MapPos { x: 0, y: 0 }]);
    let event = CoreEvent::Move {
        unit_id: UnitId { id: 1 },
        from: at(0, 0),
        to: at(2, 0),
        mode: MoveMode::Fast,
        cost: MovePoints { n: 1 },
    };
    let req = fow.sight_requests(&state, &event);
    assert_eq!(
        req,
        vec![SightRequest { unit_id: UnitId { id: 1 }, origin: MapPos { x: 2, y: 0 }, range: Distance { n: 5 }, simple: false }]
    );
    let s = sights(&fow, &state, &event, &all_tiles());
    fow.apply_event(&state, &event, &s);
    assert!(fow.is_tile_visible(MapPos { x: 0, y: 0 }));
    // Seen from (2, 0), five steps away, though seven from (0, 0).
    assert!(fow.is_tile_visible(MapPos { x: 7, y: 0 }));
}

#[test]
fn enemy_move_changes_nothing() {
    let state = world(vec![unit(1, 0, TANK, 0, 0), unit(2, 1, TANK, 5, 5)], vec![], &[]);
    let mut fow = new_fow(0);
    start_turn(&mut fow, &state, &[MapPos { x: 0, y: 0 }]);
    let event = CoreEvent::Move {
        unit_id: UnitId { id: 2 },
        from: at(5, 5),
        to: at(4, 5),
        mode: MoveMode::Hunt,
        cost: MovePoints { n: 1 },
    };
    assert!(fow.sight_requests(&state, &event).is_empty());
    fow.apply_event(&state, &event, &Vec::new());
    assert!(fow.is_tile_visible(MapPos { x: 0, y: 0 }));
    assert!(!fow.is_tile_visible(MapPos { x: 4, y: 5 }));
}

#[test]
fn create_and_unload_look_from_the_unit() {
    let state = world(vec![unit(1, 0, TANK, 3, 3), unit(2, 0, INFANTRY, 6, 6)], vec![], &[]);
    let mut fow = new_fow(0);
    let info = unit_to_info(state.unit(UnitId { id: 1 }));
    let create = CoreEvent::CreateUnit { unit_info: info };
    assert_eq!(
        fow.sight_requests(&state, &create),
        vec![SightRequest { unit_id: UnitId { id: 1 }, origin: MapPos { x: 3, y: 3 }, range: Distance { n: 5 }, simple: false }]
    );
    let s = sights(&fow, &state, &create, &[MapPos { x: 3, y: 4 }]);
    fow.apply_event(&state, &create, &s);
    assert!(fow.is_tile_visible(MapPos { x: 3, y: 4 }));
    let mut unload_info = unit_to_info(state.unit(UnitId { id: 2 }));
    unload_info.pos = at(6, 7);
    let unload = CoreEvent::UnloadUnit { unit_info: unload_info, transporter_id: Some(UnitId { id: 1 }), from: at(6, 6), to: at(6, 7) };
    assert_eq!(
        fow.sight_requests(&state, &unload),
        vec![SightRequest { unit_id: UnitId { id: 2 }, origin: MapPos { x: 6, y: 7 }, range: Distance { n: 3 }, simple: false }]
    );
    let s = sights(&fow, &state, &unload, &[MapPos { x: 7, y: 7 }]);
    fow.apply_event(&state, &unload, &s);
    assert!(fow.is_tile_visible(MapPos { x: 7, y: 7 }));
    assert!(fow.is_tile_visible(MapPos { x: 3, y: 4 }));
}

fn attack(attacker: Option<i32>, defender: i32, ambush: bool) -> AttackInfo {
    AttackInfo {
        attacker_id: attacker.map(|id| UnitId { id }),
        defender_id: UnitId { id: defender },
        mode: FireMode::Active,
        killed: 1,
        suppression: 10,
        remove_move_points: false,
        is_ambush: ambush,
        is_inderect: false,
        leave_wrecks: false,
    }
}

#[test]
fn open_attack_reveals_the_attackers_tile() {
    let state = world(vec![unit(1, 0, TANK, 0, 0), unit(2, 1, TANK, 6, 6)], vec![], &[]);
    let mut fow = new_fow(0);
    let ambush = CoreEvent::AttackUnit { attack_info: attack(Some(2), 1, true) };
    fow.apply_event(&state, &ambush, &Vec::new());
    assert!(!fow.is_tile_visible(MapPos { x: 6, y: 6 }));
    let open = CoreEvent::AttackUnit { attack_info: attack(Some(2), 1, false) };
    fow.apply_event(&state, &open, &Vec::new());
    assert!(fow.is_tile_visible(MapPos { x: 6, y: 6 }));
    assert!(fow.is_visible(&state, state.unit(UnitId { id: 2 }), at(6, 6)));
}

#[test]
fn infantry_hides_where_the_view_is_only_normal() {
    let state = world(
        vec![unit(1, 0, TANK, 0, 0), unit(2, 1, INFANTRY, 3, 0), unit(3, 1, TANK, 3, 0)],
        vec![],
        &[(3, 0, Terrain::Trees)],
    );
    let mut fow = new_fow(0);
    start_turn(&mut fow, &state, &all_tiles());
    assert!(fow.is_tile_visible(MapPos { x: 3, y: 0 }));
    assert!(!fow.is_visible(&state, state.unit(UnitId { id: 2 }), at(3, 0)));
    assert!(fow.is_visible(&state, state.unit(UnitId { id: 3 }), at(3, 0)));
}

#[test]
fn a_carried_unit_is_never_seen() {
    let mut transporter = unit(3, 1, TANK, 2, 0);
    transporter.passenger_id = Some(UnitId { id: 2 });
    let state = world(vec![unit(1, 0, TANK, 0, 0), unit(2, 1, INFANTRY, 2, 0), transporter], vec![], &[]);
    let mut fow = new_fow(0);
    start_turn(&mut fow, &state, &all_tiles());
    assert!(!fow.is_visible(&state, state.unit(UnitId { id: 2 }), at(2, 0)));
    assert!(fow.is_visible(&state, state.unit(UnitId { id: 2 }), at(2, 1)));
}

#[test]
fn an_air_unit_near_an_enemy_is_seen_in_the_fog() {
    let state = world(vec![unit(1, 0, TANK, 0, 0), unit(2, 1, PLANE, 7, 7)], vec![], &[]);
    let fow = new_fow(0);
    // Three steps from the tank, whose range is five.
    assert!(fow.is_visible(&state, state.unit(UnitId { id: 2 }), at(2, 2)));
    // Too far from any enemy, and the tile is not seen.
    assert!(!fow.is_visible(&state, state.unit(UnitId { id: 2 }), at(7, 7)));
}

#[test]
fn fake_fow_sees_everything() {
    let state = world(vec![unit(1, 0, TANK, 0, 0)], vec![], &[]);
    assert_eq!(*fake_fow(), FakeFow);
    assert!(FogOfWar::is_visible(fake_fow(), &state, state.unit(UnitId { id: 1 }), at(7, 7)));
    let fow = new_fow(1);
    assert!(!FogOfWar::is_visible(&fow, &state, state.unit(UnitId { id: 1 }), at(7, 7)));
}

#[test]
fn full_state_shows_all_units() {
    let state = world(vec![unit(1, 0, TANK, 0, 0), unit(2, 1, PLANE, 7, 7)], vec![], &[]);
    let full = FullState::new(state.clone());
    assert_eq!(full.units(), vec![unit(1, 0, TANK, 0, 0), unit(2, 1, PLANE, 7, 7)]);
    assert_eq!(full.inner().units().len(), 2);
    assert!(full.unit_opt(UnitId { id: 2 }).is_some());
    assert_eq!(*full.map().tile(MapPos { x: 1, y: 1 }), Terrain::Plain);
    assert!(full.objects().is_empty());
}

/// For each tile: whether it is seen, and whether an enemy infantry unit on it is seen.
fn snapshot(fow: &Fow, state: &InternalState, probe: UnitId) -> Vec<(bool, bool)> {
    all_tiles()
        .into_iter()
        .map(|p| {
            (
                fow.is_tile_visible(p),
                fow.is_visible(state, state.unit(probe), ExactPos { map_pos: p, slot_id: SlotId::WholeTile }),
            )
        })
        .collect()
}

#[test]
fn repeating_a_look_changes_nothing() {
    let state = world(
        vec![unit(1, 0, TANK, 0, 0), unit(9, 1, INFANTRY, 7, 7)],
        vec![],
        &[(3, 0, Terrain::Trees), (2, 2, Terrain::City)],
    );
    let mut fow = new_fow(0);
    let event = CoreEvent::Move {
        unit_id: UnitId { id: 1 },
        from: at(0, 0),
        to: at(1, 0),
        mode: MoveMode::Fast,
        cost: MovePoints { n: 1 },
    };
    let s = sights(&fow, &state, &event, &all_tiles());
    fow.apply_event(&state, &event, &s);
    let once = snapshot(&fow, &state, UnitId { id: 9 });
    fow.apply_event(&state, &event, &s);
    assert_eq!(snapshot(&fow, &state, UnitId { id: 9 }), once);
    // The trees are seen, but only well enough to show vehicles.
    assert_eq!(once[3], (true, false));
    assert_eq!(once[0], (true, true));
}

#[test]
fn looks_give_the_same_fog_in_either_order() {
    let state = world(
        vec![unit(1, 0, TANK, 0, 0), unit(2, 0, INFANTRY, 3, 0), unit(9, 1, INFANTRY, 7, 7)],
        vec![],
        &[(3, 0, Terrain::Trees), (2, 0, Terrain::City), (4, 1, Terrain::Trees)],
    );
    let first = CoreEvent::CreateUnit { unit_info: unit_to_info(state.unit(UnitId { id: 1 })) };
    let second = CoreEvent::CreateUnit { unit_info: unit_to_info(state.unit(UnitId { id: 2 })) };
    let mut a = new_fow(0);
    let sa1 = sights(&a, &state, &first, &all_tiles());
    let sa2 = sights(&a, &state, &second, &all_tiles());
    a.apply_event(&state, &first, &sa1);
    a.apply_event(&state, &second, &sa2);
    let mut b = new_fow(0);
    b.apply_event(&state, &second, &sa2);
    b.apply_event(&state, &first, &sa1);
    let snap = snapshot(&a, &state, UnitId { id: 9 });
    assert_eq!(snapshot(&b, &state, UnitId { id: 9 }), snap);
    // The tank sees the trees at (3, 0) only normally; the infantry on them sees them perfectly.
    assert_eq!(snap[3], (true, true));
}
