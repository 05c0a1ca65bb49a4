use vstd::prelude::*;
use crate::types::{ExactPos, MapPos, Size2, hex_distance};
use crate::map::{in_bounds, lemma_index_in_range, lemma_index_injective, tile_index};
use crate::unit::{Db, Unit, UnitType};
use crate::state::{InternalState, ObjectClass};
use crate::event::CoreEvent;
use crate::fow::{
    FakeFow, FogOfWar, Fow, Sight, TileVisibility, rank, raise_all, raise_tiles, sight_tiles,
    spec_calc_visibility, lemma_raise_all_monotone,
};

verus! {

/// How well the unit of look `k` of `needs` sees the tile `p`.
pub open spec fn look_vis(state: InternalState, db: Db, needs: Seq<(Unit, MapPos)>, k: int, p: MapPos) -> TileVisibility {
    spec_calc_visibility(state, db.type_of(needs[k].0.type_id), needs[k].1, p)
}

/// After a unit looks at some tiles, each of them is seen at least as well
/// as that unit sees it, and every tile is either as before or seen exactly
/// as the unit sees it.
proof fn lemma_raise_tiles_bounds(
    tiles: Seq<TileVisibility>,
    size: Size2,
    state: InternalState,
    unit_type: UnitType,
    origin: MapPos,
    reached: Seq<MapPos>,
)
    requires
        forall|l: int| 0 <= l < reached.len() ==> 0 <= #[trigger] tile_index(size, reached[l]) < tiles.len(),
    ensures
        raise_tiles(tiles, size, state, unit_type, origin, reached).len() == tiles.len(),
        forall|l: int|
            0 <= l < reached.len() ==> rank(
                raise_tiles(tiles, size, state, unit_type, origin, reached)[tile_index(size, #[trigger] reached[l])],
            ) >= rank(spec_calc_visibility(state, unit_type, origin, reached[l])),
        forall|i: int|
            0 <= i < tiles.len() ==> #[trigger] raise_tiles(tiles, size, state, unit_type, origin, reached)[i]
                == tiles[i] || exists|l: int|
                0 <= l < reached.len() && tile_index(size, #[trigger] reached[l]) == i && raise_tiles(
                    tiles,
                    size,
                    state,
                    unit_type,
                    origin,
                    reached,
                )[i] == spec_calc_visibility(state, unit_type, origin, reached[l]),
    decreases reached.len(),
{
    let result = raise_tiles(tiles, size, state, unit_type, origin, reached);
    if reached.len() > 0 {
        let rest = reached.drop_last();
        let last = reached.len() - 1;
        assert forall|l: int| 0 <= l < rest.len() implies 0 <= #[trigger] tile_index(size, rest[l]) < tiles.len() by {
            assert(rest[l] == reached[l]);
        }
        lemma_raise_tiles_bounds(tiles, size, state, unit_type, origin, rest);
        crate::fow::lemma_raise_tiles_monotone(tiles, size, state, unit_type, origin, rest);
        let before = raise_tiles(tiles, size, state, unit_type, origin, rest);
        assert(0 <= tile_index(size, reached[last]) < tiles.len());
        assert forall|l: int|
            0 <= l < reached.len() implies rank(result[tile_index(size, #[trigger] reached[l])]) >= rank(
                spec_calc_visibility(state, unit_type, origin, reached[l]),
            ) by {
            if l < last {
                assert(rest[l] == reached[l]);
                assert(0 <= tile_index(size, rest[l]) < tiles.len());
            }
        }
        assert forall|i: int| 0 <= i < tiles.len() implies #[trigger] result[i] == tiles[i] || exists|l: int|
            0 <= l < reached.len() && tile_index(size, #[trigger] reached[l]) == i && result[i]
                == spec_calc_visibility(state, unit_type, origin, reached[l]) by {
            if result[i] != before[i] {
                assert(tile_index(size, reached[last]) == i);
            } else if before[i] != tiles[i] {
                let l = choose|l: int|
                    0 <= l < rest.len() && tile_index(size, #[trigger] rest[l]) == i && before[i]
                        == spec_calc_visibility(state, unit_type, origin, rest[l]);
                assert(rest[l] == reached[l]);
            }
        }
    }
}

/// After several units look one after another, each tile that one of them
/// looked at is seen at least as well as that unit sees it.
proof fn lemma_raise_all_lower(
    tiles: Seq<TileVisibility>,
    size: Size2,
    state: InternalState,
    db: Db,
    needs: Seq<(Unit, MapPos)>,
    reached: Seq<Seq<MapPos>>,
)
    requires
        needs.len() <= reached.len(),
        forall|k: int, l: int|
            0 <= k < needs.len() && 0 <= l < reached[k].len() ==> 0 <= #[trigger] tile_index(size, reached[k][l])
                < tiles.len(),
    ensures
        forall|k: int, l: int|
            0 <= k < needs.len() && 0 <= l < reached[k].len() ==> rank(
                raise_all(tiles, size, state, db, needs, reached)[tile_index(size, #[trigger] reached[k][l])],
            ) >= rank(look_vis(state, db, needs, k, reached[k][l])),
    decreases needs.len(),
{
    if needs.len() > 0 {
        let last = needs.len() - 1;
        let rest = needs.drop_last();
        lemma_raise_all_lower(tiles, size, state, db, rest, reached);
        lemma_raise_all_monotone(tiles, size, state, db, rest, reached);
        let mid = raise_all(tiles, size, state, db, rest, reached);
        let ut = db.type_of(needs[last].0.type_id);
        assert forall|l: int| 0 <= l < reached[last].len() implies 0 <= #[trigger] tile_index(size, reached[last][l])
            < mid.len() by {
            assert(0 <= tile_index(size, reached[last][l]) < tiles.len());
        }
        lemma_raise_tiles_bounds(mid, size, state, ut, needs[last].1, reached[last]);
        crate::fow::lemma_raise_tiles_monotone(mid, size, state, ut, needs[last].1, reached[last]);
        let result = raise_all(tiles, size, state, db, needs, reached);
        assert(result == raise_tiles(mid, size, state, ut, needs[last].1, reached[last]));
        assert forall|k: int, l: int|
            0 <= k < needs.len() && 0 <= l < reached[k].len() implies rank(
                result[tile_index(size, #[trigger] reached[k][l])],
            ) >= rank(look_vis(state, db, needs, k, reached[k][l])) by {
            if k < last {
                assert(rest[k] == needs[k]);
                assert(look_vis(state, db, rest, k, reached[k][l]) == look_vis(state, db, needs, k, reached[k][l]));
                assert(0 <= tile_index(size, reached[k][l]) < tiles.len());
            } else {
                assert(reached[last][l] == reached[k][l]);
            }
        }
    }
}

/// After several units look one after another, every tile is either as
/// before or seen exactly as one of them sees it from where it looked.
proof fn lemma_raise_all_origin(
    tiles: Seq<TileVisibility>,
    size: Size2,
    state: InternalState,
    db: Db,
    needs: Seq<(Unit, MapPos)>,
    reached: Seq<Seq<MapPos>>,
)
    requires
        needs.len() <= reached.len(),
        forall|k: int, l: int|
            0 <= k < needs.len() && 0 <= l < reached[k].len() ==> 0 <= #[trigger] tile_index(size, reached[k][l])
                < tiles.len(),
    ensures
        raise_all(tiles, size, state, db, needs, reached).len() == tiles.len(),
        forall|i: int|
            0 <= i < tiles.len() ==> #[trigger] raise_all(tiles, size, state, db, needs, reached)[i] == tiles[i]
                || exists|k: int, l: int|
                0 <= k < needs.len() && 0 <= l < reached[k].len() && tile_index(size, #[trigger] reached[k][l])
                    == i && raise_all(tiles, size, state, db, needs, reached)[i] == look_vis(
                    state,
                    db,
                    needs,
                    k,
                    reached[k][l],
                ),
    decreases needs.len(),
{
    if needs.len() > 0 {
        let last = needs.len() - 1;
        let rest = needs.drop_last();
        lemma_raise_all_origin(tiles, size, state, db, rest, reached);
        let mid = raise_all(tiles, size, state, db, rest, reached);
        let ut = db.type_of(needs[last].0.type_id);
        assert forall|l: int| 0 <= l < reached[last].len() implies 0 <= #[trigger] tile_index(size, reached[last][l])
            < mid.len() by {
            assert(0 <= tile_index(size, reached[last][l]) < tiles.len());
        }
        lemma_raise_tiles_bounds(mid, size, state, ut, needs[last].1, reached[last]);
        let result = raise_all(tiles, size, state, db, needs, reached);
        assert(result == raise_tiles(mid, size, state, ut, needs[last].1, reached[last]));
        assert forall|i: int| 0 <= i < tiles.len() implies #[trigger] result[i] == tiles[i] || exists|k: int, l: int|
            0 <= k < needs.len() && 0 <= l < reached[k].len() && tile_index(size, #[trigger] reached[k][l]) == i
                && result[i] == look_vis(state, db, needs, k, reached[k][l]) by {
            if result[i] != mid[i] {
                let l = choose|l: int|
                    0 <= l < reached[last].len() && tile_index(size, #[trigger] reached[last][l]) == i && result[i]
                        == spec_calc_visibility(state, ut, needs[last].1, reached[last][l]);
                assert(tile_index(size, reached[last][l]) == i);
            } else if mid[i] != tiles[i] {
                let (k, l) = choose|k: int, l: int|
                    0 <= k < rest.len() && 0 <= l < reached[k].len() && tile_index(size, #[trigger] reached[k][l])
                        == i && mid[i] == look_vis(state, db, rest, k, reached[k][l]);
                assert(rest[k] == needs[k]);
                assert(tile_index(size, reached[k][l]) == i);
            }
        }
    }
}

/// Sights that fit an event reach only tiles of the map, at places inside
/// the fog's tiles.
proof fn lemma_sight_indices(fow: Fow, state: InternalState, event: CoreEvent, sights: Seq<Sight>)
    requires
        fow.wf(),
        fow.sights_fit(state, event, sights),
    ensures
        fow.sight_needs(state, event).len() <= sight_tiles(sights).len(),
        forall|k: int, l: int|
            0 <= k < fow.sight_needs(state, event).len() && 0 <= l < sight_tiles(sights)[k].len()
                ==> 0 <= #[trigger] tile_index(fow.size(), sight_tiles(sights)[k][l]) < fow.tiles().len(),
{
    assert forall|k: int, l: int|
        0 <= k < fow.sight_needs(state, event).len() && 0 <= l < sight_tiles(sights)[k].len() implies 0
            <= #[trigger] tile_index(fow.size(), sight_tiles(sights)[k][l]) < fow.tiles().len() by {
        assert(sight_tiles(sights)[k] == sights[k].tiles@);
        assert(in_bounds(fow.size(), sights[k].tiles@[l]));
        lemma_index_in_range(fow.size(), sights[k].tiles@[l]);
    }
}

/// Until the player's own turn starts again, nothing that happens makes
/// the player see any tile worse than before.
pub proof fn lemma_sight_only_grows_within_turn(fow: Fow, state: InternalState, event: CoreEvent, sights: Seq<Sight>)
    requires
        fow.fits(state),
        fow.event_units_known(state, event),
        fow.sights_fit(state, event, sights),
        !fow.starts_own_turn(event),
    ensures
        fow.after_event(state, event, sights).len() == fow.tiles().len(),
        forall|p: MapPos|
            in_bounds(fow.size(), p) ==> rank(
                #[trigger] fow.after_event(state, event, sights)[tile_index(fow.size(), p)],
            ) >= rank(fow.vis_at(p)),
{
    lemma_sight_indices(fow, state, event, sights);
    let needs = fow.sight_needs(state, event);
    let reached = sight_tiles(sights);
    lemma_raise_all_monotone(fow.tiles(), fow.size(), state, fow.db_spec(), needs, reached);
    match event {
        CoreEvent::AttackUnit { attack_info } => {
            if let Some(a) = attack_info.attacker_id {
                if !attack_info.is_ambush {
                    state.lemma_unit_on_map(a);
                    lemma_index_in_range(fow.size(), state.unit_spec(a).pos.map_pos);
                }
            }
        },
        _ => {},
    }
    assert forall|p: MapPos| in_bounds(fow.size(), p) implies rank(
        #[trigger] fow.after_event(state, event, sights)[tile_index(fow.size(), p)],
    ) >= rank(fow.vis_at(p)) by {
        lemma_index_in_range(fow.size(), p);
    }
}

/// When the player's own turn starts, the player sees a tile only where one
/// of the player's living units looked at it, and then exactly as well as
/// one of those units sees it.
pub proof fn lemma_turn_start_shows_only_what_units_see(
    fow: Fow,
    state: InternalState,
    event: CoreEvent,
    sights: Seq<Sight>,
    p: MapPos,
)
    requires
        fow.fits(state),
        fow.event_units_known(state, event),
        fow.sights_fit(state, event, sights),
        fow.starts_own_turn(event),
        in_bounds(fow.size(), p),
        fow.after_event(state, event, sights)[tile_index(fow.size(), p)] != TileVisibility::No,
    ensures
        exists|k: int, l: int|
            0 <= k < sights.len() && 0 <= l < sights[k].tiles@.len() && #[trigger] sights[k].tiles@[l] == p
                && fow.sight_needs(state, event)[k].0.player_id == fow.player_spec()
                && fow.sight_needs(state, event)[k].0.is_alive
                && fow.after_event(state, event, sights)[tile_index(fow.size(), p)] == look_vis(
                    state,
                    fow.db_spec(),
                    fow.sight_needs(state, event),
                    k,
                    p,
                ),
{
    lemma_sight_indices(fow, state, event, sights);
    let needs = fow.sight_needs(state, event);
    let reached = sight_tiles(sights);
    let blank = Seq::new(fow.tiles().len(), |i: int| TileVisibility::No);
    lemma_raise_all_origin(blank, fow.size(), state, fow.db_spec(), needs, reached);
    lemma_index_in_range(fow.size(), p);
    let i = tile_index(fow.size(), p);
    let (k, l) = choose|k: int, l: int|
        0 <= k < needs.len() && 0 <= l < reached[k].len() && tile_index(fow.size(), #[trigger] reached[k][l]) == i
            && raise_all(blank, fow.size(), state, fow.db_spec(), needs, reached)[i] == look_vis(
            state,
            fow.db_spec(),
            needs,
            k,
            reached[k][l],
        );
    assert(reached[k] == sights[k].tiles@);
    assert(in_bounds(fow.size(), sights[k].tiles@[l]));
    lemma_index_injective(fow.size(), sights[k].tiles@[l], p);
    crate::fow::lemma_own_living_units_are_own(state.units_spec(), fow.player_spec());
    assert(needs[k].0.player_id == fow.player_spec() && needs[k].0.is_alive);
}

/// Every tile that a unit's walk reaches is afterwards seen at least as well
/// as that unit sees it from where it looked.
pub proof fn lemma_looked_at_tiles_are_seen(
    fow: Fow,
    state: InternalState,
    event: CoreEvent,
    sights: Seq<Sight>,
    k: int,
    l: int,
)
    requires
        fow.fits(state),
        fow.event_units_known(state, event),
        fow.sights_fit(state, event, sights),
        0 <= k < sights.len(),
        0 <= l < sights[k].tiles@.len(),
    ensures
        rank(fow.after_event(state, event, sights)[tile_index(fow.size(), sights[k].tiles@[l])]) >= rank(
            look_vis(state, fow.db_spec(), fow.sight_needs(state, event), k, sights[k].tiles@[l]),
        ),
{
    lemma_sight_indices(fow, state, event, sights);
    let needs = fow.sight_needs(state, event);
    let reached = sight_tiles(sights);
    assert(reached[k] == sights[k].tiles@);
    assert(reached[k][l] == sights[k].tiles@[l]);
    if fow.starts_own_turn(event) {
        let blank = Seq::new(fow.tiles().len(), |i: int| TileVisibility::No);
        lemma_raise_all_lower(blank, fow.size(), state, fow.db_spec(), needs, reached);
    } else {
        lemma_raise_all_lower(fow.tiles(), fow.size(), state, fow.db_spec(), needs, reached);
    }
}

/// An event that makes no unit of the player look, and is neither the start
/// of the player's turn nor an attack, leaves what the player sees as it was.
pub proof fn lemma_events_without_looks_change_nothing(
    fow: Fow,
    state: InternalState,
    event: CoreEvent,
    sights: Seq<Sight>,
)
    requires
        fow.sight_needs(state, event).len() == 0,
        !fow.starts_own_turn(event),
        !(event is AttackUnit),
    ensures
        fow.after_event(state, event, sights) == fow.tiles(),
{
}

/// The fog through which everything is seen shows every unit everywhere.
pub proof fn lemma_fake_fow_sees_everything(state: InternalState, unit: Unit, pos: ExactPos)
    ensures
        FakeFow.can_ask_about(state, unit, pos),
        FakeFow.sees_unit(state, unit, pos),
{
}

/// A ground unit on a tile that the player does not see is never seen.
pub proof fn lemma_ground_units_hide_in_the_fog(fow: Fow, state: InternalState, unit: Unit, pos: ExactPos)
    requires
        !fow.db_spec().type_of(unit.type_id).is_air,
        fow.vis_at(pos.map_pos) == TileVisibility::No,
    ensures
        !fow.sees(state, unit, pos),
{
}

/// How well a unit sees a tile: not at all beyond its sight range; perfectly
/// within its cover range; in between, only normally where the terrain is a
/// city or trees or a building or smoke stands on the tile, and perfectly
/// otherwise.
pub proof fn lemma_calc_visibility_by_cover(state: InternalState, unit_type: UnitType, origin: MapPos, pos: MapPos)
    ensures
        ({
            let d = hex_distance(origin, pos);
            let terrain = state.map_spec().at(pos);
            let objects = state.objects_spec();
            let covered = terrain == crate::map::Terrain::City || terrain == crate::map::Terrain::Trees
                || exists|i: int|
                0 <= i < objects.len() && objects[i].pos.map_pos == pos && (objects[i].class
                    == ObjectClass::Building || objects[i].class == ObjectClass::Smoke);
            let v = spec_calc_visibility(state, unit_type, origin, pos);
            &&& d > unit_type.los_range.n ==> v == TileVisibility::No
            &&& d <= unit_type.los_range.n && d <= unit_type.cover_los_range.n ==> v == TileVisibility::Excellent
            &&& unit_type.cover_los_range.n < d <= unit_type.los_range.n ==> (v == TileVisibility::Normal <==> covered)
            &&& unit_type.cover_los_range.n < d <= unit_type.los_range.n ==> (v == TileVisibility::Excellent <==> !covered)
        }),
{
    let objects = state.objects_spec();
    if exists|i: int|
        0 <= i < objects.len() && objects[i].pos.map_pos == pos && (objects[i].class == ObjectClass::Building
            || objects[i].class == ObjectClass::Smoke) {
        let i = choose|i: int|
            0 <= i < objects.len() && objects[i].pos.map_pos == pos && (objects[i].class == ObjectClass::Building
                || objects[i].class == ObjectClass::Smoke);
        assert(objects[i].pos.map_pos == pos);
    }
}

/// An attacker that does not ambush is seen as well as possible: after the
/// attack its tile is seen excellently, and every other tile as before.
pub proof fn lemma_open_attacker_tile_seen_excellently(
    fow: Fow,
    state: InternalState,
    event: CoreEvent,
    sights: Seq<Sight>,
)
    requires
        fow.fits(state),
        fow.event_units_known(state, event),
        event matches CoreEvent::AttackUnit { attack_info } && attack_info.attacker_id is Some
            && !attack_info.is_ambush,
    ensures
        ({
            let a = event->AttackUnit_attack_info.attacker_id.unwrap();
            let p = state.unit_spec(a).pos.map_pos;
            let after = fow.after_event(state, event, sights);
            &&& after.len() == fow.tiles().len()
            &&& after[tile_index(fow.size(), p)] == TileVisibility::Excellent
            &&& forall|q: MapPos|
                in_bounds(fow.size(), q) && q != p ==> #[trigger] after[tile_index(fow.size(), q)]
                    == fow.vis_at(q)
        }),
{
    let a = event->AttackUnit_attack_info.attacker_id.unwrap();
    let p = state.unit_spec(a).pos.map_pos;
    state.lemma_unit_on_map(a);
    lemma_index_in_range(fow.size(), p);
    assert forall|q: MapPos| in_bounds(fow.size(), q) && q != p implies #[trigger] fow.after_event(
        state,
        event,
        sights,
    )[tile_index(fow.size(), q)] == fow.vis_at(q) by {
        lemma_index_in_range(fow.size(), q);
        if tile_index(fow.size(), q) == tile_index(fow.size(), p) {
            lemma_index_injective(fow.size(), q, p);
        }
    }
}

/// A unit on a tile the player does not see is seen only when it flies and
/// some unit of another player than its own has it within sight range: with
/// no such unit, units of its own player never reveal it.
pub proof fn lemma_only_enemies_reveal_in_the_fog(fow: Fow, state: InternalState, unit: Unit, pos: ExactPos)
    requires
        fow.vis_at(pos.map_pos) == TileVisibility::No,
        forall|i: int|
            0 <= i < state.units_spec().len() && #[trigger] state.units_spec()[i].player_id != unit.player_id
                ==> hex_distance(pos.map_pos, state.units_spec()[i].pos.map_pos) > fow.db_spec().type_of(
                state.units_spec()[i].type_id,
            ).los_range.n,
    ensures
        !fow.sees(state, unit, pos),
{
}

/// An air unit that no unit carries is seen wherever a unit of another
/// player has it within sight range, whatever the fog over its tile.
pub proof fn lemma_enemies_in_range_reveal_air_units(fow: Fow, state: InternalState, unit: Unit, pos: ExactPos, i: int)
    requires
        fow.db_spec().type_of(unit.type_id).is_air,
        !crate::fow::carried_at(state.units_spec(), unit.id, pos),
        0 <= i < state.units_spec().len(),
        state.units_spec()[i].player_id != unit.player_id,
        hex_distance(pos.map_pos, state.units_spec()[i].pos.map_pos) <= fow.db_spec().type_of(
            state.units_spec()[i].type_id,
        ).los_range.n,
    ensures
        fow.sees(state, unit, pos),
{
}

} // verus!
