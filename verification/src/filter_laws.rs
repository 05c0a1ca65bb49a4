use vstd::prelude::*;
use crate::types::{PlayerId, UnitId};
use crate::unit::Unit;
use crate::state::InternalState;
use crate::event::CoreEvent;
use crate::fow::Fow;
use crate::filter::{
    filter_ok, filtered, hide_events, show_events, unit_with_id, visible_enemy_ids,
};

verus! {

/// Whether `event` is something one of `player`'s own units did (or, for a
/// new unit, whether it is the player's).
pub open spec fn is_own_event(state: InternalState, player: PlayerId, event: CoreEvent) -> bool {
    match event {
        CoreEvent::Move { unit_id, .. } => state.unit_spec(unit_id).player_id == player,
        CoreEvent::CreateUnit { unit_info } => unit_info.player_id == player,
        CoreEvent::LoadUnit { passenger_id, .. } => state.unit_spec(passenger_id).player_id == player,
        CoreEvent::UnloadUnit { unit_info, .. } => state.unit_spec(unit_info.unit_id).player_id == player,
        CoreEvent::Attach { transporter_id, .. } => state.unit_spec(transporter_id).player_id == player,
        CoreEvent::Detach { transporter_id, .. } => state.unit_spec(transporter_id).player_id == player,
        CoreEvent::SetReactionFireMode { unit_id, .. } => state.unit_spec(unit_id).player_id == player,
        _ => false,
    }
}

/// A player is told of what the player's own units do exactly as it happened.
pub proof fn lemma_own_events_told_as_they_are(fow: Fow, state: InternalState, player: PlayerId, event: CoreEvent)
    requires
        filter_ok(fow, state, player, event),
        is_own_event(state, player, event),
    ensures
        filtered(fow, state, player, event).0 == seq![event],
{
}

/// The end of a turn, a smoke that clears, a victory point and a change of a
/// sector's owner are told to every player as they are.
pub proof fn lemma_public_events_told_as_they_are(fow: Fow, state: InternalState, player: PlayerId, event: CoreEvent)
    requires
        event is EndTurn || event is RemoveSmoke || event is VictoryPoint || event is SectorOwnerChanged,
    ensures
        filtered(fow, state, player, event).0 == seq![event],
        filtered(fow, state, player, event).1 == Set::<UnitId>::empty(),
{
}

/// Every attack is told, as the last event, with its outcome; the attacker
/// stays unknown exactly where it ambushes a unit of another player; and the
/// defender is among the units the events account for.
pub proof fn lemma_attacks_always_told(fow: Fow, state: InternalState, player: PlayerId, event: CoreEvent)
    requires
        filter_ok(fow, state, player, event),
        event is AttackUnit,
    ensures
        ({
            let told = filtered(fow, state, player, event).0;
            let info = event->AttackUnit_attack_info;
            let attacker = state.unit_spec(info.attacker_id.unwrap());
            &&& told.len() >= 1
            &&& told.last() matches CoreEvent::AttackUnit { attack_info }
            &&& attack_info.defender_id == info.defender_id
            &&& attack_info.killed == info.killed
            &&& attack_info.is_ambush == info.is_ambush
            &&& (attack_info.attacker_id is None <==> (info.is_ambush && attacker.player_id != player))
        }),
        filtered(fow, state, player, event).1.contains(event->AttackUnit_attack_info.defender_id),
{
}

/// A move of another player's unit that the player sees neither before nor
/// after is not told at all.
pub proof fn lemma_unseen_moves_untold(fow: Fow, state: InternalState, player: PlayerId, event: CoreEvent)
    requires
        filter_ok(fow, state, player, event),
        event is Move,
        ({
            let unit = state.unit_spec(event->Move_unit_id);
            &&& unit.player_id != player
            &&& !fow.sees(state, unit, event->Move_from)
            &&& !fow.sees(state, unit, event->Move_to)
        }),
    ensures
        filtered(fow, state, player, event).0 == Seq::<CoreEvent>::empty(),
{
}

/// Laid smoke is always told, on its tile, whoever laid it.
pub proof fn lemma_smoke_always_told(fow: Fow, state: InternalState, player: PlayerId, event: CoreEvent)
    requires
        filter_ok(fow, state, player, event),
        event is Smoke,
    ensures
        filtered(fow, state, player, event).0.len() == 1,
        filtered(fow, state, player, event).0[0] matches CoreEvent::Smoke { id, pos, .. }
            && id == event->Smoke_id && pos == event->Smoke_pos,
{
}

/// Every id that `get_visible_enemies` lists is that of a unit of another
/// player that the player sees where it stands.
pub proof fn lemma_visible_enemies_are_seen_enemies(fow: Fow, state: InternalState, units: Seq<Unit>, player: PlayerId)
    ensures
        forall|k: int|
            0 <= k < visible_enemy_ids(fow, state, units, player).len() ==> exists|j: int|
                0 <= j < units.len() && units[j].id == #[trigger] visible_enemy_ids(fow, state, units, player)[k]
                    && units[j].player_id != player && fow.sees(state, units[j], units[j].pos),
    decreases units.len(),
{
    if units.len() > 0 {
        let rest = units.drop_last();
        lemma_visible_enemies_are_seen_enemies(fow, state, rest, player);
        let r = visible_enemy_ids(fow, state, units, player);
        let r0 = visible_enemy_ids(fow, state, rest, player);
        assert forall|k: int| 0 <= k < r.len() implies exists|j: int|
            0 <= j < units.len() && units[j].id == #[trigger] r[k] && units[j].player_id != player && fow.sees(
                state,
                units[j],
                units[j].pos,
            ) by {
            if k < r0.len() {
                let j = choose|j: int|
                    0 <= j < rest.len() && rest[j].id == r0[k] && rest[j].player_id != player && fow.sees(
                        state,
                        rest[j],
                        rest[j].pos,
                    );
                assert(units[j] == rest[j]);
            } else {
                assert(units[units.len() - 1].id == r[k]);
            }
        }
    }
}

/// The unit that `unit_with_id` finds has the id it was looked up by.
proof fn lemma_unit_with_id(units: Seq<Unit>, id: UnitId)
    ensures
        unit_with_id(units, id) matches Some(u) ==> u.id == id,
    decreases units.len(),
{
    if units.len() > 0 && units[0].id != id {
        lemma_unit_with_id(units.drop_first(), id);
    }
}

/// The units shown are exactly those seen now and not before, apart from the
/// active ones, each shown by its own id.
pub proof fn lemma_shown_units(units: Seq<Unit>, active: Seq<UnitId>, old: Seq<UnitId>, new: Seq<UnitId>)
    requires
        forall|k: int|
            0 <= k < new.len() && !old.contains(new[k]) && !active.contains(new[k]) ==> #[trigger] unit_with_id(
                units,
                new[k],
            ) is Some,
    ensures
        forall|e: CoreEvent|
            #[trigger] show_events(units, active, old, new).contains(e) ==> (e matches CoreEvent::ShowUnit {
                unit_info,
            } && new.contains(unit_info.unit_id) && !old.contains(unit_info.unit_id) && !active.contains(
                unit_info.unit_id,
            )),
        forall|id: UnitId|
            new.contains(id) && !old.contains(id) && !active.contains(id) ==> exists|e: CoreEvent|
                #[trigger] show_events(units, active, old, new).contains(e) && (e is ShowUnit && e->ShowUnit_unit_info.unit_id == id),
    decreases new.len(),
{
    if new.len() > 0 {
        let rest = new.drop_last();
        let id = new.last();
        assert forall|k: int|
            0 <= k < rest.len() && !old.contains(rest[k]) && !active.contains(rest[k]) implies #[trigger] unit_with_id(
            units,
            rest[k],
        ) is Some by {
            assert(rest[k] == new[k]);
        }
        lemma_shown_units(units, active, old, rest);
        lemma_unit_with_id(units, id);
        let s = show_events(units, active, old, new);
        let s0 = show_events(units, active, old, rest);
        assert forall|e: CoreEvent| #[trigger] s.contains(e) implies (e matches CoreEvent::ShowUnit { unit_info }
            && new.contains(unit_info.unit_id) && !old.contains(unit_info.unit_id) && !active.contains(
            unit_info.unit_id,
        )) by {
            let k = choose|k: int| 0 <= k < s.len() && s[k] == e;
            if k < s0.len() {
                assert(s0[k] == e);
                assert(s0.contains(e));
                let unit_info = e->ShowUnit_unit_info;
                let j = choose|j: int| 0 <= j < rest.len() && rest[j] == unit_info.unit_id;
                assert(new[j] == unit_info.unit_id);
            } else {
                assert(new[new.len() - 1] == id);
            }
        }
        assert forall|x: UnitId| new.contains(x) && !old.contains(x) && !active.contains(x) implies exists|e: CoreEvent|
            #[trigger] s.contains(e) && (e is ShowUnit && e->ShowUnit_unit_info.unit_id == x) by {
            let j = choose|j: int| 0 <= j < new.len() && new[j] == x;
            if j < rest.len() {
                assert(rest[j] == x);
                assert(rest.contains(x));
                let e = choose|e: CoreEvent|
                    #[trigger] s0.contains(e) && (e is ShowUnit && e->ShowUnit_unit_info.unit_id == x);
                let k = choose|k: int| 0 <= k < s0.len() && s0[k] == e;
                assert(s[k] == e);
                assert(s.contains(e));
            } else {
                assert(x == id);
                let e = s[s.len() - 1];
                assert(s.contains(e));
            }
        }
    }
}

/// The units hidden are exactly those seen before and not now, apart from
/// the active ones.
pub proof fn lemma_hidden_units(active: Seq<UnitId>, old: Seq<UnitId>, new: Seq<UnitId>)
    ensures
        forall|e: CoreEvent|
            #[trigger] hide_events(active, old, new).contains(e) ==> (e matches CoreEvent::HideUnit { unit_id }
                && old.contains(unit_id) && !new.contains(unit_id) && !active.contains(unit_id)),
        forall|id: UnitId|
            old.contains(id) && !new.contains(id) && !active.contains(id) ==> #[trigger] hide_events(
                active,
                old,
                new,
            ).contains(CoreEvent::HideUnit { unit_id: id }),
    decreases old.len(),
{
    if old.len() > 0 {
        let rest = old.drop_last();
        let id = old.last();
        lemma_hidden_units(active, rest, new);
        let h = hide_events(active, old, new);
        let h0 = hide_events(active, rest, new);
        assert forall|e: CoreEvent| #[trigger] h.contains(e) implies (e matches CoreEvent::HideUnit { unit_id }
            && old.contains(unit_id) && !new.contains(unit_id) && !active.contains(unit_id)) by {
            let k = choose|k: int| 0 <= k < h.len() && h[k] == e;
            if k < h0.len() {
                assert(h0[k] == e);
                assert(h0.contains(e));
                let u = e->HideUnit_unit_id;
                let j = choose|j: int| 0 <= j < rest.len() && rest[j] == u;
                assert(old[j] == u);
            } else {
                assert(old[old.len() - 1] == id);
            }
        }
        assert forall|x: UnitId| old.contains(x) && !new.contains(x) && !active.contains(x) implies #[trigger] h.contains(
            CoreEvent::HideUnit { unit_id: x },
        ) by {
            let j = choose|j: int| 0 <= j < old.len() && old[j] == x;
            if j < rest.len() {
                assert(rest[j] == x);
                assert(rest.contains(x));
                assert(h0.contains(CoreEvent::HideUnit { unit_id: x }));
                let k = choose|k: int| 0 <= k < h0.len() && h0[k] == CoreEvent::HideUnit { unit_id: x };
                assert(h[k] == h0[k]);
            } else {
                assert(h[h.len() - 1] == CoreEvent::HideUnit { unit_id: x });
            }
        }
    }
}

/// No unit is both shown and hidden by one call of
/// `show_or_hide_passive_enemies`.
pub proof fn lemma_never_shown_and_hidden(
    units: Seq<Unit>,
    active: Seq<UnitId>,
    old: Seq<UnitId>,
    new: Seq<UnitId>,
    id: UnitId,
)
    requires
        forall|k: int|
            0 <= k < new.len() && !old.contains(new[k]) && !active.contains(new[k]) ==> #[trigger] unit_with_id(
                units,
                new[k],
            ) is Some,
    ensures
        !(hide_events(active, old, new).contains(CoreEvent::HideUnit { unit_id: id }) && exists|e: CoreEvent|
            #[trigger] show_events(units, active, old, new).contains(e) && (e is ShowUnit && e->ShowUnit_unit_info.unit_id == id)),
{
    lemma_shown_units(units, active, old, new);
    lemma_hidden_units(active, old, new);
}

/// No unit that the player sees where it ends up is hidden from the player:
/// after an enemy move, unload or detach that the fog shows at the moving
/// unit's destination, no told event hides that unit.
pub proof fn lemma_units_seen_at_destination_stay_shown(fow: Fow, state: InternalState, player: PlayerId, event: CoreEvent)
    requires
        filter_ok(fow, state, player, event),
    ensures
        event is Move && fow.sees(state, state.unit_spec(event->Move_unit_id), event->Move_to)
            ==> !filtered(fow, state, player, event).0.contains(CoreEvent::HideUnit { unit_id: event->Move_unit_id }),
        event is UnloadUnit && fow.sees(
            state,
            state.unit_spec(event->UnloadUnit_unit_info.unit_id),
            event->UnloadUnit_to,
        ) ==> !filtered(fow, state, player, event).0.contains(
            CoreEvent::HideUnit { unit_id: event->UnloadUnit_unit_info.unit_id },
        ),
        event is Detach && fow.sees(state, state.unit_spec(event->Detach_transporter_id), event->Detach_to)
            ==> !filtered(fow, state, player, event).0.contains(
            CoreEvent::HideUnit { unit_id: event->Detach_transporter_id },
        ),
{
    let told = filtered(fow, state, player, event).0;
    match event {
        CoreEvent::Move { unit_id, from, to, .. } => {
            if fow.sees(state, state.unit_spec(unit_id), to) && told.contains(CoreEvent::HideUnit { unit_id: unit_id }) {
                let k = choose|k: int| 0 <= k < told.len() && told[k] == CoreEvent::HideUnit { unit_id: unit_id };
                assert(told[k] is HideUnit);
                state.lemma_unit_on_map(unit_id);
            }
        },
        CoreEvent::UnloadUnit { unit_info, to, .. } => {
            if fow.sees(state, state.unit_spec(unit_info.unit_id), to) && told.contains(
                CoreEvent::HideUnit { unit_id: unit_info.unit_id },
            ) {
                let k = choose|k: int|
                    0 <= k < told.len() && told[k] == CoreEvent::HideUnit { unit_id: unit_info.unit_id };
                assert(told[k] is HideUnit);
            }
        },
        CoreEvent::Detach { transporter_id, to, .. } => {
            if fow.sees(state, state.unit_spec(transporter_id), to) && told.contains(
                CoreEvent::HideUnit { unit_id: transporter_id },
            ) {
                let k = choose|k: int| 0 <= k < told.len() && told[k] == CoreEvent::HideUnit { unit_id: transporter_id };
                assert(told[k] is HideUnit);
            }
        },
        _ => {},
    }
}

/// An enemy detach that the player sees both where it starts and where it
/// ends is told exactly as it happened.
pub proof fn lemma_detach_seen_throughout_told_as_is(fow: Fow, state: InternalState, player: PlayerId, event: CoreEvent)
    requires
        filter_ok(fow, state, player, event),
        event is Detach,
        fow.sees(state, state.unit_spec(event->Detach_transporter_id), event->Detach_from),
        fow.sees(state, state.unit_spec(event->Detach_transporter_id), event->Detach_to),
    ensures
        filtered(fow, state, player, event).0 == seq![event],
{
    assert(filtered(fow, state, player, event).0 =~= seq![event]);
}

/// Every unit of another player that the player sees where it stands is
/// listed by `get_visible_enemies` (the converse of
/// `lemma_visible_enemies_are_seen_enemies`).
pub proof fn lemma_every_seen_enemy_is_listed(fow: Fow, state: InternalState, units: Seq<Unit>, player: PlayerId)
    ensures
        forall|j: int|
            0 <= j < units.len() && #[trigger] units[j].player_id != player && fow.sees(state, units[j], units[j].pos)
                ==> visible_enemy_ids(fow, state, units, player).contains(units[j].id),
    decreases units.len(),
{
    if units.len() > 0 {
        let rest = units.drop_last();
        lemma_every_seen_enemy_is_listed(fow, state, rest, player);
        let r = visible_enemy_ids(fow, state, units, player);
        let r0 = visible_enemy_ids(fow, state, rest, player);
        assert forall|j: int|
            0 <= j < units.len() && #[trigger] units[j].player_id != player && fow.sees(state, units[j], units[j].pos)
                implies r.contains(units[j].id) by {
            if j < rest.len() {
                assert(rest[j] == units[j]);
                assert(r0.contains(units[j].id));
                let k = choose|k: int| 0 <= k < r0.len() && r0[k] == units[j].id;
                assert(r[k] == r0[k]);
            } else {
                assert(r[r.len() - 1] == units[j].id);
            }
        }
    }
}

} // verus!
