use vstd::prelude::*;
use crate::types::{ExactPos, MoveMode, MovePoints, PlayerId, UnitId};
use crate::map::in_bounds;
use crate::unit::{Unit, UnitInfo, spec_unit_to_info, unit_to_info};
use crate::state::InternalState;
use crate::event::{AttackInfo, CoreEvent};
use crate::fow::{Fow, types_known};

verus! {

/// Adds `id` to a list of ids that stands for a set.
fn insert_id(ids: &mut Vec<UnitId>, id: UnitId)
    requires
        old(ids)@.no_duplicates(),
    ensures
        final(ids)@.no_duplicates(),
        final(ids)@.to_set() == old(ids)@.to_set().insert(id),
{
    let n = ids.len();
    let mut i: usize = 0;
    while i < n
        invariant
            n == ids@.len(),
            ids@ == old(ids)@,
            old(ids)@.no_duplicates(),
            i <= n,
            forall|k: int| 0 <= k < i ==> ids@[k] != id,
        decreases n - i,
    {
        if ids[i] == id {
            assert(ids@.to_set() =~= ids@.to_set().insert(id));
            return;
        }
        i = i + 1;
    }
    let ghost before = ids@;
    ids.push(id);
    assert(ids@ == before.push(id));
    assert forall|x: UnitId| #[trigger] ids@.contains(x) <==> (before.contains(x) || x == id) by {
        if ids@.contains(x) && x != id {
            let k = choose|k: int| 0 <= k < ids@.len() && ids@[k] == x;
            assert(k != n as int);
            assert(before[k] == x);
        }
        if before.contains(x) {
            let k = choose|k: int| 0 <= k < before.len() && before[k] == x;
            assert(ids@[k] == x);
        }
        if x == id {
            assert(ids@[n as int] == id);
        }
    }
    assert(ids@.to_set() =~= before.to_set().insert(id));
}

/// A list of ids, holding `id` alone.
fn single_id(id: UnitId) -> (r: Vec<UnitId>)
    ensures
        r@.no_duplicates(),
        r@.to_set() == Set::<UnitId>::empty().insert(id),
{
    let mut r: Vec<UnitId> = Vec::new();
    assert(r@.to_set() =~= Set::<UnitId>::empty());
    insert_id(&mut r, id);
    r
}

/// A list of ids that stands for the empty set.
fn no_ids() -> (r: Vec<UnitId>)
    ensures
        r@.no_duplicates(),
        r@.to_set() == Set::<UnitId>::empty(),
{
    let r: Vec<UnitId> = Vec::new();
    assert(r@.to_set() =~= Set::<UnitId>::empty());
    r
}

/// The ids of the units of `units`, in order, that belong to another player
/// than `player` and that `fow` shows where they stand.
pub open spec fn visible_enemy_ids(fow: Fow, state: InternalState, units: Seq<Unit>, player: PlayerId) -> Seq<UnitId>
    decreases units.len(),
{
    if units.len() == 0 {
        Seq::empty()
    } else {
        let rest = visible_enemy_ids(fow, state, units.drop_last(), player);
        let u = units.last();
        if u.player_id != player && fow.sees(state, u, u.pos) {
            rest.push(u.id)
        } else {
            rest
        }
    }
}

proof fn lemma_visible_enemy_ids_from(fow: Fow, state: InternalState, units: Seq<Unit>, player: PlayerId)
    ensures
        forall|k: int|
            0 <= k < visible_enemy_ids(fow, state, units, player).len() ==> exists|j: int|
                0 <= j < units.len() && units[j].id == #[trigger] visible_enemy_ids(fow, state, units, player)[k],
    decreases units.len(),
{
    if units.len() > 0 {
        let rest = units.drop_last();
        lemma_visible_enemy_ids_from(fow, state, rest, player);
        let r = visible_enemy_ids(fow, state, units, player);
        let r0 = visible_enemy_ids(fow, state, rest, player);
        assert forall|k: int| 0 <= k < r.len() implies exists|j: int|
            0 <= j < units.len() && units[j].id == #[trigger] r[k] by {
            if k < r0.len() {
                let j = choose|j: int| 0 <= j < rest.len() && rest[j].id == r0[k];
                assert(units[j].id == r[k]);
            } else {
                assert(units[units.len() - 1].id == r[k]);
            }
        }
    }
}

/// The ids of the units of another player than `player_id` that the player
/// sees where they stand, in the order of the state's units; each id once.
pub fn get_visible_enemies(state: &InternalState, fow: &Fow, player_id: PlayerId) -> (r: Vec<UnitId>)
    requires
        fow.fits(*state),
    ensures
        r@ == visible_enemy_ids(*fow, *state, state.units_spec(), player_id),
        r@.no_duplicates(),
        forall|j: int|
            0 <= j < state.units_spec().len() && #[trigger] state.units_spec()[j].player_id != player_id
                && fow.sees(*state, state.units_spec()[j], state.units_spec()[j].pos) ==> r@.contains(
                state.units_spec()[j].id,
            ),
{
    let units = state.units();
    let n = units.len();
    let mut r: Vec<UnitId> = Vec::new();
    let mut i: usize = 0;
    assert(units@.take(0) =~= Seq::<Unit>::empty());
    while i < n
        invariant
            n == units@.len(),
            units@ == state.units_spec(),
            i <= n,
            fow.fits(*state),
            r@ == visible_enemy_ids(*fow, *state, units@.take(i as int), player_id),
            r@.no_duplicates(),
        decreases n - i,
    {
        assert(units@.take(i + 1).drop_last() =~= units@.take(i as int));
        let unit = &units[i];
        assert(in_bounds(fow.size(), unit.pos.map_pos));
        assert(fow.db_spec().has_type(units@[i as int].type_id));
        if unit.player_id != player_id && fow.is_visible(state, unit, unit.pos) {
            proof {
                lemma_visible_enemy_ids_from(*fow, *state, units@.take(i as int), player_id);
                assert forall|k: int| 0 <= k < r@.len() implies r@[k] != unit.id by {
                    let j = choose|j: int| 0 <= j < units@.take(i as int).len() && units@.take(i as int)[j].id == r@[k];
                    assert(units@[j].id == r@[k]);
                }
            }
            r.push(unit.id);
        }
        i = i + 1;
    }
    assert(units@.take(n as int) =~= units@);
    proof {
        crate::filter_laws::lemma_every_seen_enemy_is_listed(*fow, *state, state.units_spec(), player_id);
    }
    r
}

/// The first unit of `units` with the id `id`, if any.
pub open spec fn unit_with_id(units: Seq<Unit>, id: UnitId) -> Option<Unit>
    decreases units.len(),
{
    if units.len() == 0 {
        None
    } else if units[0].id == id {
        Some(units[0])
    } else {
        unit_with_id(units.drop_first(), id)
    }
}

fn find_unit(units: &Vec<Unit>, id: UnitId) -> (r: Option<&Unit>)
    ensures
        r is Some <==> unit_with_id(units@, id) is Some,
        r matches Some(u) ==> Some(*u) == unit_with_id(units@, id),
{
    let n = units.len();
    let mut i: usize = 0;
    assert(units@.skip(0) =~= units@);
    while i < n
        invariant
            n == units@.len(),
            i <= n,
            unit_with_id(units@, id) == unit_with_id(units@.skip(i as int), id),
        decreases n - i,
    {
        assert(units@.skip(i as int).drop_first() =~= units@.skip(i + 1));
        if units[i].id == id {
            return Some(&units[i]);
        }
        i = i + 1;
    }
    assert(units@.skip(n as int).len() == 0);
    None
}

/// For each id of `new` that is neither in `old` nor in `active`, in order,
/// an event that shows that unit.
pub open spec fn show_events(units: Seq<Unit>, active: Seq<UnitId>, old: Seq<UnitId>, new: Seq<UnitId>) -> Seq<CoreEvent>
    decreases new.len(),
{
    if new.len() == 0 {
        Seq::empty()
    } else {
        let rest = show_events(units, active, old, new.drop_last());
        let id = new.last();
        if !old.contains(id) && !active.contains(id) {
            rest.push(CoreEvent::ShowUnit { unit_info: spec_unit_to_info(unit_with_id(units, id).unwrap()) })
        } else {
            rest
        }
    }
}

/// For each id of `old` that is neither in `new` nor in `active`, in order,
/// an event that hides that unit.
pub open spec fn hide_events(active: Seq<UnitId>, old: Seq<UnitId>, new: Seq<UnitId>) -> Seq<CoreEvent>
    decreases old.len(),
{
    if old.len() == 0 {
        Seq::empty()
    } else {
        let rest = hide_events(active, old.drop_last(), new);
        let id = old.last();
        if !new.contains(id) && !active.contains(id) {
            rest.push(CoreEvent::HideUnit { unit_id: id })
        } else {
            rest
        }
    }
}

/// Tells the player of the enemy units that came into sight or left it
/// without taking part in an event: a `ShowUnit` for each unit seen now
/// (`new`) and not before (`old`), then a `HideUnit` for each unit seen
/// before and not now, leaving out the units of `active_unit_ids`, which
/// the event itself already accounts for. The three lists of ids stand for
/// sets: none holds an id twice.
pub fn show_or_hide_passive_enemies(
    units: &Vec<Unit>,
    active_unit_ids: &Vec<UnitId>,
    old: &Vec<UnitId>,
    new: &Vec<UnitId>,
) -> (r: Vec<CoreEvent>)
    requires
        active_unit_ids@.no_duplicates(),
        old@.no_duplicates(),
        new@.no_duplicates(),
        forall|k: int|
            0 <= k < new@.len() && !old@.contains(new@[k]) && !active_unit_ids@.contains(new@[k])
                ==> #[trigger] unit_with_id(units@, new@[k]) is Some,
    ensures
        r@ == show_events(units@, active_unit_ids@, old@, new@) + hide_events(active_unit_ids@, old@, new@),
{
    let mut events: Vec<CoreEvent> = Vec::new();
    let n = new.len();
    let mut i: usize = 0;
    assert(new@.take(0) =~= Seq::<UnitId>::empty());
    while i < n
        invariant
            n == new@.len(),
            i <= n,
            forall|k: int|
                0 <= k < new@.len() && !old@.contains(new@[k]) && !active_unit_ids@.contains(new@[k])
                    ==> #[trigger] unit_with_id(units@, new@[k]) is Some,
            events@ == show_events(units@, active_unit_ids@, old@, new@.take(i as int)),
        decreases n - i,
    {
        assert(new@.take(i + 1).drop_last() =~= new@.take(i as int));
        let id = new[i];
        if !vec_contains(old, id) && !vec_contains(active_unit_ids, id) {
            let unit = find_unit(units, id);
            match unit {
                Some(u) => {
                    events.push(CoreEvent::ShowUnit { unit_info: unit_to_info(u) });
                },
                None => {
                    proof { assert(unit_with_id(units@, new@[i as int]) is Some); }
                },
            }
        }
        i = i + 1;
    }
    assert(new@.take(n as int) =~= new@);
    let ghost shown = events@;
    let m = old.len();
    let mut j: usize = 0;
    assert(old@.take(0) =~= Seq::<UnitId>::empty());
    assert(shown + hide_events(active_unit_ids@, old@.take(0), new@) =~= shown);
    while j < m
        invariant
            m == old@.len(),
            j <= m,
            events@ == shown + hide_events(active_unit_ids@, old@.take(j as int), new@),
        decreases m - j,
    {
        assert(old@.take(j + 1).drop_last() =~= old@.take(j as int));
        let id = old[j];
        if !vec_contains(new, id) && !vec_contains(active_unit_ids, id) {
            events.push(CoreEvent::HideUnit { unit_id: id });
            assert(events@ =~= shown + hide_events(active_unit_ids@, old@.take(j + 1), new@));
        } else {
            assert(events@ =~= shown + hide_events(active_unit_ids@, old@.take(j + 1), new@));
        }
        j = j + 1;
    }
    assert(old@.take(m as int) =~= old@);
    events
}

fn vec_contains(ids: &Vec<UnitId>, id: UnitId) -> (r: bool)
    ensures
        r == ids@.contains(id),
{
    let n = ids.len();
    let mut i: usize = 0;
    while i < n
        invariant
            n == ids@.len(),
            i <= n,
            forall|k: int| 0 <= k < i ==> ids@[k] != id,
        decreases n - i,
    {
        if ids[i] == id {
            assert(ids@[i as int] == id);
            return true;
        }
        i = i + 1;
    }
    false
}

/// What a player is told of `unit` when it is shown standing on `pos`.
pub open spec fn info_at(unit: Unit, pos: ExactPos) -> UnitInfo {
    UnitInfo { pos: pos, ..spec_unit_to_info(unit) }
}

/// What a player is told of `unit` when it is shown standing on `pos`
/// without the unit it tows.
pub open spec fn info_at_untowing(unit: Unit, pos: ExactPos) -> UnitInfo {
    UnitInfo { pos: pos, attached_unit_id: None, ..spec_unit_to_info(unit) }
}

pub open spec fn show_event(info: UnitInfo) -> CoreEvent {
    CoreEvent::ShowUnit { unit_info: info }
}

pub open spec fn hide_event(id: UnitId) -> CoreEvent {
    CoreEvent::HideUnit { unit_id: id }
}

/// `e` alone where `c` holds, nothing otherwise.
pub open spec fn if_seq(c: bool, e: CoreEvent) -> Seq<CoreEvent> {
    if c {
        seq![e]
    } else {
        Seq::empty()
    }
}

/// A fast move of `unit_id` that costs nothing.
pub open spec fn quiet_move(unit_id: UnitId, from: ExactPos, to: ExactPos) -> CoreEvent {
    CoreEvent::Move { unit_id: unit_id, from: from, to: to, mode: MoveMode::Fast, cost: MovePoints { n: 0 } }
}

impl Fow {
    /// `pos` lies on the fog's map.
    pub open spec fn on_map(&self, pos: ExactPos) -> bool {
        in_bounds(self.size(), pos.map_pos)
    }
}

pub open spec fn filtered_move(fow: Fow, state: InternalState, player: PlayerId, event: CoreEvent, unit_id: UnitId, from: ExactPos, to: ExactPos) -> (Seq<CoreEvent>, Set<UnitId>) {
    let unit = state.unit_spec(unit_id);
    if unit.player_id == player {
        (seq![event], Set::empty())
    } else {
        let prev = fow.sees(state, unit, from);
        let next = fow.sees(state, unit, to);
        let appears = !prev && next;
        let towed = match unit.attached_unit_id {
            Some(a) => seq![show_event(info_at(state.unit_spec(a), from))],
            None => Seq::empty(),
        };
        let shows = if appears { seq![show_event(info_at(unit, from))] + towed } else { Seq::empty() };
        let active = match unit.attached_unit_id {
            Some(a) => if appears { Set::empty().insert(a).insert(unit_id) } else { Set::empty().insert(unit_id) },
            None => Set::empty().insert(unit_id),
        };
        (shows + if_seq(prev || next, event) + if_seq(prev && !next, hide_event(unit.id)), active)
    }
}

pub open spec fn filtered_create(fow: Fow, state: InternalState, player: PlayerId, event: CoreEvent, unit_info: UnitInfo) -> (Seq<CoreEvent>, Set<UnitId>) {
    let unit = state.unit_spec(unit_info.unit_id);
    if player == unit_info.player_id || fow.sees(state, unit, unit_info.pos) {
        (seq![event], Set::empty().insert(unit_info.unit_id))
    } else {
        (Seq::empty(), Set::empty())
    }
}

pub open spec fn filtered_attack(fow: Fow, state: InternalState, player: PlayerId, attack_info: AttackInfo) -> (Seq<CoreEvent>, Set<UnitId>) {
    let attacker_id = attack_info.attacker_id.unwrap();
    let attacker = state.unit_spec(attacker_id);
    let revealed = player != attacker.player_id && !attack_info.is_ambush;
    let shows = if_seq(revealed && !fow.sees(state, attacker, attacker.pos), show_event(spec_unit_to_info(attacker)));
    let attacker_known = player == attacker.player_id || !attack_info.is_ambush;
    let told = AttackInfo { attacker_id: if attacker_known { Some(attacker_id) } else { None }, ..attack_info };
    let active = if revealed {
        Set::empty().insert(attacker_id).insert(attack_info.defender_id)
    } else {
        Set::empty().insert(attack_info.defender_id)
    };
    (shows.push(CoreEvent::AttackUnit { attack_info: told }), active)
}

pub open spec fn filtered_load(fow: Fow, state: InternalState, player: PlayerId, event: CoreEvent, transporter_id: Option<UnitId>, passenger_id: UnitId, from: ExactPos, to: ExactPos) -> (Seq<CoreEvent>, Set<UnitId>) {
    let passenger = state.unit_spec(passenger_id);
    let transporter = state.unit_spec(transporter_id.unwrap());
    let transporter_seen = fow.sees(state, transporter, transporter.pos);
    let passenger_seen = fow.sees(state, passenger, from);
    if passenger.player_id == player {
        (seq![event], Set::empty())
    } else if passenger_seen || transporter_seen {
        let load = CoreEvent::LoadUnit {
            transporter_id: if transporter_seen { transporter_id } else { None },
            passenger_id: passenger_id,
            from: from,
            to: to,
        };
        (if_seq(!passenger_seen, show_event(info_at(passenger, from))).push(load), Set::empty().insert(passenger_id))
    } else {
        (Seq::empty(), Set::empty())
    }
}

pub open spec fn filtered_unload(fow: Fow, state: InternalState, player: PlayerId, event: CoreEvent, unit_info: UnitInfo, transporter_id: Option<UnitId>, from: ExactPos, to: ExactPos) -> (Seq<CoreEvent>, Set<UnitId>) {
    let passenger = state.unit_spec(unit_info.unit_id);
    let transporter = state.unit_spec(transporter_id.unwrap());
    let transporter_seen = fow.sees(state, transporter, from);
    let passenger_seen = fow.sees(state, passenger, to);
    let active = Set::empty().insert(unit_info.unit_id);
    if passenger.player_id == player {
        (seq![event], active)
    } else if passenger_seen || transporter_seen {
        let unload = CoreEvent::UnloadUnit {
            unit_info: unit_info,
            transporter_id: if transporter_seen { transporter_id } else { None },
            from: from,
            to: to,
        };
        (seq![unload] + if_seq(!passenger_seen, hide_event(passenger.id)), active)
    } else {
        (Seq::empty(), active)
    }
}

pub open spec fn filtered_attach(fow: Fow, state: InternalState, player: PlayerId, event: CoreEvent, transporter_id: UnitId, attached_unit_id: Option<UnitId>, from: ExactPos, to: ExactPos) -> (Seq<CoreEvent>, Set<UnitId>) {
    let transporter = state.unit_spec(transporter_id);
    if transporter.player_id == player {
        (seq![event], Set::empty())
    } else {
        let attached = state.unit_spec(attached_unit_id.unwrap());
        let attached_seen = fow.sees(state, attached, to);
        let transporter_seen = fow.sees(state, transporter, from);
        let events = if attached_seen {
            if_seq(!transporter_seen, show_event(info_at_untowing(transporter, from))).push(event)
        } else if transporter_seen {
            seq![quiet_move(transporter_id, from, to), hide_event(transporter_id)]
        } else {
            Seq::empty()
        };
        (events, Set::empty().insert(transporter_id))
    }
}

pub open spec fn filtered_detach(fow: Fow, state: InternalState, player: PlayerId, event: CoreEvent, transporter_id: UnitId, from: ExactPos, to: ExactPos) -> (Seq<CoreEvent>, Set<UnitId>) {
    let transporter = state.unit_spec(transporter_id);
    if transporter.player_id == player {
        (seq![event], Set::empty())
    } else {
        let from_seen = fow.sees(state, transporter, from);
        let to_seen = fow.sees(state, transporter, to);
        let events = if from_seen {
            seq![event] + if_seq(!to_seen, hide_event(transporter_id))
        } else if to_seen {
            seq![show_event(info_at_untowing(transporter, from)), quiet_move(transporter_id, from, to)]
        } else {
            Seq::empty()
        };
        (events, Set::empty().insert(transporter_id))
    }
}

/// What `filter_events` tells `player` of `event`, and the units that the
/// told events account for.
pub open spec fn filtered(fow: Fow, state: InternalState, player: PlayerId, event: CoreEvent) -> (Seq<CoreEvent>, Set<UnitId>) {
    match event {
        CoreEvent::Move { unit_id, from, to, .. } => filtered_move(fow, state, player, event, unit_id, from, to),
        CoreEvent::CreateUnit { unit_info } => filtered_create(fow, state, player, event, unit_info),
        CoreEvent::AttackUnit { attack_info } => filtered_attack(fow, state, player, attack_info),
        CoreEvent::LoadUnit { transporter_id, passenger_id, from, to } =>
            filtered_load(fow, state, player, event, transporter_id, passenger_id, from, to),
        CoreEvent::UnloadUnit { unit_info, transporter_id, from, to } =>
            filtered_unload(fow, state, player, event, unit_info, transporter_id, from, to),
        CoreEvent::Attach { transporter_id, attached_unit_id, from, to } =>
            filtered_attach(fow, state, player, event, transporter_id, attached_unit_id, from, to),
        CoreEvent::Detach { transporter_id, from, to } =>
            filtered_detach(fow, state, player, event, transporter_id, from, to),
        CoreEvent::SetReactionFireMode { unit_id, .. } =>
            (if_seq(state.unit_spec(unit_id).player_id == player, event), Set::empty()),
        CoreEvent::Smoke { id, pos, unit_id } => {
            let unit = state.unit_spec(unit_id.unwrap());
            if fow.sees(state, unit, unit.pos) {
                (seq![event], Set::empty())
            } else {
                (seq![CoreEvent::Smoke { id: id, pos: pos, unit_id: None }], Set::empty())
            }
        },
        CoreEvent::ShowUnit { .. } | CoreEvent::HideUnit { .. } => (Seq::empty(), Set::empty()),
        _ => (seq![event], Set::empty()),
    }
}

/// The inputs on which `filter_events` can tell of `event`: the fog fits
/// the state, the event is one that the core produces (not `ShowUnit` or
/// `HideUnit`), the units it names are in the state where they are looked
/// up, the ids that must be given are given, and the places where the fog
/// is asked about are on the map.
pub open spec fn filter_ok(fow: Fow, state: InternalState, player: PlayerId, event: CoreEvent) -> bool {
    &&& fow.fits(state)
    &&& match event {
        CoreEvent::Move { unit_id, from, to, .. } => state.has_unit(unit_id) && {
            let unit = state.unit_spec(unit_id);
            unit.player_id != player ==> (fow.on_map(from) && fow.on_map(to) && (
                (!fow.sees(state, unit, from) && fow.sees(state, unit, to)) ==> match unit.attached_unit_id {
                    Some(a) => state.has_unit(a),
                    None => true,
                }))
        },
        CoreEvent::CreateUnit { unit_info } => state.has_unit(unit_info.unit_id) && (player
            != unit_info.player_id ==> fow.on_map(unit_info.pos)),
        CoreEvent::AttackUnit { attack_info } => match attack_info.attacker_id {
            Some(a) => state.has_unit(a),
            None => false,
        },
        CoreEvent::ShowUnit { .. } => false,
        CoreEvent::HideUnit { .. } => false,
        CoreEvent::LoadUnit { transporter_id, passenger_id, from, .. } => state.has_unit(passenger_id)
            && fow.on_map(from) && match transporter_id {
            Some(t) => state.has_unit(t),
            None => false,
        },
        CoreEvent::UnloadUnit { unit_info, transporter_id, from, to } => state.has_unit(unit_info.unit_id)
            && fow.on_map(from) && fow.on_map(to) && match transporter_id {
            Some(t) => state.has_unit(t),
            None => false,
        },
        CoreEvent::Attach { transporter_id, attached_unit_id, from, to } => state.has_unit(transporter_id) && (
        state.unit_spec(transporter_id).player_id != player ==> (fow.on_map(from) && fow.on_map(to)
            && match attached_unit_id {
            Some(a) => state.has_unit(a),
            None => false,
        })),
        CoreEvent::Detach { transporter_id, from, to } => state.has_unit(transporter_id) && (state.unit_spec(
            transporter_id,
        ).player_id != player ==> (fow.on_map(from) && fow.on_map(to))),
        CoreEvent::SetReactionFireMode { unit_id, .. } => state.has_unit(unit_id),
        CoreEvent::Smoke { unit_id, .. } => match unit_id {
            Some(u) => state.has_unit(u),
            None => false,
        },
        _ => true,
    }
}

/// The fog can be asked about a unit of the state on any tile of the map.
proof fn lemma_can_ask(fow: Fow, state: InternalState, id: UnitId, pos: ExactPos)
    requires
        fow.fits(state),
        state.has_unit(id),
        fow.on_map(pos),
    ensures
        fow.can_ask(state, state.unit_spec(id), pos),
{
    state.lemma_unit_on_map(id);
    crate::fow::lemma_unit_type_known(fow.db_spec(), state.units_spec(), state.unit_spec(id));
}

/// The fog can be asked about a unit of the state on its own tile.
proof fn lemma_can_ask_here(fow: Fow, state: InternalState, id: UnitId)
    requires
        fow.fits(state),
        state.has_unit(id),
    ensures
        fow.on_map(state.unit_spec(id).pos),
        fow.can_ask(state, state.unit_spec(id), state.unit_spec(id).pos),
{
    state.lemma_unit_on_map(id);
    lemma_can_ask(fow, state, id, state.unit_spec(id).pos);
}

fn push_show(events: &mut Vec<CoreEvent>, unit_info: UnitInfo)
    ensures
        final(events)@ == old(events)@.push(show_event(unit_info)),
{
    events.push(CoreEvent::ShowUnit { unit_info: unit_info });
}

fn filter_move(state: &InternalState, player_id: PlayerId, fow: &Fow, event: &CoreEvent, unit_id: UnitId, from: ExactPos, to: ExactPos) -> (r: (Vec<CoreEvent>, Vec<UnitId>))
    requires
        fow.fits(*state),
        event is Move,
        filter_ok(*fow, *state, player_id, *event),
        event->Move_unit_id == unit_id,
        event->Move_from == from,
        event->Move_to == to,
    ensures
        r.0@ == filtered_move(*fow, *state, player_id, *event, unit_id, from, to).0,
        r.1@.no_duplicates(),
        r.1@.to_set() == filtered_move(*fow, *state, player_id, *event, unit_id, from, to).1,
{
    let ghost spec_r = filtered_move(*fow, *state, player_id, *event, unit_id, from, to);
    let mut events: Vec<CoreEvent> = Vec::new();
    let unit = state.unit(unit_id);
    if unit.player_id == player_id {
        events.push(*event);
        return (events, no_ids());
    }
    proof {
        lemma_can_ask(*fow, *state, unit_id, from);
        lemma_can_ask(*fow, *state, unit_id, to);
    }
    let mut active = no_ids();
    let prev_vis = fow.is_visible(state, unit, from);
    let next_vis = fow.is_visible(state, unit, to);
    if !prev_vis && next_vis {
        push_show(&mut events, UnitInfo { pos: from, ..unit_to_info(unit) });
        if let Some(attached_unit_id) = unit.attached_unit_id {
            insert_id(&mut active, attached_unit_id);
            let attached_unit = state.unit(attached_unit_id);
            push_show(&mut events, UnitInfo { pos: from, ..unit_to_info(attached_unit) });
        }
    }
    if prev_vis || next_vis {
        events.push(*event);
    }
    if prev_vis && !next_vis {
        events.push(CoreEvent::HideUnit { unit_id: unit.id });
    }
    insert_id(&mut active, unit_id);
    proof {
        assert(events@ =~= spec_r.0);
        assert(active@.to_set() =~= spec_r.1);
    }
    (events, active)
}

fn filter_attack(state: &InternalState, player_id: PlayerId, fow: &Fow, attack_info: AttackInfo) -> (r: (Vec<CoreEvent>, Vec<UnitId>))
    requires
        fow.fits(*state),
        attack_info.attacker_id matches Some(a) && state.has_unit(a),
    ensures
        r.0@ == filtered_attack(*fow, *state, player_id, attack_info).0,
        r.1@.no_duplicates(),
        r.1@.to_set() == filtered_attack(*fow, *state, player_id, attack_info).1,
{
    let ghost spec_r = filtered_attack(*fow, *state, player_id, attack_info);
    let mut events: Vec<CoreEvent> = Vec::new();
    let mut active = no_ids();
    let attacker_id = match attack_info.attacker_id {
        Some(a) => a,
        None => {
            proof { assert(false); }
            return (events, active);
        },
    };
    let attacker = state.unit(attacker_id);
    if player_id != attacker.player_id && !attack_info.is_ambush {
        proof { lemma_can_ask_here(*fow, *state, attacker_id); }
        if !fow.is_visible(state, attacker, attacker.pos) {
            push_show(&mut events, unit_to_info(attacker));
        }
        insert_id(&mut active, attacker_id);
    }
    insert_id(&mut active, attack_info.defender_id);
    let is_attacker_visible = player_id == attacker.player_id || !attack_info.is_ambush;
    let told = AttackInfo {
        attacker_id: if is_attacker_visible { Some(attacker_id) } else { None },
        ..attack_info
    };
    events.push(CoreEvent::AttackUnit { attack_info: told });
    proof {
        assert(events@ =~= spec_r.0);
        assert(active@.to_set() =~= spec_r.1);
    }
    (events, active)
}

fn filter_load(state: &InternalState, player_id: PlayerId, fow: &Fow, event: &CoreEvent, transporter_id: Option<UnitId>, passenger_id: UnitId, from: ExactPos, to: ExactPos) -> (r: (Vec<CoreEvent>, Vec<UnitId>))
    requires
        fow.fits(*state),
        state.has_unit(passenger_id),
        fow.on_map(from),
        transporter_id matches Some(t) && state.has_unit(t),
    ensures
        r.0@ == filtered_load(*fow, *state, player_id, *event, transporter_id, passenger_id, from, to).0,
        r.1@.no_duplicates(),
        r.1@.to_set() == filtered_load(*fow, *state, player_id, *event, transporter_id, passenger_id, from, to).1,
{
    let ghost spec_r = filtered_load(*fow, *state, player_id, *event, transporter_id, passenger_id, from, to);
    let mut events: Vec<CoreEvent> = Vec::new();
    let mut active = no_ids();
    let passenger = state.unit(passenger_id);
    let tid = match transporter_id {
        Some(t) => t,
        None => {
            proof { assert(false); }
            return (events, active);
        },
    };
    let transporter = state.unit(tid);
    proof {
        lemma_can_ask_here(*fow, *state, tid);
        lemma_can_ask(*fow, *state, passenger_id, from);
    }
    let is_transporter_vis = fow.is_visible(state, transporter, transporter.pos);
    let is_passenger_vis = fow.is_visible(state, passenger, from);
    if passenger.player_id == player_id {
        events.push(*event);
    } else if is_passenger_vis || is_transporter_vis {
        if !fow.is_visible(state, passenger, from) {
            push_show(&mut events, UnitInfo { pos: from, ..unit_to_info(passenger) });
        }
        let filtered_transporter_id = if is_transporter_vis { transporter_id } else { None };
        events.push(CoreEvent::LoadUnit {
            transporter_id: filtered_transporter_id,
            passenger_id: passenger_id,
            from: from,
            to: to,
        });
        insert_id(&mut active, passenger_id);
    }
    proof {
        assert(events@ =~= spec_r.0);
        assert(active@.to_set() =~= spec_r.1);
    }
    (events, active)
}

fn filter_unload(state: &InternalState, player_id: PlayerId, fow: &Fow, event: &CoreEvent, unit_info: UnitInfo, transporter_id: Option<UnitId>, from: ExactPos, to: ExactPos) -> (r: (Vec<CoreEvent>, Vec<UnitId>))
    requires
        fow.fits(*state),
        state.has_unit(unit_info.unit_id),
        fow.on_map(from),
        fow.on_map(to),
        transporter_id matches Some(t) && state.has_unit(t),
    ensures
        r.0@ == filtered_unload(*fow, *state, player_id, *event, unit_info, transporter_id, from, to).0,
        r.1@.no_duplicates(),
        r.1@.to_set() == filtered_unload(*fow, *state, player_id, *event, unit_info, transporter_id, from, to).1,
{
    let ghost spec_r = filtered_unload(*fow, *state, player_id, *event, unit_info, transporter_id, from, to);
    let mut events: Vec<CoreEvent> = Vec::new();
    let active = single_id(unit_info.unit_id);
    let passenger = state.unit(unit_info.unit_id);
    let tid = match transporter_id {
        Some(t) => t,
        None => {
            proof { assert(false); }
            return (events, active);
        },
    };
    let transporter = state.unit(tid);
    proof {
        lemma_can_ask(*fow, *state, tid, from);
        lemma_can_ask(*fow, *state, unit_info.unit_id, to);
    }
    let is_transporter_vis = fow.is_visible(state, transporter, from);
    let is_passenger_vis = fow.is_visible(state, passenger, to);
    if passenger.player_id == player_id {
        events.push(*event);
    } else if is_passenger_vis || is_transporter_vis {
        let filtered_transporter_id = if is_transporter_vis { transporter_id } else { None };
        events.push(CoreEvent::UnloadUnit {
            transporter_id: filtered_transporter_id,
            unit_info: unit_info,
            from: from,
            to: to,
        });
        if !is_passenger_vis {
            events.push(CoreEvent::HideUnit { unit_id: passenger.id });
        }
    }
    proof {
        assert(events@ =~= spec_r.0);
    }
    (events, active)
}

fn filter_attach(state: &InternalState, player_id: PlayerId, fow: &Fow, event: &CoreEvent, transporter_id: UnitId, attached_unit_id: Option<UnitId>, from: ExactPos, to: ExactPos) -> (r: (Vec<CoreEvent>, Vec<UnitId>))
    requires
        fow.fits(*state),
        state.has_unit(transporter_id),
        state.unit_spec(transporter_id).player_id != player_id ==> (fow.on_map(from) && fow.on_map(to)
            && (attached_unit_id matches Some(a) && state.has_unit(a))),
    ensures
        r.0@ == filtered_attach(*fow, *state, player_id, *event, transporter_id, attached_unit_id, from, to).0,
        r.1@.no_duplicates(),
        r.1@.to_set() == filtered_attach(*fow, *state, player_id, *event, transporter_id, attached_unit_id, from, to).1,
{
    let ghost spec_r = filtered_attach(*fow, *state, player_id, *event, transporter_id, attached_unit_id, from, to);
    let mut events: Vec<CoreEvent> = Vec::new();
    let transporter = state.unit(transporter_id);
    if transporter.player_id == player_id {
        events.push(*event);
        return (events, no_ids());
    }
    let aid = match attached_unit_id {
        Some(a) => a,
        None => {
            proof { assert(false); }
            return (events, no_ids());
        },
    };
    let active = single_id(transporter_id);
    let attached_unit = state.unit(aid);
    proof {
        lemma_can_ask(*fow, *state, aid, to);
        lemma_can_ask(*fow, *state, transporter_id, from);
    }
    let is_attached_unit_vis = fow.is_visible(state, attached_unit, to);
    let is_transporter_vis = fow.is_visible(state, transporter, from);
    if is_attached_unit_vis {
        if !is_transporter_vis {
            push_show(&mut events, UnitInfo { pos: from, attached_unit_id: None, ..unit_to_info(transporter) });
        }
        events.push(*event);
    } else {
        if is_transporter_vis {
            events.push(CoreEvent::Move {
                unit_id: transporter_id,
                mode: MoveMode::Fast,
                cost: MovePoints { n: 0 },
                from: from,
                to: to,
            });
            events.push(CoreEvent::HideUnit { unit_id: transporter_id });
        }
    }
    proof {
        assert(events@ =~= spec_r.0);
    }
    (events, active)
}

fn filter_detach(state: &InternalState, player_id: PlayerId, fow: &Fow, event: &CoreEvent, transporter_id: UnitId, from: ExactPos, to: ExactPos) -> (r: (Vec<CoreEvent>, Vec<UnitId>))
    requires
        fow.fits(*state),
        state.has_unit(transporter_id),
        state.unit_spec(transporter_id).player_id != player_id ==> (fow.on_map(from) && fow.on_map(to)),
    ensures
        r.0@ == filtered_detach(*fow, *state, player_id, *event, transporter_id, from, to).0,
        r.1@.no_duplicates(),
        r.1@.to_set() == filtered_detach(*fow, *state, player_id, *event, transporter_id, from, to).1,
{
    let ghost spec_r = filtered_detach(*fow, *state, player_id, *event, transporter_id, from, to);
    let mut events: Vec<CoreEvent> = Vec::new();
    let transporter = state.unit(transporter_id);
    if transporter.player_id == player_id {
        events.push(*event);
        return (events, no_ids());
    }
    let active = single_id(transporter_id);
    proof {
        lemma_can_ask(*fow, *state, transporter_id, from);
        lemma_can_ask(*fow, *state, transporter_id, to);
    }
    let is_from_vis = fow.is_visible(state, transporter, from);
    let is_to_vis = fow.is_visible(state, transporter, to);
    if is_from_vis {
        events.push(*event);
        if !is_to_vis {
            events.push(CoreEvent::HideUnit { unit_id: transporter_id });
        }
    } else {
        if is_to_vis {
            push_show(&mut events, UnitInfo { pos: from, attached_unit_id: None, ..unit_to_info(transporter) });
            events.push(CoreEvent::Move {
                unit_id: transporter_id,
                mode: MoveMode::Fast,
                cost: MovePoints { n: 0 },
                from: from,
                to: to,
            });
        }
    }
    proof {
        assert(events@ =~= spec_r.0);
    }
    (events, active)
}

/// What `player_id` is told of `event`, given what the player sees, and the
/// units that the told events account for. The player's own units are
/// reported as they are; other players' units are reported only as far as
/// the player sees them, with `ShowUnit` and `HideUnit` where they come into
/// or leave sight, an ambushing attacker stays unknown, and smoke laid by an
/// unseen unit comes without its layer.
pub fn filter_events(
    state: &InternalState,
    player_id: PlayerId,
    fow: &Fow,
    event: &CoreEvent,
) -> (r: (Vec<CoreEvent>, Vec<UnitId>))
    requires
        filter_ok(*fow, *state, player_id, *event),
    ensures
        r.0@ == filtered(*fow, *state, player_id, *event).0,
        r.1@.no_duplicates(),
        r.1@.to_set() == filtered(*fow, *state, player_id, *event).1,
{
    match *event {
        CoreEvent::Move { unit_id, from, to, .. } => filter_move(state, player_id, fow, event, unit_id, from, to),
        CoreEvent::CreateUnit { unit_info } => {
            let unit = state.unit(unit_info.unit_id);
            let mut events: Vec<CoreEvent> = Vec::new();
            let mut active = no_ids();
            let shown = if player_id == unit_info.player_id {
                true
            } else {
                proof { lemma_can_ask(*fow, *state, unit_info.unit_id, unit_info.pos); }
                fow.is_visible(state, unit, unit_info.pos)
            };
            if shown {
                events.push(*event);
                insert_id(&mut active, unit_info.unit_id);
            }
            proof { assert(events@ =~= filtered(*fow, *state, player_id, *event).0); }
            (events, active)
        },
        CoreEvent::AttackUnit { attack_info } => filter_attack(state, player_id, fow, attack_info),
        CoreEvent::ShowUnit { .. } => {
            proof { assert(false); }
            (Vec::new(), no_ids())
        },
        CoreEvent::HideUnit { .. } => {
            proof { assert(false); }
            (Vec::new(), no_ids())
        },
        CoreEvent::LoadUnit { passenger_id, from, to, transporter_id } =>
            filter_load(state, player_id, fow, event, transporter_id, passenger_id, from, to),
        CoreEvent::UnloadUnit { unit_info, transporter_id, from, to } =>
            filter_unload(state, player_id, fow, event, unit_info, transporter_id, from, to),
        CoreEvent::Attach { transporter_id, attached_unit_id, from, to } =>
            filter_attach(state, player_id, fow, event, transporter_id, attached_unit_id, from, to),
        CoreEvent::Detach { transporter_id, from, to } =>
            filter_detach(state, player_id, fow, event, transporter_id, from, to),
        CoreEvent::SetReactionFireMode { unit_id, .. } => {
            let unit = state.unit(unit_id);
            let mut events: Vec<CoreEvent> = Vec::new();
            if unit.player_id == player_id {
                events.push(*event);
            }
            proof { assert(events@ =~= filtered(*fow, *state, player_id, *event).0); }
            (events, no_ids())
        },
        CoreEvent::Smoke { id, pos, unit_id } => {
            let uid = match unit_id {
                Some(u) => u,
                None => {
                    proof { assert(false); }
                    return (Vec::new(), no_ids());
                },
            };
            let unit = state.unit(uid);
            proof { lemma_can_ask_here(*fow, *state, uid); }
            let mut events: Vec<CoreEvent> = Vec::new();
            if fow.is_visible(state, unit, unit.pos) {
                events.push(*event);
            } else {
                events.push(CoreEvent::Smoke { id: id, pos: pos, unit_id: None });
            }
            proof { assert(events@ =~= filtered(*fow, *state, player_id, *event).0); }
            (events, no_ids())
        },
        CoreEvent::EndTurn { .. }
        | CoreEvent::RemoveSmoke { .. }
        | CoreEvent::VictoryPoint { .. }
        | CoreEvent::SectorOwnerChanged { .. } => {
            let mut events: Vec<CoreEvent> = Vec::new();
            events.push(*event);
            proof { assert(events@ =~= filtered(*fow, *state, player_id, *event).0); }
            (events, no_ids())
        },
    }
}

} // verus!
