use vstd::prelude::*;
use std::rc::Rc;
use crate::types::{Distance, ExactPos, MapPos, PlayerId, Size2, UnitId, distance, hex_distance};
use crate::map::{Terrain, TileMap, in_bounds, tile_index};
use crate::unit::{Db, Unit, UnitType};
use crate::state::{InternalState, Object, ObjectClass};
use crate::event::CoreEvent;

verus! {

/// How well a player sees a tile.
#[derive(Clone, Copy, PartialEq, Eq, Structural, PartialOrd, Debug)]
pub enum TileVisibility {
    No,
    Normal,
    Excellent,
}

/// The order of visibilities: `No` below `Normal` below `Excellent`.
pub open spec fn rank(v: TileVisibility) -> int {
    match v {
        TileVisibility::No => 0,
        TileVisibility::Normal => 1,
        TileVisibility::Excellent => 2,
    }
}

impl Default for TileVisibility {
    fn default() -> (r: Self)
        ensures
            r == TileVisibility::No,
    {
        TileVisibility::No
    }
}

impl TileVisibility {
    /// Whether `self` is a better view than `other`.
    pub fn is_better_than(self, other: TileVisibility) -> (r: bool)
        ensures
            r == (rank(self) > rank(other)),
    {
        match (self, other) {
            (TileVisibility::Excellent, TileVisibility::Normal) => true,
            (TileVisibility::Excellent, TileVisibility::No) => true,
            (TileVisibility::Normal, TileVisibility::No) => true,
            _ => false,
        }
    }
}

/// City and trees give cover.
pub open spec fn terrain_gives_cover(t: Terrain) -> bool {
    t is City || t is Trees
}

/// Buildings and smoke give cover.
pub open spec fn object_gives_cover(c: ObjectClass) -> bool {
    c is Building || c is Smoke
}

/// Some object on the tile `pos` gives cover.
pub open spec fn covered_by_object(objects: Seq<Object>, pos: MapPos) -> bool {
    exists|i: int|
        0 <= i < objects.len() && #[trigger] objects[i].pos.map_pos == pos
            && object_gives_cover(objects[i].class)
}

/// How well a unit of type `unit_type` standing on `origin` sees the tile `pos`.
pub open spec fn spec_calc_visibility(
    state: InternalState,
    unit_type: UnitType,
    origin: MapPos,
    pos: MapPos,
) -> TileVisibility {
    let d = hex_distance(origin, pos);
    if d > unit_type.los_range.n {
        TileVisibility::No
    } else if d <= unit_type.cover_los_range.n {
        TileVisibility::Excellent
    } else if terrain_gives_cover(state.map_spec().at(pos)) || covered_by_object(
        state.objects_spec(),
        pos,
    ) {
        TileVisibility::Normal
    } else {
        TileVisibility::Excellent
    }
}

/// How well a unit of type `unit_type` standing on `origin` sees the tile `pos`.
pub fn calc_visibility(
    state: &InternalState,
    unit_type: &UnitType,
    origin: MapPos,
    pos: MapPos,
) -> (r: TileVisibility)
    requires
        state.wf(),
        state.map_spec().contains(pos),
    ensures
        r == spec_calc_visibility(*state, *unit_type, origin, pos),
{
    let d = distance(origin, pos);
    if d > unit_type.los_range.n as i64 {
        return TileVisibility::No;
    }
    if d <= unit_type.cover_los_range.n as i64 {
        return TileVisibility::Excellent;
    }
    let mut vis = match *state.map().tile(pos) {
        Terrain::City | Terrain::Trees => TileVisibility::Normal,
        Terrain::Plain | Terrain::Water => TileVisibility::Excellent,
    };
    let objects = state.objects();
    let n = objects.len();
    let mut i: usize = 0;
    while i < n
        invariant
            n == objects@.len(),
            objects@ == state.objects_spec(),
            i <= n,
            vis == (if terrain_gives_cover(state.map_spec().at(pos)) || exists|k: int|
                0 <= k < i && #[trigger] objects@[k].pos.map_pos == pos && object_gives_cover(
                    objects@[k].class,
                ) {
                TileVisibility::Normal
            } else {
                TileVisibility::Excellent
            }),
        decreases n - i,
    {
        if objects[i].pos.map_pos == pos {
            match objects[i].class {
                ObjectClass::Building | ObjectClass::Smoke => {
                    vis = TileVisibility::Normal;
                },
                ObjectClass::Road | ObjectClass::ReinforcementSector => {},
            }
        }
        i = i + 1;
    }
    vis
}

/// The map `tiles` after a unit of type `unit_type` standing on `origin`
/// has looked at the tiles `reached`, one after another: each of them that
/// the unit sees better than before now shows that better view.
pub open spec fn raise_tiles(
    tiles: Seq<TileVisibility>,
    size: Size2,
    state: InternalState,
    unit_type: UnitType,
    origin: MapPos,
    reached: Seq<MapPos>,
) -> Seq<TileVisibility>
    decreases reached.len(),
{
    if reached.len() == 0 {
        tiles
    } else {
        let before = raise_tiles(tiles, size, state, unit_type, origin, reached.drop_last());
        let p = reached.last();
        let v = spec_calc_visibility(state, unit_type, origin, p);
        let i = tile_index(size, p);
        if rank(v) > rank(before[i]) {
            before.update(i, v)
        } else {
            before
        }
    }
}

/// The map `tiles` after each unit of `needs` has looked, from the place
/// given beside it, at the tiles of the matching entry of `reached`.
pub open spec fn raise_all(
    tiles: Seq<TileVisibility>,
    size: Size2,
    state: InternalState,
    db: Db,
    needs: Seq<(Unit, MapPos)>,
    reached: Seq<Seq<MapPos>>,
) -> Seq<TileVisibility>
    decreases needs.len(),
{
    if needs.len() == 0 {
        tiles
    } else {
        let k = needs.len() - 1;
        raise_tiles(
            raise_all(tiles, size, state, db, needs.drop_last(), reached),
            size,
            state,
            db.type_of(needs[k].0.type_id),
            needs[k].1,
            reached[k],
        )
    }
}

/// The units of `player` that are alive, each with the tile it stands on,
/// in the order of `units`.
pub open spec fn own_living_units(units: Seq<Unit>, player: PlayerId) -> Seq<(Unit, MapPos)>
    decreases units.len(),
{
    if units.len() == 0 {
        Seq::empty()
    } else {
        let rest = own_living_units(units.drop_last(), player);
        let u = units.last();
        if u.player_id == player && u.is_alive {
            rest.push((u, u.pos.map_pos))
        } else {
            rest
        }
    }
}

/// What a unit's line-of-sight walk from one tile reached: the tiles it
/// looked at, in the order it looked at them.
#[derive(Clone, Debug)]
pub struct Sight {
    pub unit_id: UnitId,
    pub origin: MapPos,
    pub tiles: Vec<MapPos>,
}

/// A look that an event needs: `unit_id` looks from `origin` as far as
/// `range`, over every obstacle where `simple` holds, else along its line of
/// sight.
#[derive(Clone, Copy, PartialEq, Eq, Structural, Debug)]
pub struct SightRequest {
    pub unit_id: UnitId,
    pub origin: MapPos,
    pub range: Distance,
    pub simple: bool,
}

pub open spec fn spec_sight_request(db: Db, unit: Unit, origin: MapPos) -> SightRequest {
    let unit_type = db.type_of(unit.type_id);
    SightRequest { unit_id: unit.id, origin: origin, range: unit_type.los_range, simple: unit_type.is_air }
}

fn sight_request(db: &Db, unit: &Unit, origin: MapPos) -> (r: SightRequest)
    requires
        db.has_type(unit.type_id),
    ensures
        r == spec_sight_request(*db, *unit, origin),
{
    let unit_type = db.unit_type(unit.type_id);
    SightRequest { unit_id: unit.id, origin: origin, range: unit_type.los_range, simple: unit_type.is_air }
}

pub open spec fn sight_tiles(sights: Seq<Sight>) -> Seq<Seq<MapPos>> {
    sights.map_values(|s: Sight| s.tiles@)
}

/// A unit standing on `pos` inside some other unit that carries it.
pub open spec fn carried_at(units: Seq<Unit>, id: UnitId, pos: ExactPos) -> bool {
    exists|i: int|
        0 <= i < units.len() && #[trigger] units[i].passenger_id == Some(id) && units[i].pos == pos
}

/// Some unit of another player than `unit`'s is close enough to `pos` to see it.
pub open spec fn in_enemy_range(db: Db, units: Seq<Unit>, unit: Unit, pos: ExactPos) -> bool {
    exists|i: int|
        0 <= i < units.len() && #[trigger] units[i].player_id != unit.player_id && hex_distance(
            pos.map_pos,
            units[i].pos.map_pos,
        ) <= db.type_of(units[i].type_id).los_range.n
}

/// Whether a tile seen as `vis` lets a unit of type `unit_type` on it be seen:
/// infantry hides where the view is only normal.
pub open spec fn terrain_reveals(vis: TileVisibility, unit_type: UnitType) -> bool {
    match vis {
        TileVisibility::Excellent => true,
        TileVisibility::Normal => !unit_type.is_infantry,
        TileVisibility::No => false,
    }
}

/// Every unit of `units` has a type known to `db`.
pub open spec fn types_known(db: Db, units: Seq<Unit>) -> bool {
    forall|i: int| 0 <= i < units.len() ==> db.has_type(#[trigger] units[i].type_id)
}

/// Fog of war: what one player sees of the map.
#[derive(Clone, Debug)]
pub struct Fow {
    map: TileMap<TileVisibility>,
    player_id: PlayerId,
    db: Rc<Db>,
}

impl Fow {
    pub closed spec fn map_spec(&self) -> TileMap<TileVisibility> {
        self.map
    }

    pub closed spec fn player_spec(&self) -> PlayerId {
        self.player_id
    }

    pub closed spec fn db_spec(&self) -> Db {
        *self.db
    }

    pub open spec fn wf(&self) -> bool {
        self.map_spec().wf()
    }

    /// The visibility of each tile, row after row.
    pub open spec fn tiles(&self) -> Seq<TileVisibility> {
        self.map_spec().tiles_spec()
    }

    pub open spec fn size(&self) -> Size2 {
        self.map_spec().size_spec()
    }

    /// How well the player sees the tile `pos`.
    pub open spec fn vis_at(&self, pos: MapPos) -> TileVisibility {
        self.map_spec().at(pos)
    }

    /// The fog and the state describe the same map, and every unit of the
    /// state has a type that the fog's unit types know.
    pub open spec fn fits(&self, state: InternalState) -> bool {
        &&& self.wf()
        &&& state.wf()
        &&& self.size() == state.map_spec().size_spec()
        &&& types_known(self.db_spec(), state.units_spec())
    }

    /// Whether the player sees `unit` when it stands on `pos`.
    pub open spec fn sees(&self, state: InternalState, unit: Unit, pos: ExactPos) -> bool {
        let unit_type = self.db_spec().type_of(unit.type_id);
        &&& !carried_at(state.units_spec(), unit.id, pos)
        &&& ((unit_type.is_air && in_enemy_range(self.db_spec(), state.units_spec(), unit, pos))
            || terrain_reveals(self.vis_at(pos.map_pos), unit_type))
    }

    /// When `is_visible` can be asked about `unit` on `pos`.
    pub open spec fn can_ask(&self, state: InternalState, unit: Unit, pos: ExactPos) -> bool {
        &&& self.wf()
        &&& state.wf()
        &&& self.map_spec().contains(pos.map_pos)
        &&& self.db_spec().has_type(unit.type_id)
        &&& (self.db_spec().type_of(unit.type_id).is_air ==> types_known(
            self.db_spec(),
            state.units_spec(),
        ))
    }

    /// A fog for `player_id` on a map of size `map_size`, where nothing is seen yet.
    pub fn new(db: Rc<Db>, map_size: Size2, player_id: PlayerId) -> (r: Fow)
        requires
            map_size.w >= 0,
            map_size.h >= 0,
            (map_size.w as int) * (map_size.h as int) <= usize::MAX,
        ensures
            r.wf(),
            r.size() == map_size,
            r.player_spec() == player_id,
            r.db_spec() == *db,
            forall|p: MapPos| in_bounds(map_size, p) ==> r.vis_at(p) == TileVisibility::No,
    {
        let r = Fow { map: TileMap::filled(map_size, TileVisibility::No), player_id: player_id, db: db };
        assert forall|p: MapPos| in_bounds(map_size, p) implies r.vis_at(p) == TileVisibility::No by {
            crate::map::lemma_index_in_range(map_size, p);
        }
        r
    }

    pub fn player_id(&self) -> (r: PlayerId)
        ensures
            r == self.player_spec(),
    {
        self.player_id
    }

    /// Whether the player sees the tile `pos` at all.
    pub fn is_tile_visible(&self, pos: MapPos) -> (r: bool)
        requires
            self.wf(),
            self.map_spec().contains(pos),
        ensures
            r == (self.vis_at(pos) != TileVisibility::No),
    {
        match *self.map.tile(pos) {
            TileVisibility::Excellent | TileVisibility::Normal => true,
            TileVisibility::No => false,
        }
    }

    fn check_terrain_visibility(&self, unit_type: &UnitType, pos: MapPos) -> (r: bool)
        requires
            self.wf(),
            self.map_spec().contains(pos),
        ensures
            r == terrain_reveals(self.vis_at(pos), *unit_type),
    {
        match *self.map.tile(pos) {
            TileVisibility::Excellent => true,
            TileVisibility::Normal => !unit_type.is_infantry,
            TileVisibility::No => false,
        }
    }

    /// Whether the player sees `unit` when it stands on `pos`: never while
    /// another unit carries it there; an air unit whenever an enemy of it is
    /// close enough; otherwise as the view of the tile allows.
    pub fn is_visible(&self, state: &InternalState, unit: &Unit, pos: ExactPos) -> (r: bool)
        requires
            self.can_ask(*state, *unit, pos),
        ensures
            r == self.sees(*state, *unit, pos),
    {
        let units = state.units();
        let n = units.len();
        let mut i: usize = 0;
        while i < n
            invariant
                n == units@.len(),
                units@ == state.units_spec(),
                i <= n,
                forall|k: int|
                    0 <= k < i ==> !(#[trigger] units@[k].passenger_id == Some(unit.id) && units@[k].pos == pos),
            decreases n - i,
        {
            if let Some(passenger_id) = units[i].passenger_id {
                if passenger_id == unit.id && units[i].pos == pos {
                    return false;
                }
            }
            i = i + 1;
        }
        assert(!carried_at(state.units_spec(), unit.id, pos));
        let unit_type = self.db.unit_type(unit.type_id);
        if unit_type.is_air {
            let mut j: usize = 0;
            while j < n
                invariant
                    n == units@.len(),
                    units@ == state.units_spec(),
                    j <= n,
                    types_known(self.db_spec(), state.units_spec()),
                    !carried_at(state.units_spec(), unit.id, pos),
                    *unit_type == self.db_spec().type_of(unit.type_id),
                    unit_type.is_air,
                    forall|k: int|
                        0 <= k < j ==> !(#[trigger] units@[k].player_id != unit.player_id && hex_distance(
                            pos.map_pos,
                            units@[k].pos.map_pos,
                        ) <= self.db_spec().type_of(units@[k].type_id).los_range.n),
                decreases n - j,
            {
                if units[j].player_id != unit.player_id {
                    let enemy_type = self.db.unit_type(units[j].type_id);
                    let d = distance(pos.map_pos, units[j].pos.map_pos);
                    if d <= enemy_type.los_range.n as i64 {
                        assert(units@[j as int].player_id != unit.player_id);
                        assert(in_enemy_range(self.db_spec(), state.units_spec(), *unit, pos));
                        return true;
                    }
                }
                j = j + 1;
            }
        }
        self.check_terrain_visibility(unit_type, pos.map_pos)
    }
}

/// The units of `units.take(i)` that `own_living_units` keeps come first, in
/// the same order, among those of `units.take(j)` for `i <= j`.
pub proof fn lemma_own_living_prefix(units: Seq<Unit>, player: PlayerId, i: int, j: int)
    requires
        0 <= i <= j <= units.len(),
    ensures
        own_living_units(units.take(i), player).len() <= own_living_units(units.take(j), player).len(),
        forall|k: int|
            0 <= k < own_living_units(units.take(i), player).len() ==> #[trigger] own_living_units(
                units.take(i),
                player,
            )[k] == own_living_units(units.take(j), player)[k],
    decreases j - i,
{
    if i < j {
        lemma_own_living_prefix(units, player, i, j - 1);
        assert(units.take(j).drop_last() =~= units.take(j - 1));
    }
}

/// Looking at more tiles never lowers how well a tile is seen, and keeps
/// the number of tiles.
pub proof fn lemma_raise_tiles_monotone(
    tiles: Seq<TileVisibility>,
    size: Size2,
    state: InternalState,
    unit_type: UnitType,
    origin: MapPos,
    reached: Seq<MapPos>,
)
    requires
        forall|k: int| 0 <= k < reached.len() ==> 0 <= #[trigger] tile_index(size, reached[k]) < tiles.len(),
    ensures
        raise_tiles(tiles, size, state, unit_type, origin, reached).len() == tiles.len(),
        forall|i: int|
            0 <= i < tiles.len() ==> rank(#[trigger] raise_tiles(tiles, size, state, unit_type, origin, reached)[i])
                >= rank(tiles[i]),
    decreases reached.len(),
{
    if reached.len() > 0 {
        let rest = reached.drop_last();
        assert forall|k: int| 0 <= k < rest.len() implies 0 <= #[trigger] tile_index(size, rest[k]) < tiles.len() by {
            assert(rest[k] == reached[k]);
        }
        lemma_raise_tiles_monotone(tiles, size, state, unit_type, origin, rest);
        assert(0 <= tile_index(size, reached[reached.len() - 1]) < tiles.len());
    }
}

/// The better of two views.
pub open spec fn better(a: TileVisibility, b: TileVisibility) -> TileVisibility {
    if rank(b) > rank(a) {
        b
    } else {
        a
    }
}

/// How well the tile at place `i` is seen after a unit of type `unit_type`
/// standing on `origin` has looked at the tiles `reached`, where it was seen
/// as `v` before.
pub open spec fn look_at_place(
    v: TileVisibility,
    size: Size2,
    state: InternalState,
    unit_type: UnitType,
    origin: MapPos,
    reached: Seq<MapPos>,
    i: int,
) -> TileVisibility
    decreases reached.len(),
{
    if reached.len() == 0 {
        v
    } else {
        let before = look_at_place(v, size, state, unit_type, origin, reached.drop_last(), i);
        if tile_index(size, reached.last()) == i {
            better(before, spec_calc_visibility(state, unit_type, origin, reached.last()))
        } else {
            before
        }
    }
}

/// A look raises each tile, on its own, to the better of its view and the
/// best view the look gives of it.
proof fn lemma_raise_tiles_pointwise(
    tiles: Seq<TileVisibility>,
    size: Size2,
    state: InternalState,
    unit_type: UnitType,
    origin: MapPos,
    reached: Seq<MapPos>,
)
    requires
        forall|k: int| 0 <= k < reached.len() ==> 0 <= #[trigger] tile_index(size, reached[k]) < tiles.len(),
    ensures
        raise_tiles(tiles, size, state, unit_type, origin, reached).len() == tiles.len(),
        forall|i: int|
            0 <= i < tiles.len() ==> #[trigger] raise_tiles(tiles, size, state, unit_type, origin, reached)[i]
                == better(tiles[i], look_at_place(TileVisibility::No, size, state, unit_type, origin, reached, i)),
    decreases reached.len(),
{
    if reached.len() > 0 {
        let rest = reached.drop_last();
        assert forall|k: int| 0 <= k < rest.len() implies 0 <= #[trigger] tile_index(size, rest[k]) < tiles.len() by {
            assert(rest[k] == reached[k]);
        }
        lemma_raise_tiles_pointwise(tiles, size, state, unit_type, origin, rest);
        assert(0 <= tile_index(size, reached[reached.len() - 1]) < tiles.len());
    }
}

/// Looking at the same tiles again from the same place changes nothing.
pub proof fn lemma_repeated_look_changes_nothing(
    tiles: Seq<TileVisibility>,
    size: Size2,
    state: InternalState,
    unit_type: UnitType,
    origin: MapPos,
    reached: Seq<MapPos>,
)
    requires
        forall|k: int| 0 <= k < reached.len() ==> 0 <= #[trigger] tile_index(size, reached[k]) < tiles.len(),
    ensures
        raise_tiles(raise_tiles(tiles, size, state, unit_type, origin, reached), size, state, unit_type, origin, reached)
            == raise_tiles(tiles, size, state, unit_type, origin, reached),
{
    let once = raise_tiles(tiles, size, state, unit_type, origin, reached);
    lemma_raise_tiles_pointwise(tiles, size, state, unit_type, origin, reached);
    lemma_raise_tiles_pointwise(once, size, state, unit_type, origin, reached);
    assert(raise_tiles(once, size, state, unit_type, origin, reached) =~= once);
}

/// Two looks give the same view of every tile in either order: the fog
/// depends on which looks happened, not on their order.
pub proof fn lemma_looks_commute(
    tiles: Seq<TileVisibility>,
    size: Size2,
    state: InternalState,
    first_type: UnitType,
    first_origin: MapPos,
    first_reached: Seq<MapPos>,
    second_type: UnitType,
    second_origin: MapPos,
    second_reached: Seq<MapPos>,
)
    requires
        forall|k: int|
            0 <= k < first_reached.len() ==> 0 <= #[trigger] tile_index(size, first_reached[k]) < tiles.len(),
        forall|k: int|
            0 <= k < second_reached.len() ==> 0 <= #[trigger] tile_index(size, second_reached[k]) < tiles.len(),
    ensures
        raise_tiles(
            raise_tiles(tiles, size, state, first_type, first_origin, first_reached),
            size,
            state,
            second_type,
            second_origin,
            second_reached,
        ) == raise_tiles(
            raise_tiles(tiles, size, state, second_type, second_origin, second_reached),
            size,
            state,
            first_type,
            first_origin,
            first_reached,
        ),
{
    let a = raise_tiles(tiles, size, state, first_type, first_origin, first_reached);
    let b = raise_tiles(tiles, size, state, second_type, second_origin, second_reached);
    lemma_raise_tiles_pointwise(tiles, size, state, first_type, first_origin, first_reached);
    lemma_raise_tiles_pointwise(tiles, size, state, second_type, second_origin, second_reached);
    lemma_raise_tiles_pointwise(a, size, state, second_type, second_origin, second_reached);
    lemma_raise_tiles_pointwise(b, size, state, first_type, first_origin, first_reached);
    let ab = raise_tiles(a, size, state, second_type, second_origin, second_reached);
    let ba = raise_tiles(b, size, state, first_type, first_origin, first_reached);
    assert forall|i: int| 0 <= i < tiles.len() implies ab[i] == ba[i] by {
        let l1 = look_at_place(TileVisibility::No, size, state, first_type, first_origin, first_reached, i);
        let l2 = look_at_place(TileVisibility::No, size, state, second_type, second_origin, second_reached, i);
        assert(ab[i] == better(better(tiles[i], l1), l2));
        assert(ba[i] == better(better(tiles[i], l2), l1));
    }
    assert(ab =~= ba);
}

/// Every unit's look keeps or raises the visibility of each tile.
pub proof fn lemma_raise_all_monotone(
    tiles: Seq<TileVisibility>,
    size: Size2,
    state: InternalState,
    db: Db,
    needs: Seq<(Unit, MapPos)>,
    reached: Seq<Seq<MapPos>>,
)
    requires
        needs.len() <= reached.len(),
        forall|k: int, l: int|
            0 <= k < needs.len() && 0 <= l < reached[k].len() ==> 0 <= #[trigger] tile_index(size, reached[k][l])
                < tiles.len(),
    ensures
        raise_all(tiles, size, state, db, needs, reached).len() == tiles.len(),
        forall|i: int|
            0 <= i < tiles.len() ==> rank(#[trigger] raise_all(tiles, size, state, db, needs, reached)[i])
                >= rank(tiles[i]),
    decreases needs.len(),
{
    if needs.len() > 0 {
        let k = needs.len() - 1;
        let rest = needs.drop_last();
        lemma_raise_all_monotone(tiles, size, state, db, rest, reached);
        let mid = raise_all(tiles, size, state, db, rest, reached);
        assert forall|l: int| 0 <= l < reached[k].len() implies 0 <= #[trigger] tile_index(size, reached[k][l]) < mid.len() by {
            assert(0 <= tile_index(size, reached[k][l]) < tiles.len());
        }
        lemma_raise_tiles_monotone(mid, size, state, db.type_of(needs[k].0.type_id), needs[k].1, reached[k]);
    }
}

fn fov_unit_in_pos(
    db: &Db,
    state: &InternalState,
    map: &mut TileMap<TileVisibility>,
    unit: &Unit,
    origin: MapPos,
    reached: &Vec<MapPos>,
)
    requires
        unit.is_alive,
        db.has_type(unit.type_id),
        state.wf(),
        old(map).wf(),
        old(map).size_spec() == state.map_spec().size_spec(),
        forall|k: int| 0 <= k < reached@.len() ==> in_bounds(old(map).size_spec(), #[trigger] reached@[k]),
    ensures
        final(map).wf(),
        final(map).size_spec() == old(map).size_spec(),
        final(map).tiles_spec() == raise_tiles(
            old(map).tiles_spec(),
            old(map).size_spec(),
            *state,
            db.type_of(unit.type_id),
            origin,
            reached@,
        ),
{
    let unit_type = db.unit_type(unit.type_id);
    let n = reached.len();
    let mut i: usize = 0;
    assert(reached@.take(0) =~= Seq::<MapPos>::empty());
    while i < n
        invariant
            n == reached@.len(),
            i <= n,
            *unit_type == db.type_of(unit.type_id),
            state.wf(),
            map.wf(),
            map.size_spec() == old(map).size_spec(),
            map.size_spec() == state.map_spec().size_spec(),
            forall|k: int| 0 <= k < reached@.len() ==> in_bounds(old(map).size_spec(), #[trigger] reached@[k]),
            map.tiles_spec() == raise_tiles(
                old(map).tiles_spec(),
                old(map).size_spec(),
                *state,
                *unit_type,
                origin,
                reached@.take(i as int),
            ),
        decreases n - i,
    {
        let pos = reached[i];
        assert(in_bounds(old(map).size_spec(), reached@[i as int]));
        let vis = calc_visibility(state, unit_type, origin, pos);
        if vis.is_better_than(*map.tile(pos)) {
            map.set_tile(pos, vis);
        }
        assert(reached@.take(i + 1).drop_last() =~= reached@.take(i as int));
        i = i + 1;
    }
    assert(reached@.take(n as int) =~= reached@);
}

fn fov_unit(
    db: &Db,
    state: &InternalState,
    map: &mut TileMap<TileVisibility>,
    unit: &Unit,
    reached: &Vec<MapPos>,
)
    requires
        unit.is_alive,
        db.has_type(unit.type_id),
        state.wf(),
        old(map).wf(),
        old(map).size_spec() == state.map_spec().size_spec(),
        forall|k: int| 0 <= k < reached@.len() ==> in_bounds(old(map).size_spec(), #[trigger] reached@[k]),
    ensures
        final(map).wf(),
        final(map).size_spec() == old(map).size_spec(),
        final(map).tiles_spec() == raise_tiles(
            old(map).tiles_spec(),
            old(map).size_spec(),
            *state,
            db.type_of(unit.type_id),
            unit.pos.map_pos,
            reached@,
        ),
{
    fov_unit_in_pos(db, state, map, unit, unit.pos.map_pos, reached);
}

impl Fow {
    /// The units whose line of sight `event` makes the player look along,
    /// each with the tile it looks from.
    pub open spec fn sight_needs(&self, state: InternalState, event: CoreEvent) -> Seq<(Unit, MapPos)> {
        match event {
            CoreEvent::Move { unit_id, to, .. } => {
                let u = state.unit_spec(unit_id);
                if u.player_id == self.player_spec() {
                    seq![(u, to.map_pos)]
                } else {
                    Seq::empty()
                }
            },
            CoreEvent::EndTurn { new_id, .. } => {
                if self.player_spec() == new_id {
                    own_living_units(state.units_spec(), self.player_spec())
                } else {
                    Seq::empty()
                }
            },
            CoreEvent::CreateUnit { unit_info } => {
                if self.player_spec() == unit_info.player_id {
                    let u = state.unit_spec(unit_info.unit_id);
                    seq![(u, u.pos.map_pos)]
                } else {
                    Seq::empty()
                }
            },
            CoreEvent::UnloadUnit { unit_info, .. } => {
                if self.player_spec() == unit_info.player_id {
                    seq![(state.unit_spec(unit_info.unit_id), unit_info.pos.map_pos)]
                } else {
                    Seq::empty()
                }
            },
            _ => Seq::empty(),
        }
    }

    /// The units that `event` names, where the fog looks them up, are in the state.
    pub open spec fn event_units_known(&self, state: InternalState, event: CoreEvent) -> bool {
        match event {
            CoreEvent::Move { unit_id, .. } => state.has_unit(unit_id),
            CoreEvent::CreateUnit { unit_info } => state.has_unit(unit_info.unit_id),
            CoreEvent::AttackUnit { attack_info } => match attack_info.attacker_id {
                Some(a) => !attack_info.is_ambush ==> state.has_unit(a),
                None => true,
            },
            CoreEvent::UnloadUnit { unit_info, .. } => self.player_spec() == unit_info.player_id
                ==> state.has_unit(unit_info.unit_id),
            _ => true,
        }
    }

    /// `sights` holds, in order, one walk for each of the looks that `event`
    /// needs, from the right unit and tile, over tiles of the map; and every
    /// unit that looks is alive.
    pub open spec fn sights_fit(&self, state: InternalState, event: CoreEvent, sights: Seq<Sight>) -> bool {
        let needs = self.sight_needs(state, event);
        &&& sights.len() == needs.len()
        &&& forall|k: int|
            0 <= k < needs.len() ==> (#[trigger] sights[k]).unit_id == needs[k].0.id && sights[k].origin
                == needs[k].1 && needs[k].0.is_alive
        &&& forall|k: int, l: int|
            0 <= k < sights.len() && 0 <= l < sights[k].tiles@.len() ==> in_bounds(
                self.size(),
                #[trigger] sights[k].tiles@[l],
            )
    }

    /// Whether `event` starts the player's own turn.
    pub open spec fn starts_own_turn(&self, event: CoreEvent) -> bool {
        event matches CoreEvent::EndTurn { new_id, .. } && new_id == self.player_spec()
    }

    /// The visibility of every tile after `event`.
    pub open spec fn after_event(&self, state: InternalState, event: CoreEvent, sights: Seq<Sight>) -> Seq<TileVisibility> {
        let tiles = self.tiles();
        let needs = self.sight_needs(state, event);
        let reached = sight_tiles(sights);
        if self.starts_own_turn(event) {
            raise_all(
                Seq::new(tiles.len(), |i: int| TileVisibility::No),
                self.size(),
                state,
                self.db_spec(),
                needs,
                reached,
            )
        } else {
            match event {
                CoreEvent::AttackUnit { attack_info } => match attack_info.attacker_id {
                    Some(a) => if !attack_info.is_ambush {
                        tiles.update(
                            tile_index(self.size(), state.unit_spec(a).pos.map_pos),
                            TileVisibility::Excellent,
                        )
                    } else {
                        tiles
                    },
                    None => tiles,
                },
                _ => raise_all(tiles, self.size(), state, self.db_spec(), needs, reached),
            }
        }
    }

    /// The looks that `event` needs, in the order in which `apply_event`
    /// wants their walks: which unit looks, from which tile, how far, and
    /// whether it looks over every obstacle (an air unit) or along its line
    /// of sight.
    pub fn sight_requests(&self, state: &InternalState, event: &CoreEvent) -> (r: Vec<SightRequest>)
        requires
            self.fits(*state),
            self.event_units_known(*state, *event),
        ensures
            r@ == self.sight_needs(*state, *event).map_values(
                |n: (Unit, MapPos)| spec_sight_request(self.db_spec(), n.0, n.1),
            ),
    {
        let ghost needs = self.sight_needs(*state, *event);
        let ghost f = |n: (Unit, MapPos)| spec_sight_request(self.db_spec(), n.0, n.1);
        let mut r: Vec<SightRequest> = Vec::new();
        match *event {
            CoreEvent::Move { unit_id, to, .. } => {
                let unit = state.unit(unit_id);
                if unit.player_id == self.player_id {
                    proof {
                        state.lemma_unit_on_map(unit_id);
                        lemma_unit_type_known(self.db_spec(), state.units_spec(), *unit);
                    }
                    r.push(sight_request(&self.db, unit, to.map_pos));
                }
            },
            CoreEvent::EndTurn { new_id, .. } => {
                if self.player_id == new_id {
                    let units = state.units();
                    let n = units.len();
                    let mut i: usize = 0;
                    assert(units@.take(0) =~= Seq::<Unit>::empty());
                    while i < n
                        invariant
                            n == units@.len(),
                            units@ == state.units_spec(),
                            i <= n,
                            self.fits(*state),
                            f == (|n: (Unit, MapPos)| spec_sight_request(self.db_spec(), n.0, n.1)),
                            r@ == own_living_units(units@.take(i as int), self.player_spec()).map_values(f),
                        decreases n - i,
                    {
                        let ghost before = own_living_units(units@.take(i as int), self.player_spec());
                        assert(units@.take(i + 1).drop_last() =~= units@.take(i as int));
                        assert(units@.take(i + 1).last() == units@[i as int]);
                        if units[i].player_id == self.player_id && units[i].is_alive {
                            assert(self.db_spec().has_type(units@[i as int].type_id));
                            r.push(sight_request(&self.db, &units[i], units[i].pos.map_pos));
                            let ghost after = own_living_units(units@.take(i + 1), self.player_spec());
                            assert(after == before.push((units@[i as int], units@[i as int].pos.map_pos)));
                            assert(r@ =~= after.map_values(f));
                        }
                        i = i + 1;
                    }
                    assert(units@.take(n as int) =~= units@);
                }
            },
            CoreEvent::CreateUnit { unit_info } => {
                if self.player_id == unit_info.player_id {
                    let unit = state.unit(unit_info.unit_id);
                    proof {
                        state.lemma_unit_on_map(unit_info.unit_id);
                        lemma_unit_type_known(self.db_spec(), state.units_spec(), *unit);
                    }
                    r.push(sight_request(&self.db, unit, unit.pos.map_pos));
                }
            },
            CoreEvent::UnloadUnit { unit_info, .. } => {
                if self.player_id == unit_info.player_id {
                    let unit = state.unit(unit_info.unit_id);
                    proof {
                        state.lemma_unit_on_map(unit_info.unit_id);
                        lemma_unit_type_known(self.db_spec(), state.units_spec(), *unit);
                    }
                    r.push(sight_request(&self.db, unit, unit_info.pos.map_pos));
                }
            },
            _ => {},
        }
        assert(r@ =~= needs.map_values(f));
        r
    }

    fn clear(&mut self)
        requires
            old(self).wf(),
        ensures
            final(self).wf(),
            final(self).size() == old(self).size(),
            final(self).player_spec() == old(self).player_spec(),
            final(self).db_spec() == old(self).db_spec(),
            final(self).tiles() == Seq::new(old(self).tiles().len(), |i: int| TileVisibility::No),
    {
        self.map.fill(TileVisibility::No);
    }

    fn reset(&mut self, state: &InternalState, sights: &Vec<Sight>)
        requires
            old(self).fits(*state),
            sights@.len() == own_living_units(state.units_spec(), old(self).player_spec()).len(),
            forall|k: int, l: int|
                0 <= k < sights@.len() && 0 <= l < sights@[k].tiles@.len() ==> in_bounds(
                    old(self).size(),
                    #[trigger] sights@[k].tiles@[l],
                ),
        ensures
            final(self).wf(),
            final(self).size() == old(self).size(),
            final(self).player_spec() == old(self).player_spec(),
            final(self).db_spec() == old(self).db_spec(),
            final(self).tiles() == raise_all(
                Seq::new(old(self).tiles().len(), |i: int| TileVisibility::No),
                old(self).size(),
                *state,
                old(self).db_spec(),
                own_living_units(state.units_spec(), old(self).player_spec()),
                sight_tiles(sights@),
            ),
    {
        let ghost blank = Seq::new(old(self).tiles().len(), |i: int| TileVisibility::No);
        let ghost reached = sight_tiles(sights@);
        self.clear();
        let units = state.units();
        let n = units.len();
        let sn = sights.len();
        let mut i: usize = 0;
        let mut k: usize = 0;
        assert(units@.take(0) =~= Seq::<Unit>::empty());
        while i < n
            invariant
                n == units@.len(),
                sn == sights@.len(),
                units@ == state.units_spec(),
                i <= n,
                self.fits(*state),
                self.size() == old(self).size(),
                self.player_spec() == old(self).player_spec(),
                self.db_spec() == old(self).db_spec(),
                reached == sight_tiles(sights@),
                sights@.len() == own_living_units(state.units_spec(), old(self).player_spec()).len(),
                forall|a: int, b: int|
                    0 <= a < sights@.len() && 0 <= b < sights@[a].tiles@.len() ==> in_bounds(
                        old(self).size(),
                        #[trigger] sights@[a].tiles@[b],
                    ),
                k == own_living_units(units@.take(i as int), self.player_spec()).len(),
                self.tiles() == raise_all(
                    blank,
                    self.size(),
                    *state,
                    self.db_spec(),
                    own_living_units(units@.take(i as int), self.player_spec()),
                    reached,
                ),
            decreases n - i,
        {
            let ghost before = own_living_units(units@.take(i as int), self.player_spec());
            assert(units@.take(i + 1).drop_last() =~= units@.take(i as int));
            assert(units@.take(i + 1).last() == units@[i as int]);
            if units[i].player_id == self.player_id && units[i].is_alive {
                proof {
                    lemma_own_living_prefix(units@, self.player_spec(), i + 1, n as int);
                    assert(units@.take(n as int) =~= units@);
                    assert(reached[k as int] == sights@[k as int].tiles@);
                }
                let ghost after = own_living_units(units@.take(i + 1), self.player_spec());
                assert(after == before.push((units@[i as int], units@[i as int].pos.map_pos)));
                assert(after.drop_last() =~= before);
                assert(k < sights@.len());
                fov_unit(&self.db, state, &mut self.map, &units[i], &sights[k].tiles);
                k = k + 1;
            }
            i = i + 1;
        }
        assert(units@.take(n as int) =~= units@);
    }

    /// Updates what the player sees after `event`: the player's units that
    /// move, appear or are unloaded look along their line of sight (the
    /// walks in `sights`); when the player's own turn starts, the fog closes
    /// and each of the player's living units looks again; an attacker that
    /// does not ambush is seen perfectly on its tile. Nothing else changes.
    pub fn apply_event(&mut self, state: &InternalState, event: &CoreEvent, sights: &Vec<Sight>)
        requires
            old(self).fits(*state),
            old(self).event_units_known(*state, *event),
            old(self).sights_fit(*state, *event, sights@),
        ensures
            final(self).wf(),
            final(self).size() == old(self).size(),
            final(self).player_spec() == old(self).player_spec(),
            final(self).db_spec() == old(self).db_spec(),
            final(self).tiles() == old(self).after_event(*state, *event, sights@),
    {
        let ghost needs = self.sight_needs(*state, *event);
        let ghost reached = sight_tiles(sights@);
        match *event {
            CoreEvent::Move { unit_id, to, .. } => {
                let unit = state.unit(unit_id);
                proof { state.lemma_unit_on_map(unit_id); }
                if unit.player_id == self.player_id {
                    proof {
                        assert(needs.drop_last() =~= Seq::<(Unit, MapPos)>::empty());
                        assert(raise_all(self.tiles(), self.size(), *state, self.db_spec(), needs.drop_last(), reached)
                            == self.tiles());
                        assert(reached[0] == sights@[0].tiles@);
                        lemma_unit_type_known(self.db_spec(), state.units_spec(), *unit);
                    }
                    fov_unit_in_pos(&self.db, state, &mut self.map, unit, to.map_pos, &sights[0].tiles);
                }
            },
            CoreEvent::EndTurn { new_id, .. } => {
                if self.player_id == new_id {
                    self.reset(state, sights);
                }
            },
            CoreEvent::CreateUnit { unit_info } => {
                let unit = state.unit(unit_info.unit_id);
                proof { state.lemma_unit_on_map(unit_info.unit_id); }
                if self.player_id == unit_info.player_id {
                    proof {
                        assert(needs.drop_last() =~= Seq::<(Unit, MapPos)>::empty());
                        assert(raise_all(self.tiles(), self.size(), *state, self.db_spec(), needs.drop_last(), reached)
                            == self.tiles());
                        assert(reached[0] == sights@[0].tiles@);
                        lemma_unit_type_known(self.db_spec(), state.units_spec(), *unit);
                    }
                    fov_unit(&self.db, state, &mut self.map, unit, &sights[0].tiles);
                }
            },
            CoreEvent::AttackUnit { attack_info } => {
                if let Some(attacker_id) = attack_info.attacker_id {
                    if !attack_info.is_ambush {
                        let pos = state.unit(attacker_id).pos;
                        proof { state.lemma_unit_on_map(attacker_id); }
                        self.map.set_tile(pos.map_pos, TileVisibility::Excellent);
                    }
                }
            },
            CoreEvent::UnloadUnit { unit_info, .. } => {
                if self.player_id == unit_info.player_id {
                    let unit = state.unit(unit_info.unit_id);
                    proof {
                        state.lemma_unit_on_map(unit_info.unit_id);
                        assert(needs.drop_last() =~= Seq::<(Unit, MapPos)>::empty());
                        assert(raise_all(self.tiles(), self.size(), *state, self.db_spec(), needs.drop_last(), reached)
                            == self.tiles());
                        assert(reached[0] == sights@[0].tiles@);
                        lemma_unit_type_known(self.db_spec(), state.units_spec(), *unit);
                    }
                    fov_unit_in_pos(&self.db, state, &mut self.map, unit, unit_info.pos.map_pos, &sights[0].tiles);
                }
            },
            _ => {},
        }
    }
}

/// A unit of a state whose unit types are all known has a known type.
pub proof fn lemma_unit_type_known(db: Db, units: Seq<Unit>, unit: Unit)
    requires
        types_known(db, units),
        units.contains(unit),
    ensures
        db.has_type(unit.type_id),
{
    let i = choose|i: int| 0 <= i < units.len() && units[i] == unit;
    assert(db.has_type(units[i].type_id));
}

/// A fog through which everything is seen.
#[derive(Clone, Copy, PartialEq, Eq, Structural, Debug)]
pub struct FakeFow;

/// The fog through which everything is seen.
pub fn fake_fow() -> (r: &'static FakeFow)
    ensures
        *r == FakeFow,
{
    &FakeFow
}

/// Something that decides which units a player sees.
pub trait FogOfWar: Clone {
    /// When `is_visible` can be asked about `unit` standing on `pos`.
    spec fn can_ask_about(&self, state: InternalState, unit: Unit, pos: ExactPos) -> bool;

    /// Whether `unit` is seen when it stands on `pos`.
    spec fn sees_unit(&self, state: InternalState, unit: Unit, pos: ExactPos) -> bool;

    fn is_visible(&self, state: &InternalState, unit: &Unit, pos: ExactPos) -> (r: bool)
        requires
            self.can_ask_about(*state, *unit, pos),
        ensures
            r == self.sees_unit(*state, *unit, pos),
    ;
}

impl FogOfWar for FakeFow {
    open spec fn can_ask_about(&self, state: InternalState, unit: Unit, pos: ExactPos) -> bool {
        true
    }

    open spec fn sees_unit(&self, state: InternalState, unit: Unit, pos: ExactPos) -> bool {
        true
    }

    fn is_visible(&self, state: &InternalState, unit: &Unit, pos: ExactPos) -> (r: bool) {
        true
    }
}

impl FogOfWar for Fow {
    open spec fn can_ask_about(&self, state: InternalState, unit: Unit, pos: ExactPos) -> bool {
        self.can_ask(state, unit, pos)
    }

    open spec fn sees_unit(&self, state: InternalState, unit: Unit, pos: ExactPos) -> bool {
        self.sees(state, unit, pos)
    }

    fn is_visible(&self, state: &InternalState, unit: &Unit, pos: ExactPos) -> (r: bool) {
        Fow::is_visible(self, state, unit, pos)
    }
}

/// Every unit that `own_living_units` keeps belongs to `player` and is alive.
pub proof fn lemma_own_living_units_are_own(units: Seq<Unit>, player: PlayerId)
    ensures
        forall|k: int|
            0 <= k < own_living_units(units, player).len() ==> (#[trigger] own_living_units(units, player)[k]).0.player_id
                == player && own_living_units(units, player)[k].0.is_alive,
    decreases units.len(),
{
    if units.len() > 0 {
        lemma_own_living_units_are_own(units.drop_last(), player);
    }
}

} // verus!
