use vstd::prelude::*;
use crate::types::{ExactPos, MapPos, UnitId};
use crate::map::{Terrain, TileMap};
use crate::unit::Unit;

verus! {

/// What lies on a tile besides its terrain.
#[derive(Clone, Copy, PartialEq, Eq, Structural, Debug)]
pub enum ObjectClass {
    Building,
    Road,
    Smoke,
    ReinforcementSector,
}

#[derive(Clone, Copy, PartialEq, Eq, Structural, Debug)]
pub struct Object {
    pub pos: ExactPos,
    pub class: ObjectClass,
}

/// The whole truth of the game as the core keeps it: the terrain, the units
/// and the objects on the map.
#[derive(Clone, Debug)]
pub struct InternalState {
    map: TileMap<Terrain>,
    units: Vec<Unit>,
    objects: Vec<Object>,
}

/// No two units share an id.
pub open spec fn ids_unique(units: Seq<Unit>) -> bool {
    forall|i: int, j: int|
        0 <= i < units.len() && 0 <= j < units.len() && #[trigger] units[i].id == #[trigger] units[j].id
            ==> i == j
}

impl InternalState {
    pub closed spec fn map_spec(&self) -> TileMap<Terrain> {
        self.map
    }

    pub closed spec fn units_spec(&self) -> Seq<Unit> {
        self.units@
    }

    pub closed spec fn objects_spec(&self) -> Seq<Object> {
        self.objects@
    }

    /// The terrain map is well formed, every unit stands on it, and no two
    /// units share an id.
    pub open spec fn wf(&self) -> bool {
        &&& self.map_spec().wf()
        &&& forall|i: int|
            0 <= i < self.units_spec().len() ==> self.map_spec().contains(
                #[trigger] self.units_spec()[i].pos.map_pos,
            )
        &&& ids_unique(self.units_spec())
    }

    pub open spec fn has_unit(&self, id: UnitId) -> bool {
        exists|i: int| 0 <= i < self.units_spec().len() && #[trigger] self.units_spec()[i].id == id
    }

    /// The unit with the given id.
    pub open spec fn unit_spec(&self, id: UnitId) -> Unit {
        self.units_spec()[choose|i: int|
            0 <= i < self.units_spec().len() && #[trigger] self.units_spec()[i].id == id]
    }

    /// A state from its parts; `None` where a unit stands off the map or
    /// two units share an id.
    pub fn from_parts(map: TileMap<Terrain>, units: Vec<Unit>, objects: Vec<Object>) -> (r: Option<InternalState>)
        requires
            map.wf(),
        ensures
            r is Some <==> (
                (forall|i: int| 0 <= i < units@.len() ==> map.contains(#[trigger] units@[i].pos.map_pos))
                && ids_unique(units@)),
            r matches Some(s) ==> s.wf() && s.map_spec() == map && s.units_spec() == units@
                && s.objects_spec() == objects@,
    {
        let n = units.len();
        let mut i: usize = 0;
        while i < n
            invariant
                n == units@.len(),
                i <= n,
                forall|k: int| 0 <= k < i ==> map.contains(#[trigger] units@[k].pos.map_pos),
                forall|k: int, l: int|
                    0 <= k < i && 0 <= l < n && k != l ==> #[trigger] units@[k].id != #[trigger] units@[l].id,
            decreases n - i,
        {
            if !map.is_inboard(units[i].pos.map_pos) {
                return None;
            }
            let mut j: usize = 0;
            while j < n
                invariant
                    n == units@.len(),
                    i < n,
                    j <= n,
                    forall|l: int| 0 <= l < j && l != i ==> units@[i as int].id != #[trigger] units@[l].id,
                decreases n - j,
            {
                if j != i && units[j].id == units[i].id {
                    return None;
                }
                j = j + 1;
            }
            i = i + 1;
        }
        Some(InternalState { map, units, objects })
    }

    pub fn map(&self) -> (r: &TileMap<Terrain>)
        ensures
            *r == self.map_spec(),
    {
        &self.map
    }

    pub fn units(&self) -> (r: &Vec<Unit>)
        ensures
            r@ == self.units_spec(),
    {
        &self.units
    }

    pub fn objects(&self) -> (r: &Vec<Object>)
        ensures
            r@ == self.objects_spec(),
    {
        &self.objects
    }

    /// The unit with the given id, if there is one.
    pub fn unit_opt(&self, id: UnitId) -> (r: Option<&Unit>)
        requires
            self.wf(),
        ensures
            r is Some <==> self.has_unit(id),
            r matches Some(u) ==> *u == self.unit_spec(id),
    {
        let n = self.units.len();
        let mut i: usize = 0;
        while i < n
            invariant
                self.wf(),
                n == self.units_spec().len(),
                i <= n,
                forall|k: int| 0 <= k < i ==> #[trigger] self.units_spec()[k].id != id,
            decreases n - i,
        {
            if self.units[i].id == id {
                proof {
                    let c = choose|k: int| 0 <= k < self.units_spec().len() && #[trigger] self.units_spec()[k].id == id;
                    assert(self.units_spec()[c].id == self.units_spec()[i as int].id);
                    assert(c == i as int);
                }
                return Some(&self.units[i]);
            }
            i = i + 1;
        }
        None
    }

    /// The unit with the given id.
    pub fn unit(&self, id: UnitId) -> (r: &Unit)
        requires
            self.wf(),
            self.has_unit(id),
        ensures
            *r == self.unit_spec(id),
    {
        match self.unit_opt(id) {
            Some(u) => u,
            None => {
                proof { assert(false); }
                &self.units[0]
            }
        }
    }

    /// The unit with the given id stands on the map.
    pub proof fn lemma_unit_on_map(&self, id: UnitId)
        requires
            self.wf(),
            self.has_unit(id),
        ensures
            self.map_spec().contains(self.unit_spec(id).pos.map_pos),
            self.units_spec().contains(self.unit_spec(id)),
    {
        let c = choose|k: int| 0 <= k < self.units_spec().len() && #[trigger] self.units_spec()[k].id == id;
        assert(self.map_spec().contains(self.units_spec()[c].pos.map_pos));
    }
}

} // verus!
