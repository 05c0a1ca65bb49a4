use vstd::prelude::*;
use crate::types::UnitId;
use crate::map::{Terrain, TileMap};
use crate::unit::Unit;
use crate::state::{InternalState, Object};
use crate::fow::{FogOfWar, fake_fow};

verus! {

/// The game state as the core sees it, through a fog that hides nothing.
#[derive(Clone, Debug)]
pub struct FullState {
    state: InternalState,
}

impl FullState {
    pub closed spec fn inner_spec(&self) -> InternalState {
        self.state
    }

    pub fn new(state: InternalState) -> (r: FullState)
        ensures
            r.inner_spec() == state,
    {
        FullState { state }
    }

    pub fn inner(&self) -> (r: &InternalState)
        ensures
            *r == self.inner_spec(),
    {
        &self.state
    }

    /// The units that this state shows: through its fog, every unit.
    pub fn units(&self) -> (r: Vec<Unit>)
        ensures
            r@ == self.inner_spec().units_spec(),
    {
        let fow = fake_fow();
        let units = self.state.units();
        let n = units.len();
        let mut r: Vec<Unit> = Vec::new();
        let mut i: usize = 0;
        while i < n
            invariant
                n == units@.len(),
                i <= n,
                *fow == crate::fow::FakeFow,
                r@ == units@.take(i as int),
            decreases n - i,
        {
            if fow.is_visible(&self.state, &units[i], units[i].pos) {
                r.push(units[i]);
            }
            assert(r@ =~= units@.take(i + 1));
            i = i + 1;
        }
        assert(units@.take(n as int) =~= units@);
        r
    }

    pub fn unit_opt(&self, id: UnitId) -> (r: Option<&Unit>)
        requires
            self.inner_spec().wf(),
        ensures
            r is Some <==> self.inner_spec().has_unit(id),
            r matches Some(u) ==> *u == self.inner_spec().unit_spec(id),
    {
        self.state.unit_opt(id)
    }

    pub fn objects(&self) -> (r: &Vec<Object>)
        ensures
            r@ == self.inner_spec().objects_spec(),
    {
        self.state.objects()
    }

    pub fn map(&self) -> (r: &TileMap<Terrain>)
        ensures
            *r == self.inner_spec().map_spec(),
    {
        self.state.map()
    }
}

} // verus!
