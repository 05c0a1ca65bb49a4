use vstd::prelude::*;
use crate::types::{MapPos, Size2};

verus! {

/// The ground of a tile.
#[derive(Clone, Copy, PartialEq, Eq, Structural, Debug)]
pub enum Terrain {
    City,
    Trees,
    Plain,
    Water,
}

/// A rectangular grid holding one value per tile, row after row.
#[derive(Clone, Debug)]
pub struct TileMap<T> {
    size: Size2,
    tiles: Vec<T>,
}

/// Whether `pos` lies on a map of the given size.
pub open spec fn in_bounds(size: Size2, pos: MapPos) -> bool {
    0 <= pos.x < size.w && 0 <= pos.y < size.h
}

/// Where the tile `pos` is kept in the row-after-row order.
pub open spec fn tile_index(size: Size2, pos: MapPos) -> int {
    pos.x + pos.y * size.w
}

pub proof fn lemma_index_in_range(size: Size2, pos: MapPos)
    requires
        in_bounds(size, pos),
    ensures
        0 <= tile_index(size, pos) < (size.w as int) * (size.h as int),
{
    assert(0 <= (pos.y as int) * (size.w as int)) by (nonlinear_arith)
        requires
            0 <= pos.y,
            0 <= size.w,
    ;
    assert((pos.y as int) * (size.w as int) + (pos.x as int) < (size.w as int) * (size.h as int))
        by (nonlinear_arith)
        requires
            0 <= pos.x < size.w,
            0 <= pos.y < size.h,
    ;
}

/// Two tiles of one map are kept at one place only if they are the same tile.
pub proof fn lemma_index_injective(size: Size2, a: MapPos, b: MapPos)
    requires
        in_bounds(size, a),
        in_bounds(size, b),
        tile_index(size, a) == tile_index(size, b),
    ensures
        a == b,
{
    assert(a.y == b.y) by (nonlinear_arith)
        requires
            0 <= a.x < size.w,
            0 <= b.x < size.w,
            a.x + a.y * size.w == b.x + b.y * size.w,
    ;
}

impl<T> TileMap<T> {
    pub closed spec fn size_spec(&self) -> Size2 {
        self.size
    }

    /// The tiles, row after row.
    pub closed spec fn tiles_spec(&self) -> Seq<T> {
        self.tiles@
    }

    /// The size is not negative and every tile holds one value.
    pub open spec fn wf(&self) -> bool {
        &&& self.size_spec().w >= 0
        &&& self.size_spec().h >= 0
        &&& self.tiles_spec().len() == (self.size_spec().w as int) * (self.size_spec().h as int)
    }

    pub open spec fn contains(&self, pos: MapPos) -> bool {
        in_bounds(self.size_spec(), pos)
    }

    /// The value of the tile `pos`.
    pub open spec fn at(&self, pos: MapPos) -> T {
        self.tiles_spec()[tile_index(self.size_spec(), pos)]
    }

    /// A map of the given size whose tiles are given row after row;
    /// `None` where the number of tiles does not fit the size.
    pub fn from_tiles(size: Size2, tiles: Vec<T>) -> (r: Option<TileMap<T>>)
        ensures
            r is Some <==> (size.w >= 0 && size.h >= 0 && tiles@.len() == (size.w as int) * (size.h as int)),
            r matches Some(m) ==> m.wf() && m.size_spec() == size && m.tiles_spec() == tiles@,
    {
        if size.w < 0 || size.h < 0 {
            return None;
        }
        assert((size.w as int) * (size.h as int) <= 0x7fff_ffff * 0x7fff_ffff) by (nonlinear_arith)
            requires
                0 <= size.w <= 0x7fff_ffff,
                0 <= size.h <= 0x7fff_ffff,
        ;
        let cells: u64 = (size.w as u64) * (size.h as u64);
        if tiles.len() as u64 != cells {
            return None;
        }
        Some(TileMap { size, tiles })
    }

    pub fn size(&self) -> (r: Size2)
        ensures
            r == self.size_spec(),
    {
        self.size
    }

    pub fn is_inboard(&self, pos: MapPos) -> (r: bool)
        ensures
            r == self.contains(pos),
    {
        0 <= pos.x && pos.x < self.size.w && 0 <= pos.y && pos.y < self.size.h
    }

    fn index_of(&self, pos: MapPos) -> (i: usize)
        requires
            self.wf(),
            self.contains(pos),
        ensures
            i == tile_index(self.size_spec(), pos),
            i < self.tiles_spec().len(),
    {
        proof {
            lemma_index_in_range(self.size, pos);
        }
        let n = self.tiles.len();
        let w = self.size.w as usize;
        let y = pos.y as usize;
        let x = pos.x as usize;
        assert((y as int) * (w as int) < n) by {
            assert((y as int) * (w as int) == (pos.y as int) * (self.size.w as int));
        }
        let row: usize = y * w;
        row + x
    }

    /// The value of the tile `pos`.
    pub fn tile(&self, pos: MapPos) -> (r: &T)
        requires
            self.wf(),
            self.contains(pos),
        ensures
            *r == self.at(pos),
    {
        let i = self.index_of(pos);
        &self.tiles[i]
    }

    /// Gives the tile `pos` the value `value`; every other tile keeps its own.
    pub fn set_tile(&mut self, pos: MapPos, value: T)
        requires
            old(self).wf(),
            old(self).contains(pos),
        ensures
            final(self).wf(),
            final(self).size_spec() == old(self).size_spec(),
            final(self).tiles_spec() == old(self).tiles_spec().update(
                tile_index(old(self).size_spec(), pos),
                value,
            ),
    {
        let i = self.index_of(pos);
        self.tiles.set(i, value);
    }
}

impl<T: Copy> TileMap<T> {
    /// A map of the given size with `value` on every tile.
    pub fn filled(size: Size2, value: T) -> (r: TileMap<T>)
        requires
            size.w >= 0,
            size.h >= 0,
            (size.w as int) * (size.h as int) <= usize::MAX,
        ensures
            r.wf(),
            r.size_spec() == size,
            r.tiles_spec() == Seq::new(((size.w as int) * (size.h as int)) as nat, |i: int| value),
    {
        let cells: usize = (size.w as usize) * (size.h as usize);
        let mut tiles: Vec<T> = Vec::new();
        let mut i: usize = 0;
        while i < cells
            invariant
                i <= cells,
                tiles@ == Seq::new(i as nat, |k: int| value),
            decreases cells - i,
        {
            tiles.push(value);
            i = i + 1;
        }
        TileMap { size, tiles }
    }
}

impl<T: Copy> TileMap<T> {
    /// Gives every tile the value `value`.
    pub fn fill(&mut self, value: T)
        requires
            old(self).wf(),
        ensures
            final(self).wf(),
            final(self).size_spec() == old(self).size_spec(),
            final(self).tiles_spec() == Seq::new(old(self).tiles_spec().len(), |i: int| value),
    {
        let n = self.tiles.len();
        let mut i: usize = 0;
        while i < n
            invariant
                n == self.tiles@.len(),
                i <= n,
                self.size == old(self).size,
                self.tiles@.len() == old(self).tiles@.len(),
                forall|k: int| 0 <= k < i ==> self.tiles@[k] == value,
            decreases n - i,
        {
            self.tiles.set(i, value);
            i = i + 1;
        }
        assert(self.tiles@ =~= Seq::new(old(self).tiles@.len(), |k: int| value));
    }
}

} // verus!
