use vstd::prelude::*;

verus! {

/// A tile's column and row in its tile map.
#[derive(Clone, Copy, Debug, PartialEq, Eq, Structural, Hash, Default)]
pub struct TilePos {
    pub x: u32,
    pub y: u32,
}

/// The number of columns and rows of a tile map.
#[derive(Clone, Copy, Debug, PartialEq, Eq, Structural, Hash, Default)]
pub struct TilemapSize {
    pub x: u32,
    pub y: u32,
}

/// Which image of the tile sheet a tile shows.
#[derive(Clone, Copy, Debug, PartialEq, Eq, Structural, Hash, Default)]
pub struct TileTextureIndex(pub u32);

/// Mirroring of a tile's image: horizontal, vertical and diagonal.
#[derive(Clone, Copy, Debug, PartialEq, Eq, Structural, Hash, Default)]
pub struct TileFlip {
    pub x: bool,
    pub y: bool,
    pub d: bool,
}

/// `pos` lies inside a map of the given size.
pub open spec fn within_bounds(pos: TilePos, size: TilemapSize) -> bool {
    pos.x < size.x && pos.y < size.y
}

/// Row-major storage index of `pos` in a map of the given size.
pub open spec fn tile_index(pos: TilePos, size: TilemapSize) -> int {
    pos.y * size.x + pos.x
}

/// The position one step from `pos` by `(dx, dy)`, where it lies in a map of
/// the given size.
pub open spec fn spec_neighbor(pos: TilePos, dx: int, dy: int, size: TilemapSize) -> Option<TilePos> {
    let x = pos.x + dx;
    let y = pos.y + dy;
    if 0 <= x < size.x && 0 <= y < size.y {
        Some(TilePos { x: x as u32, y: y as u32 })
    } else {
        None
    }
}

/// The neighbour of `pos` in direction `(dx, dy)`, each of them -1, 0 or 1.
pub fn neighbor(pos: &TilePos, dx: i64, dy: i64, size: &TilemapSize) -> (r: Option<TilePos>)
    requires
        -1 <= dx <= 1,
        -1 <= dy <= 1,
    ensures
        r == spec_neighbor(*pos, dx as int, dy as int, *size),
{
    let x = pos.x as i64 + dx;
    let y = pos.y as i64 + dy;
    if 0 <= x && x < size.x as i64 && 0 <= y && y < size.y as i64 {
        Some(TilePos { x: x as u32, y: y as u32 })
    } else {
        None
    }
}

/// The position `(x, y)` when it lies inside the map.
pub open spec fn spec_from_i32_pair(x: i32, y: i32, size: TilemapSize) -> Option<TilePos> {
    if 0 <= x < size.x && 0 <= y < size.y {
        Some(TilePos { x: x as u32, y: y as u32 })
    } else {
        None
    }
}

impl TilePos {
    pub fn new(x: u32, y: u32) -> (r: Self)
        ensures
            r.x == x,
            r.y == y,
    {
        TilePos { x, y }
    }

    /// The position `(x, y)` if it lies inside a map of the given size.
    pub fn from_i32_pair(x: i32, y: i32, size: &TilemapSize) -> (r: Option<TilePos>)
        ensures
            r == spec_from_i32_pair(x, y, *size),
    {
        if 0 <= x && 0 <= y && (x as u32) < size.x && (y as u32) < size.y {
            Some(TilePos { x: x as u32, y: y as u32 })
        } else {
            None
        }
    }

    pub fn within_map_bounds(&self, size: &TilemapSize) -> (r: bool)
        ensures
            r == within_bounds(*self, *size),
    {
        self.x < size.x && self.y < size.y
    }
}

/// The entities placed on a tile map, one optional entity per position.
pub struct TileStorage {
    tiles: Vec<Option<u64>>,
    size: TilemapSize,
}

impl TileStorage {
    /// The stored entities, row by row.
    pub closed spec fn slots(&self) -> Seq<Option<u64>> {
        self.tiles@
    }

    /// The map size the storage was made for.
    pub closed spec fn map_size(&self) -> TilemapSize {
        self.size
    }

    /// The storage has exactly one slot per position of its map.
    pub open spec fn well_formed(&self) -> bool {
        self.slots().len() == self.map_size().x * self.map_size().y
    }

    /// The entity at `pos`, if `pos` lies in the map and holds one.
    pub open spec fn entity_at(&self, pos: TilePos) -> Option<u64> {
        if within_bounds(pos, self.map_size()) {
            self.slots()[tile_index(pos, self.map_size())]
        } else {
            None
        }
    }

    pub fn empty(size: TilemapSize) -> (r: Self)
        requires
            size.x * size.y <= usize::MAX,
        ensures
            r.map_size() == size,
            r.well_formed(),
            r.slots() == Seq::new((size.x * size.y) as nat, |k: int| None::<u64>),
            forall|p: TilePos| #[trigger] r.entity_at(p) is None,
    {
        let n: usize = (size.x as usize) * (size.y as usize);
        let tiles: Vec<Option<u64>> = vec![None; n];
        let r = TileStorage { tiles, size };
        assert(r.slots() =~= Seq::new((size.x * size.y) as nat, |k: int| None::<u64>));
        assert forall|p: TilePos| #[trigger] r.entity_at(p) is None by {
            if within_bounds(p, size) {
                lemma_tile_index_in_range(p, size);
            }
        }
        r
    }

    pub fn size(&self) -> (r: TilemapSize)
        ensures
            r == self.map_size(),
    {
        self.size
    }

    fn index_of(&self, pos: &TilePos) -> (r: usize)
        requires
            self.well_formed(),
            within_bounds(*pos, self.map_size()),
        ensures
            r == tile_index(*pos, self.map_size()),
            r < self.slots().len(),
    {
        proof {
            lemma_tile_index_in_range(*pos, self.size);
            assert(pos.y * self.size.x <= tile_index(*pos, self.size));
        }
        let n = self.tiles.len();
        let row = pos.y as usize;
        let width = self.size.x as usize;
        let col = pos.x as usize;
        assert(row * width == pos.y * self.size.x);
        row * width + col
    }

    pub fn get(&self, pos: &TilePos) -> (r: Option<u64>)
        requires
            self.well_formed(),
        ensures
            r == self.entity_at(*pos),
    {
        if pos.within_map_bounds(&self.size) {
            let i = self.index_of(pos);
            self.tiles[i]
        } else {
            None
        }
    }

    /// Places `entity` at `pos`; positions outside the map are ignored.
    pub fn set(&mut self, pos: &TilePos, entity: u64)
        requires
            old(self).well_formed(),
        ensures
            final(self).well_formed(),
            final(self).map_size() == old(self).map_size(),
            within_bounds(*pos, old(self).map_size()) ==> final(self).slots() == old(self).slots().update(
                tile_index(*pos, old(self).map_size()),
                Some(entity),
            ),
            !within_bounds(*pos, old(self).map_size()) ==> final(self).slots() == old(self).slots(),
    {
        if pos.within_map_bounds(&self.size) {
            let i = self.index_of(pos);
            self.tiles.set(i, Some(entity));
        }
    }

    /// Clears `pos`; positions outside the map are ignored.
    pub fn remove(&mut self, pos: &TilePos)
        requires
            old(self).well_formed(),
        ensures
            final(self).well_formed(),
            final(self).map_size() == old(self).map_size(),
            within_bounds(*pos, old(self).map_size()) ==> final(self).slots() == old(self).slots().update(
                tile_index(*pos, old(self).map_size()),
                None,
            ),
            !within_bounds(*pos, old(self).map_size()) ==> final(self).slots() == old(self).slots(),
    {
        if pos.within_map_bounds(&self.size) {
            let i = self.index_of(pos);
            self.tiles.set(i, None);
        }
    }

    /// All slots, row by row.
    pub fn iter(&self) -> (r: &Vec<Option<u64>>)
        ensures
            r@ == self.slots(),
    {
        &self.tiles
    }
}

/// In-map positions have distinct storage indices inside the storage.
pub proof fn lemma_tile_index_in_range(pos: TilePos, size: TilemapSize)
    requires
        within_bounds(pos, size),
    ensures
        0 <= tile_index(pos, size) < size.x * size.y,
{
    assert(pos.y * size.x + pos.x < size.x * size.y) by (nonlinear_arith)
        requires pos.x < size.x, pos.y < size.y;
}

/// Two different in-map positions never share a storage slot.
pub proof fn lemma_tile_index_injective(p: TilePos, q: TilePos, size: TilemapSize)
    requires
        within_bounds(p, size),
        within_bounds(q, size),
        p != q,
    ensures
        tile_index(p, size) != tile_index(q, size),
{
    if p.y == q.y {
    } else if p.y < q.y {
        assert(p.y * size.x + p.x < q.y * size.x + q.x) by (nonlinear_arith)
            requires p.y < q.y, p.x < size.x;
    } else {
        assert(q.y * size.x + q.x < p.y * size.x + p.x) by (nonlinear_arith)
            requires q.y < p.y, q.x < size.x;
    }
}

/// Storing an entity makes it readable at that position and leaves every
/// other position as it was; removing clears exactly that position.
pub proof fn law_storage_set_then_get(s: TileStorage, pos: TilePos, e: u64, next: TileStorage, other: TilePos)
    requires
        s.well_formed(),
        next.map_size() == s.map_size(),
        within_bounds(pos, s.map_size()) ==> next.slots() == s.slots().update(tile_index(pos, s.map_size()), Some(e)),
        !within_bounds(pos, s.map_size()) ==> next.slots() == s.slots(),
        other != pos,
    ensures
        within_bounds(pos, s.map_size()) ==> next.entity_at(pos) == Some(e),
        next.entity_at(other) == s.entity_at(other),
{
    if within_bounds(pos, s.map_size()) {
        lemma_tile_index_in_range(pos, s.map_size());
        if within_bounds(other, s.map_size()) {
            lemma_tile_index_in_range(other, s.map_size());
            lemma_tile_index_injective(pos, other, s.map_size());
        }
    }
}

} // verus!
