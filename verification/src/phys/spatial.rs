use vstd::prelude::*;

use crate::collections::{cell_entities, cell_map_contents, CellMap};
use crate::math::IVec2;
use vstd::multiset::Multiset;

verus! {

/// An axis-aligned rectangle of positions, both corners inclusive.
#[derive(Clone, Copy, Debug, PartialEq, Eq, Structural)]
pub struct Aabr {
    pub min: IVec2,
    pub max: IVec2,
}

/// The cell coordinate of `v` in cells `2^lg` wide (arithmetic shift,
/// that is, rounding down).
pub open spec fn cell_coord(v: i32, lg: usize) -> i32 {
    v >> lg
}

/// The cell that position `p` falls in.
pub open spec fn cell_of(p: IVec2, lg: usize) -> (i32, i32) {
    (cell_coord(p.x, lg), cell_coord(p.y, lg))
}

/// The first cell coordinate a query scans: the area's lower bound moved
/// down by the radius, rounded down to a cell.
pub open spec fn query_lo(a: i32, radius: u32, lg: usize) -> i32 {
    cell_coord((a - (radius as i32)) as i32, lg)
}

/// The last cell coordinate a query scans: the area's upper bound moved up by
/// the radius, rounded up to a cell boundary.
pub open spec fn query_hi(b: i32, radius: u32, lg: usize) -> i32 {
    cell_coord((b + (radius as i32) + (1i32 << lg) - 1) as i32, lg)
}

/// The `i32` arithmetic of a query with the given radius does not overflow.
pub open spec fn query_fits(area: Aabr, radius: u32, lg: usize) -> bool {
    let r = radius as i32;
    &&& lg < 31
    &&& i32::MIN <= area.min.x - r <= i32::MAX
    &&& i32::MIN <= area.min.y - r <= i32::MAX
    &&& i32::MIN <= area.max.x + r <= i32::MAX
    &&& i32::MIN <= area.max.y + r <= i32::MAX
    &&& area.max.x + r + (1i32 << lg) <= i32::MAX
    &&& area.max.y + r + (1i32 << lg) <= i32::MAX
}

/// The entities of the cells of column `x`, rows `y0` to `y1`, in order.
pub open spec fn column_entities(m: Map<(i32, i32), Seq<u64>>, x: int, y0: int, y1: int) -> Seq<u64>
    decreases y1 - y0 + 1,
{
    if y1 < y0 {
        seq![]
    } else {
        column_entities(m, x, y0, y1 - 1) + cell_entities(m, (x as i32, y1 as i32))
    }
}

/// The entities of the cells of columns `x0` to `x1`, column by column.
pub open spec fn range_entities(m: Map<(i32, i32), Seq<u64>>, x0: int, x1: int, y0: int, y1: int) -> Seq<u64>
    decreases x1 - x0 + 1,
{
    if x1 < x0 {
        seq![]
    } else {
        range_entities(m, x0, x1 - 1, y0, y1) + column_entities(m, x1, y0, y1)
    }
}

/// The entities a query of `area` finds in one grid layer.
pub open spec fn layer_query(m: Map<(i32, i32), Seq<u64>>, area: Aabr, radius: u32, lg: usize) -> Seq<u64> {
    range_entities(
        m,
        query_lo(area.min.x, radius, lg) as int,
        query_hi(area.max.x, radius, lg) as int,
        query_lo(area.min.y, radius, lg) as int,
        query_hi(area.max.y, radius, lg) as int,
    )
}

/// A two-level spatial hash: entities up to a radius threshold go into fine
/// cells `2^LG_CELL_SZ` wide, larger ones into coarse cells.
pub struct SpatialGrid<const LG_CELL_SZ: usize, const LG_COARSE_CELL_SZ: usize> {
    grid: CellMap,
    coarse_grid: CellMap,
    coarse_radius_threshold: u32,
    maximum_radius: u32,
}

impl<const LG_CELL_SZ: usize, const LG_COARSE_CELL_SZ: usize> SpatialGrid<LG_CELL_SZ, LG_COARSE_CELL_SZ> {
    /// The fine cells and their entities.
    pub closed spec fn fine(&self) -> Map<(i32, i32), Seq<u64>> {
        cell_map_contents(self.grid)
    }

    /// The coarse cells and their entities.
    pub closed spec fn coarse(&self) -> Map<(i32, i32), Seq<u64>> {
        cell_map_contents(self.coarse_grid)
    }

    /// Entities with a radius up to this go into the fine cells.
    pub closed spec fn threshold(&self) -> u32 {
        self.coarse_radius_threshold
    }

    /// The largest radius of any coarse entity, and at least the threshold.
    pub closed spec fn max_radius(&self) -> u32 {
        self.maximum_radius
    }

    pub fn new(coarse_radius_threshold: u32) -> (g: Self)
        ensures
            g.fine() == Map::<(i32, i32), Seq<u64>>::empty(),
            g.coarse() == Map::<(i32, i32), Seq<u64>>::empty(),
            g.threshold() == coarse_radius_threshold,
            g.max_radius() == coarse_radius_threshold,
    {
        SpatialGrid {
            grid: CellMap::new(),
            coarse_grid: CellMap::new(),
            coarse_radius_threshold,
            maximum_radius: coarse_radius_threshold,
        }
    }

    /// Adds `entity` at `pos` to the fine cells if its radius is within the
    /// threshold, to the coarse cells otherwise.
    pub fn insert(&mut self, pos: IVec2, entity_radius: u32, entity: u64)
        requires
            LG_CELL_SZ < 32,
            LG_COARSE_CELL_SZ < 32,
        ensures
            final(self).threshold() == old(self).threshold(),
            entity_radius <= old(self).threshold() ==> {
                &&& final(self).fine() == old(self).fine().insert(
                    cell_of(pos, LG_CELL_SZ),
                    cell_entities(old(self).fine(), cell_of(pos, LG_CELL_SZ)).push(entity),
                )
                &&& final(self).coarse() == old(self).coarse()
                &&& final(self).max_radius() == old(self).max_radius()
            },
            entity_radius > old(self).threshold() ==> {
                &&& final(self).coarse() == old(self).coarse().insert(
                    cell_of(pos, LG_COARSE_CELL_SZ),
                    cell_entities(old(self).coarse(), cell_of(pos, LG_COARSE_CELL_SZ)).push(entity),
                )
                &&& final(self).fine() == old(self).fine()
                &&& final(self).max_radius() == (if old(self).max_radius() >= entity_radius {
                    old(self).max_radius()
                } else {
                    entity_radius
                })
            },
    {
        if entity_radius <= self.coarse_radius_threshold {
            let cell = (pos.x >> LG_CELL_SZ, pos.y >> LG_CELL_SZ);
            self.grid.push_at(cell, entity);
        } else {
            let cell = (pos.x >> LG_COARSE_CELL_SZ, pos.y >> LG_COARSE_CELL_SZ);
            self.coarse_grid.push_at(cell, entity);
            self.maximum_radius = if self.maximum_radius >= entity_radius {
                self.maximum_radius
            } else {
                entity_radius
            };
        }
    }

    /// Every entity stored in the fine cells that the area, grown by the
    /// threshold, touches, then every coarse entity in the coarse cells the
    /// area grown by the largest coarse radius touches.
    pub fn iter_area(&self, area: Aabr) -> (r: Vec<u64>)
        requires
            query_fits(area, self.threshold(), LG_CELL_SZ),
            query_fits(area, self.max_radius(), LG_COARSE_CELL_SZ),
        ensures
            r@ == layer_query(self.fine(), area, self.threshold(), LG_CELL_SZ) + layer_query(
                self.coarse(),
                area,
                self.max_radius(),
                LG_COARSE_CELL_SZ,
            ),
    {
        let mut out: Vec<u64> = Vec::new();
        collect_layer(&self.grid, area, self.coarse_radius_threshold, LG_CELL_SZ, &mut out);
        collect_layer(&self.coarse_grid, area, self.maximum_radius, LG_COARSE_CELL_SZ, &mut out);
        out
    }

    pub fn clear(&mut self)
        ensures
            final(self).fine() == Map::<(i32, i32), Seq<u64>>::empty(),
            final(self).coarse() == Map::<(i32, i32), Seq<u64>>::empty(),
            final(self).threshold() == old(self).threshold(),
            final(self).max_radius() == old(self).threshold(),
    {
        self.grid.clear();
        self.coarse_grid.clear();
        self.maximum_radius = self.coarse_radius_threshold;
    }
}

fn collect_layer(map: &CellMap, area: Aabr, radius: u32, lg: usize, out: &mut Vec<u64>)
    requires
        query_fits(area, radius, lg),
    ensures
        final(out)@ == old(out)@ + layer_query(cell_map_contents(*map), area, radius, lg),
{
    let m = Ghost(cell_map_contents(*map));
    let r = radius as i32;
    let step: i32 = 1i32 << lg;
    assert(step >= 1) by (bit_vector)
        requires step == 1i32 << lg, lg < 31;
    let min_x = (area.min.x - r) >> lg;
    let min_y = (area.min.y - r) >> lg;
    let max_x = (area.max.x + r + step - 1) >> lg;
    let max_y = (area.max.y + r + step - 1) >> lg;
    let ghost start = out@;
    let mut x: i64 = min_x as i64;
    while x <= max_x as i64
        invariant
            min_x as int <= x,
            x <= max_x as int + 1 || x == min_x,
            out@ == start + range_entities(m@, min_x as int, x - 1, min_y as int, max_y as int),
            m@ == cell_map_contents(*map),
        decreases max_x as int + 1 - x,
    {
        let ghost before = out@;
        let mut y: i64 = min_y as i64;
        while y <= max_y as i64
            invariant
                min_x as int <= x <= max_x as int,
                min_y as int <= y,
                y <= max_y as int + 1 || y == min_y,
                out@ == before + column_entities(m@, x as int, min_y as int, y - 1),
                m@ == cell_map_contents(*map),
            decreases max_y as int + 1 - y,
        {
            let cell = (x as i32, y as i32);
            match map.get(cell) {
                Some(entities) => {
                    let mut i: usize = 0;
                    let ghost mid = out@;
                    while i < entities.len()
                        invariant
                            i <= entities@.len(),
                            out@ == mid + entities@.take(i as int),
                        decreases entities@.len() - i,
                    {
                        out.push(entities[i]);
                        assert(out@ =~= mid + entities@.take(i + 1));
                        i = i + 1;
                    }
                    assert(entities@.take(i as int) =~= entities@);
                },
                None => {},
            }
            assert(out@ =~= before + column_entities(m@, x as int, min_y as int, y as int));
            y = y + 1;
        }
        assert(column_entities(m@, x as int, min_y as int, y - 1) == column_entities(m@, x as int, min_y as int, max_y as int));
        assert(out@ =~= start + range_entities(m@, min_x as int, x as int, min_y as int, max_y as int));
        x = x + 1;
    }
    assert(range_entities(m@, min_x as int, x - 1, min_y as int, max_y as int) == range_entities(m@, min_x as int, max_x as int, min_y as int, max_y as int));
}

proof fn lemma_shr_mono(a: i32, b: i32, lg: usize)
    requires
        a <= b,
        lg < 31,
    ensures
        (a >> lg) <= (b >> lg),
{
    assert((a >> lg) <= (b >> lg)) by (bit_vector)
        requires a <= b, lg < 31usize;
}

proof fn lemma_column_contains(m: Map<(i32, i32), Seq<u64>>, x: int, y0: int, y1: int, cy: i32, e: u64)
    requires
        y0 <= cy <= y1,
        cell_entities(m, (x as i32, cy)).contains(e),
    ensures
        column_entities(m, x, y0, y1).contains(e),
    decreases y1 - y0 + 1,
{
    let prev = column_entities(m, x, y0, y1 - 1);
    let last = cell_entities(m, (x as i32, y1 as i32));
    if cy == y1 {
        let k = choose|k: int| 0 <= k < last.len() && last[k] == e;
        assert((prev + last)[prev.len() + k] == e);
    } else {
        lemma_column_contains(m, x, y0, y1 - 1, cy, e);
        let k = choose|k: int| 0 <= k < prev.len() && prev[k] == e;
        assert((prev + last)[k] == e);
    }
}

proof fn lemma_range_contains(m: Map<(i32, i32), Seq<u64>>, x0: int, x1: int, y0: int, y1: int, cx: i32, cy: i32, e: u64)
    requires
        x0 <= cx <= x1,
        y0 <= cy <= y1,
        cell_entities(m, (cx, cy)).contains(e),
    ensures
        range_entities(m, x0, x1, y0, y1).contains(e),
    decreases x1 - x0 + 1,
{
    let prev = range_entities(m, x0, x1 - 1, y0, y1);
    let col = column_entities(m, x1, y0, y1);
    if cx == x1 {
        assert((x1 as i32) == cx);
        lemma_column_contains(m, x1, y0, y1, cy, e);
        let k = choose|k: int| 0 <= k < col.len() && col[k] == e;
        assert((prev + col)[prev.len() + k] == e);
    } else {
        lemma_range_contains(m, x0, x1 - 1, y0, y1, cx, cy, e);
        let k = choose|k: int| 0 <= k < prev.len() && prev[k] == e;
        assert((prev + col)[k] == e);
    }
}

/// `pos` lies in `area` grown by `r` on every side.
pub open spec fn near_area(area: Aabr, pos: IVec2, r: int) -> bool {
    &&& area.min.x - r <= pos.x <= area.max.x + r
    &&& area.min.y - r <= pos.y <= area.max.y + r
}

/// A layer query finds every entity stored in the cell of a position that
/// lies in the area grown by the query radius.
pub proof fn law_layer_query_complete(m: Map<(i32, i32), Seq<u64>>, area: Aabr, radius: u32, lg: usize, pos: IVec2, e: u64)
    requires
        query_fits(area, radius, lg),
        radius <= i32::MAX,
        near_area(area, pos, radius as int),
        cell_entities(m, cell_of(pos, lg)).contains(e),
    ensures
        layer_query(m, area, radius, lg).contains(e),
{
    let r = radius as i32;
    let step: i32 = 1i32 << lg;
    assert(step >= 1) by (bit_vector)
        requires step == 1i32 << lg, lg < 31;
    lemma_shr_mono((area.min.x - r) as i32, pos.x, lg);
    lemma_shr_mono((area.min.y - r) as i32, pos.y, lg);
    lemma_shr_mono(pos.x, (area.max.x + r + step - 1) as i32, lg);
    lemma_shr_mono(pos.y, (area.max.y + r + step - 1) as i32, lg);
    lemma_range_contains(
        m,
        query_lo(area.min.x, radius, lg) as int,
        query_hi(area.max.x, radius, lg) as int,
        query_lo(area.min.y, radius, lg) as int,
        query_hi(area.max.y, radius, lg) as int,
        cell_coord(pos.x, lg),
        cell_coord(pos.y, lg),
        e,
    );
}

/// After inserting an entity of radius `r` at `pos`, a query of any area that
/// the entity's reach touches (the area grown by `r` contains `pos`) returns it.
pub proof fn law_insert_then_query<const LG_CELL_SZ: usize, const LG_COARSE_CELL_SZ: usize>(
    g: SpatialGrid<LG_CELL_SZ, LG_COARSE_CELL_SZ>,
    pos: IVec2,
    entity_radius: u32,
    e: u64,
    next: SpatialGrid<LG_CELL_SZ, LG_COARSE_CELL_SZ>,
    area: Aabr,
)
    requires
        LG_CELL_SZ < 31,
        LG_COARSE_CELL_SZ < 31,
        next.threshold() == g.threshold(),
        entity_radius <= g.threshold() ==> {
            &&& next.fine() == g.fine().insert(
                cell_of(pos, LG_CELL_SZ),
                cell_entities(g.fine(), cell_of(pos, LG_CELL_SZ)).push(e),
            )
            &&& next.coarse() == g.coarse()
            &&& next.max_radius() == g.max_radius()
        },
        entity_radius > g.threshold() ==> {
            &&& next.coarse() == g.coarse().insert(
                cell_of(pos, LG_COARSE_CELL_SZ),
                cell_entities(g.coarse(), cell_of(pos, LG_COARSE_CELL_SZ)).push(e),
            )
            &&& next.fine() == g.fine()
            &&& next.max_radius() == (if g.max_radius() >= entity_radius { g.max_radius() } else { entity_radius })
        },
        query_fits(area, next.threshold(), LG_CELL_SZ),
        query_fits(area, next.max_radius(), LG_COARSE_CELL_SZ),
        next.threshold() <= i32::MAX,
        next.max_radius() <= i32::MAX,
        near_area(area, pos, entity_radius as int),
    ensures
        (layer_query(next.fine(), area, next.threshold(), LG_CELL_SZ) + layer_query(
            next.coarse(),
            area,
            next.max_radius(),
            LG_COARSE_CELL_SZ,
        )).contains(e),
{
    let fine = layer_query(next.fine(), area, next.threshold(), LG_CELL_SZ);
    let coarse = layer_query(next.coarse(), area, next.max_radius(), LG_COARSE_CELL_SZ);
    if entity_radius <= g.threshold() {
        let c = cell_entities(g.fine(), cell_of(pos, LG_CELL_SZ)).push(e);
        assert(c[c.len() - 1] == e);
        law_layer_query_complete(next.fine(), area, next.threshold(), LG_CELL_SZ, pos, e);
        let k = choose|k: int| 0 <= k < fine.len() && fine[k] == e;
        assert((fine + coarse)[k] == e);
    } else {
        let c = cell_entities(g.coarse(), cell_of(pos, LG_COARSE_CELL_SZ)).push(e);
        assert(c[c.len() - 1] == e);
        law_layer_query_complete(next.coarse(), area, next.max_radius(), LG_COARSE_CELL_SZ, pos, e);
        let k = choose|k: int| 0 <= k < coarse.len() && coarse[k] == e;
        assert((fine + coarse)[fine.len() + k] == e);
    }
}

/// The fine cells, the coarse cells and the largest coarse radius of a grid
/// with the given threshold after the inserts `ops` (position, radius,
/// entity), in order, into a new or cleared grid.
pub open spec fn grid_after(threshold: u32, lg_fine: usize, lg_coarse: usize, ops: Seq<(IVec2, u32, u64)>) -> (
    Map<(i32, i32), Seq<u64>>,
    Map<(i32, i32), Seq<u64>>,
    u32,
)
    decreases ops.len(),
{
    if ops.len() == 0 {
        (Map::empty(), Map::empty(), threshold)
    } else {
        let (f, c, mr) = grid_after(threshold, lg_fine, lg_coarse, ops.drop_last());
        let (p, r, e) = ops.last();
        if r <= threshold {
            let k = cell_of(p, lg_fine);
            (f.insert(k, cell_entities(f, k).push(e)), c, mr)
        } else {
            let k = cell_of(p, lg_coarse);
            (f, c.insert(k, cell_entities(c, k).push(e)), if mr >= r { mr } else { r })
        }
    }
}

/// The entities of the inserts `ops`, with their multiplicities.
pub open spec fn inserted_entities(ops: Seq<(IVec2, u32, u64)>) -> Multiset<u64> {
    ops.map_values(|o: (IVec2, u32, u64)| o.2).to_multiset()
}

/// Cell `c` lies in the block of cells `x0..=x1` by `y0..=y1`.
pub open spec fn in_cells(c: (i32, i32), x0: int, x1: int, y0: int, y1: int) -> bool {
    x0 <= c.0 <= x1 && y0 <= c.1 <= y1
}

/// The entities of those inserts that went to the fine cells (or, with
/// `coarse`, to the coarse cells) and landed in the given block of cells.
pub open spec fn inserts_in(
    ops: Seq<(IVec2, u32, u64)>,
    threshold: u32,
    lg: usize,
    coarse: bool,
    x0: int,
    x1: int,
    y0: int,
    y1: int,
) -> Multiset<u64>
    decreases ops.len(),
{
    if ops.len() == 0 {
        Multiset::empty()
    } else {
        let (p, r, e) = ops.last();
        let prev = inserts_in(ops.drop_last(), threshold, lg, coarse, x0, x1, y0, y1);
        if (r > threshold) == coarse && in_cells(cell_of(p, lg), x0, x1, y0, y1) {
            prev.insert(e)
        } else {
            prev
        }
    }
}

proof fn lemma_column_push(m: Map<(i32, i32), Seq<u64>>, c: (i32, i32), e: u64, x: int, y0: int, y1: int)
    requires
        i32::MIN <= x <= i32::MAX,
        i32::MIN <= y0,
        y1 <= i32::MAX,
    ensures
        column_entities(m.insert(c, cell_entities(m, c).push(e)), x, y0, y1).to_multiset() =~= (if c.0 == x && y0 <= c.1 <= y1 {
            column_entities(m, x, y0, y1).to_multiset().insert(e)
        } else {
            column_entities(m, x, y0, y1).to_multiset()
        }),
    decreases y1 - y0 + 1,
{
    broadcast use vstd::seq_lib::group_to_multiset_ensures;
    broadcast use vstd::multiset::group_multiset_axioms;
    let m2 = m.insert(c, cell_entities(m, c).push(e));
    if y1 >= y0 {
        lemma_column_push(m, c, e, x, y0, y1 - 1);
        let k = (x as i32, y1 as i32);
        vstd::seq_lib::lemma_multiset_commutative(column_entities(m2, x, y0, y1 - 1), cell_entities(m2, k));
        vstd::seq_lib::lemma_multiset_commutative(column_entities(m, x, y0, y1 - 1), cell_entities(m, k));
        if k == c {
            assert(cell_entities(m2, k) == cell_entities(m, c).push(e));
        } else {
            assert(cell_entities(m2, k) == cell_entities(m, k));
        }
    }
}

proof fn lemma_range_push(m: Map<(i32, i32), Seq<u64>>, c: (i32, i32), e: u64, x0: int, x1: int, y0: int, y1: int)
    requires
        i32::MIN <= x0,
        x1 <= i32::MAX,
        i32::MIN <= y0,
        y1 <= i32::MAX,
    ensures
        range_entities(m.insert(c, cell_entities(m, c).push(e)), x0, x1, y0, y1).to_multiset() =~= (if in_cells(c, x0, x1, y0, y1) {
            range_entities(m, x0, x1, y0, y1).to_multiset().insert(e)
        } else {
            range_entities(m, x0, x1, y0, y1).to_multiset()
        }),
    decreases x1 - x0 + 1,
{
    broadcast use vstd::seq_lib::group_to_multiset_ensures;
    broadcast use vstd::multiset::group_multiset_axioms;
    let m2 = m.insert(c, cell_entities(m, c).push(e));
    if x1 >= x0 {
        lemma_range_push(m, c, e, x0, x1 - 1, y0, y1);
        lemma_column_push(m, c, e, x1, y0, y1);
        vstd::seq_lib::lemma_multiset_commutative(range_entities(m2, x0, x1 - 1, y0, y1), column_entities(m2, x1, y0, y1));
        vstd::seq_lib::lemma_multiset_commutative(range_entities(m, x0, x1 - 1, y0, y1), column_entities(m, x1, y0, y1));
    }
}

/// What a block of cells of either layer holds after the inserts `ops`: the
/// entities of exactly those inserts that went to that layer and landed in
/// the block.
proof fn lemma_cells_hold_inserts(
    threshold: u32,
    lg_fine: usize,
    lg_coarse: usize,
    ops: Seq<(IVec2, u32, u64)>,
    x0: int,
    x1: int,
    y0: int,
    y1: int,
)
    requires
        i32::MIN <= x0,
        x1 <= i32::MAX,
        i32::MIN <= y0,
        y1 <= i32::MAX,
    ensures
        range_entities(grid_after(threshold, lg_fine, lg_coarse, ops).0, x0, x1, y0, y1).to_multiset()
            =~= inserts_in(ops, threshold, lg_fine, false, x0, x1, y0, y1),
        range_entities(grid_after(threshold, lg_fine, lg_coarse, ops).1, x0, x1, y0, y1).to_multiset()
            =~= inserts_in(ops, threshold, lg_coarse, true, x0, x1, y0, y1),
    decreases ops.len(),
{
    broadcast use vstd::seq_lib::group_to_multiset_ensures;
    broadcast use vstd::multiset::group_multiset_axioms;
    if ops.len() == 0 {
        lemma_range_of_empty(Map::empty(), x0, x1, y0, y1);
    } else {
        lemma_cells_hold_inserts(threshold, lg_fine, lg_coarse, ops.drop_last(), x0, x1, y0, y1);
        let (f, c, mr) = grid_after(threshold, lg_fine, lg_coarse, ops.drop_last());
        let (p, r, e) = ops.last();
        if r <= threshold {
            lemma_range_push(f, cell_of(p, lg_fine), e, x0, x1, y0, y1);
        } else {
            lemma_range_push(c, cell_of(p, lg_coarse), e, x0, x1, y0, y1);
        }
    }
}

proof fn lemma_range_of_empty(m: Map<(i32, i32), Seq<u64>>, x0: int, x1: int, y0: int, y1: int)
    requires
        m == Map::<(i32, i32), Seq<u64>>::empty(),
    ensures
        range_entities(m, x0, x1, y0, y1) == Seq::<u64>::empty(),
    decreases x1 - x0 + 1,
{
    if x1 >= x0 {
        lemma_range_of_empty(m, x0, x1 - 1, y0, y1);
        lemma_column_of_empty(m, x1, y0, y1);
        assert(range_entities(m, x0, x1, y0, y1) =~= Seq::<u64>::empty());
    }
}

proof fn lemma_column_of_empty(m: Map<(i32, i32), Seq<u64>>, x: int, y0: int, y1: int)
    requires
        m == Map::<(i32, i32), Seq<u64>>::empty(),
    ensures
        column_entities(m, x, y0, y1) == Seq::<u64>::empty(),
    decreases y1 - y0 + 1,
{
    if y1 >= y0 {
        lemma_column_of_empty(m, x, y0, y1 - 1);
        assert(column_entities(m, x, y0, y1) =~= Seq::<u64>::empty());
    }
}

/// The inserts into either layer and block are among all the inserts.
proof fn lemma_layers_within_inserts(
    ops: Seq<(IVec2, u32, u64)>,
    threshold: u32,
    lg_fine: usize,
    lg_coarse: usize,
    fx0: int, fx1: int, fy0: int, fy1: int,
    cx0: int, cx1: int, cy0: int, cy1: int,
    e: u64,
)
    ensures
        inserts_in(ops, threshold, lg_fine, false, fx0, fx1, fy0, fy1).count(e)
            + inserts_in(ops, threshold, lg_coarse, true, cx0, cx1, cy0, cy1).count(e) <= inserted_entities(ops).count(e),
    decreases ops.len(),
{
    broadcast use vstd::seq_lib::group_to_multiset_ensures;
    broadcast use vstd::multiset::group_multiset_axioms;
    if ops.len() > 0 {
        lemma_layers_within_inserts(ops.drop_last(), threshold, lg_fine, lg_coarse, fx0, fx1, fy0, fy1, cx0, cx1, cy0, cy1, e);
        let f = |o: (IVec2, u32, u64)| o.2;
        assert(ops.map_values(f) =~= ops.drop_last().map_values(f).push(ops.last().2));
    }
}

/// The grid after the inserts `ops` holds each inserted entity in the cell
/// of its layer, and the largest coarse radius covers the threshold and
/// every coarse entity's radius.
proof fn lemma_after_holds(threshold: u32, lg_fine: usize, lg_coarse: usize, ops: Seq<(IVec2, u32, u64)>, i: int)
    requires
        0 <= i < ops.len(),
    ensures
        ({
            let (f, c, mr) = grid_after(threshold, lg_fine, lg_coarse, ops);
            let (p, r, e) = ops[i];
            &&& mr >= threshold
            &&& r <= threshold ==> cell_entities(f, cell_of(p, lg_fine)).contains(e)
            &&& r > threshold ==> cell_entities(c, cell_of(p, lg_coarse)).contains(e) && mr >= r
        }),
    decreases ops.len(),
{
    broadcast use vstd::seq_lib::group_seq_properties;
    let (f0, c0, mr0) = grid_after(threshold, lg_fine, lg_coarse, ops.drop_last());
    let (p, r, e) = ops.last();
    if i < ops.len() - 1 {
        lemma_after_holds(threshold, lg_fine, lg_coarse, ops.drop_last(), i);
        assert(ops.drop_last()[i] == ops[i]);
    } else if ops.len() > 1 {
        lemma_after_holds(threshold, lg_fine, lg_coarse, ops.drop_last(), 0);
    }
    if r <= threshold {
        let k = cell_of(p, lg_fine);
        assert(cell_entities(f0, k).push(e)[cell_entities(f0, k).len() as int] == e);
    } else {
        let k = cell_of(p, lg_coarse);
        assert(cell_entities(c0, k).push(e)[cell_entities(c0, k).len() as int] == e);
    }
}

/// A query finds every entity inserted since the grid was made or cleared
/// whose reach touches the area (the area grown by the entity's radius holds
/// its position), whether it went to the fine or the coarse cells.
pub proof fn law_query_finds_every_insert<const LG_CELL_SZ: usize, const LG_COARSE_CELL_SZ: usize>(
    g: SpatialGrid<LG_CELL_SZ, LG_COARSE_CELL_SZ>,
    ops: Seq<(IVec2, u32, u64)>,
    area: Aabr,
    i: int,
)
    requires
        LG_CELL_SZ < 31,
        LG_COARSE_CELL_SZ < 31,
        (g.fine(), g.coarse(), g.max_radius()) == grid_after(g.threshold(), LG_CELL_SZ, LG_COARSE_CELL_SZ, ops),
        0 <= i < ops.len(),
        near_area(area, ops[i].0, ops[i].1 as int),
        query_fits(area, g.threshold(), LG_CELL_SZ),
        query_fits(area, g.max_radius(), LG_COARSE_CELL_SZ),
        g.threshold() <= i32::MAX,
        g.max_radius() <= i32::MAX,
    ensures
        (layer_query(g.fine(), area, g.threshold(), LG_CELL_SZ) + layer_query(
            g.coarse(),
            area,
            g.max_radius(),
            LG_COARSE_CELL_SZ,
        )).contains(ops[i].2),
{
    lemma_after_holds(g.threshold(), LG_CELL_SZ, LG_COARSE_CELL_SZ, ops, i);
    let (p, r, e) = ops[i];
    let fine = layer_query(g.fine(), area, g.threshold(), LG_CELL_SZ);
    let coarse = layer_query(g.coarse(), area, g.max_radius(), LG_COARSE_CELL_SZ);
    if r <= g.threshold() {
        law_layer_query_complete(g.fine(), area, g.threshold(), LG_CELL_SZ, p, e);
        let k = choose|k: int| 0 <= k < fine.len() && fine[k] == e;
        assert((fine + coarse)[k] == e);
    } else {
        law_layer_query_complete(g.coarse(), area, g.max_radius(), LG_COARSE_CELL_SZ, p, e);
        let k = choose|k: int| 0 <= k < coarse.len() && coarse[k] == e;
        assert((fine + coarse)[fine.len() + k] == e);
    }
}

/// A query yields only entities inserted since the grid was made or
/// cleared, and each no more often than it was inserted.
pub proof fn law_query_yields_only_inserts<const LG_CELL_SZ: usize, const LG_COARSE_CELL_SZ: usize>(
    g: SpatialGrid<LG_CELL_SZ, LG_COARSE_CELL_SZ>,
    ops: Seq<(IVec2, u32, u64)>,
    area: Aabr,
    e: u64,
)
    requires
        (g.fine(), g.coarse(), g.max_radius()) == grid_after(g.threshold(), LG_CELL_SZ, LG_COARSE_CELL_SZ, ops),
    ensures
        (layer_query(g.fine(), area, g.threshold(), LG_CELL_SZ) + layer_query(
            g.coarse(),
            area,
            g.max_radius(),
            LG_COARSE_CELL_SZ,
        )).to_multiset().count(e) <= inserted_entities(ops).count(e),
{
    broadcast use vstd::multiset::group_multiset_axioms;
    let t = g.threshold();
    let fx0 = query_lo(area.min.x, t, LG_CELL_SZ) as int;
    let fx1 = query_hi(area.max.x, t, LG_CELL_SZ) as int;
    let fy0 = query_lo(area.min.y, t, LG_CELL_SZ) as int;
    let fy1 = query_hi(area.max.y, t, LG_CELL_SZ) as int;
    let mr = g.max_radius();
    let cx0 = query_lo(area.min.x, mr, LG_COARSE_CELL_SZ) as int;
    let cx1 = query_hi(area.max.x, mr, LG_COARSE_CELL_SZ) as int;
    let cy0 = query_lo(area.min.y, mr, LG_COARSE_CELL_SZ) as int;
    let cy1 = query_hi(area.max.y, mr, LG_COARSE_CELL_SZ) as int;
    lemma_cells_hold_inserts(t, LG_CELL_SZ, LG_COARSE_CELL_SZ, ops, fx0, fx1, fy0, fy1);
    lemma_cells_hold_inserts(t, LG_CELL_SZ, LG_COARSE_CELL_SZ, ops, cx0, cx1, cy0, cy1);
    lemma_layers_within_inserts(ops, t, LG_CELL_SZ, LG_COARSE_CELL_SZ, fx0, fx1, fy0, fy1, cx0, cx1, cy0, cy1, e);
    let fine = layer_query(g.fine(), area, t, LG_CELL_SZ);
    let coarse = layer_query(g.coarse(), area, mr, LG_COARSE_CELL_SZ);
    vstd::seq_lib::lemma_multiset_commutative(fine, coarse);
}

/// A grid just made or cleared yields nothing, whatever the area.
pub proof fn law_cleared_query_empty<const LG_CELL_SZ: usize, const LG_COARSE_CELL_SZ: usize>(
    g: SpatialGrid<LG_CELL_SZ, LG_COARSE_CELL_SZ>,
    area: Aabr,
)
    requires
        g.fine() == Map::<(i32, i32), Seq<u64>>::empty(),
        g.coarse() == Map::<(i32, i32), Seq<u64>>::empty(),
        g.max_radius() == g.threshold(),
    ensures
        layer_query(g.fine(), area, g.threshold(), LG_CELL_SZ) + layer_query(g.coarse(), area, g.max_radius(), LG_COARSE_CELL_SZ)
            == Seq::<u64>::empty(),
{
    let t = g.threshold();
    let mr = g.max_radius();
    lemma_range_of_empty(g.fine(), query_lo(area.min.x, t, LG_CELL_SZ) as int, query_hi(area.max.x, t, LG_CELL_SZ) as int,
        query_lo(area.min.y, t, LG_CELL_SZ) as int, query_hi(area.max.y, t, LG_CELL_SZ) as int);
    lemma_range_of_empty(g.coarse(), query_lo(area.min.x, mr, LG_COARSE_CELL_SZ) as int, query_hi(area.max.x, mr, LG_COARSE_CELL_SZ) as int,
        query_lo(area.min.y, mr, LG_COARSE_CELL_SZ) as int, query_hi(area.max.y, mr, LG_COARSE_CELL_SZ) as int);
    assert(layer_query(g.fine(), area, t, LG_CELL_SZ) + layer_query(g.coarse(), area, mr, LG_COARSE_CELL_SZ) =~= Seq::<u64>::empty());
}

/// A grid that stands for the inserts `ops` and then takes an insert, as
/// `insert` describes it, stands for `ops` followed by that insert.
pub proof fn lemma_insert_extends<const LG_CELL_SZ: usize, const LG_COARSE_CELL_SZ: usize>(
    g: SpatialGrid<LG_CELL_SZ, LG_COARSE_CELL_SZ>,
    ops: Seq<(IVec2, u32, u64)>,
    pos: IVec2,
    entity_radius: u32,
    e: u64,
    next: SpatialGrid<LG_CELL_SZ, LG_COARSE_CELL_SZ>,
)
    requires
        (g.fine(), g.coarse(), g.max_radius()) == grid_after(g.threshold(), LG_CELL_SZ, LG_COARSE_CELL_SZ, ops),
        next.threshold() == g.threshold(),
        entity_radius <= g.threshold() ==> {
            &&& next.fine() == g.fine().insert(
                cell_of(pos, LG_CELL_SZ),
                cell_entities(g.fine(), cell_of(pos, LG_CELL_SZ)).push(e),
            )
            &&& next.coarse() == g.coarse()
            &&& next.max_radius() == g.max_radius()
        },
        entity_radius > g.threshold() ==> {
            &&& next.coarse() == g.coarse().insert(
                cell_of(pos, LG_COARSE_CELL_SZ),
                cell_entities(g.coarse(), cell_of(pos, LG_COARSE_CELL_SZ)).push(e),
            )
            &&& next.fine() == g.fine()
            &&& next.max_radius() == (if g.max_radius() >= entity_radius { g.max_radius() } else { entity_radius })
        },
    ensures
        (next.fine(), next.coarse(), next.max_radius())
            == grid_after(next.threshold(), LG_CELL_SZ, LG_COARSE_CELL_SZ, ops.push((pos, entity_radius, e))),
{
    assert(ops.push((pos, entity_radius, e)).drop_last() =~= ops);
}

} // verus!
