//! The area tool: drag a rectangle, then place or delete tiles in all of it.

use vstd::prelude::*;

use crate::editor::EditorState;
use crate::editor::tools::{marked_unsaved, plain, plain_tile, ToolActions};
use crate::level::layer::{next_layer, Layer};
use crate::level::placement::{law_edit_leaves_other_layers, first_layer, lemma_first_layer, law_remove_then_get, law_replace_then_get, lemma_edits_keep_maps, StorageAccess, StorageView};
use crate::tilemap::{within_bounds, TilePos};

verus! {

/// What the area tool does to each tile of the rectangle.
#[derive(Clone, Copy, Debug, PartialEq, Eq, Structural)]
pub enum Mode {
    /// Place a square on the current layer.
    PlaceLayer,
    /// Delete from the current layer.
    DeleteLayer,
    /// Place a square on every layer.
    PlaceAllLayers,
    /// Delete from every layer.
    DeleteAllLayers,
    /// Where the current layer has a tile, place a square on the layer
    /// behind it.
    CopyBack,
}

/// Every mode, in the order the mode action cycles through them.
pub const ALL_MODES: [Mode; 5] = [Mode::PlaceLayer, Mode::DeleteLayer, Mode::PlaceAllLayers, Mode::DeleteAllLayers, Mode::CopyBack];

impl Default for Mode {
    fn default() -> (m: Mode)
        ensures
            m == Mode::PlaceLayer,
    {
        Mode::PlaceLayer
    }
}

/// The mode after `m` in the cycle.
pub open spec fn next_mode(m: Mode) -> Mode {
    match m {
        Mode::PlaceLayer => Mode::DeleteLayer,
        Mode::DeleteLayer => Mode::PlaceAllLayers,
        Mode::PlaceAllLayers => Mode::DeleteAllLayers,
        Mode::DeleteAllLayers => Mode::CopyBack,
        Mode::CopyBack => Mode::PlaceLayer,
    }
}

/// The label a mode is shown with.
pub open spec fn mode_name(m: Mode) -> Seq<char> {
    match m {
        Mode::PlaceLayer => "Place"@,
        Mode::DeleteLayer => "Delete"@,
        Mode::PlaceAllLayers => "Place All"@,
        Mode::DeleteAllLayers => "Delete All"@,
        Mode::CopyBack => "Copy Back"@,
    }
}

impl Mode {
    pub fn next(&self) -> (r: Self)
        ensures
            r == next_mode(*self),
    {
        match self {
            Mode::PlaceLayer => Mode::DeleteLayer,
            Mode::DeleteLayer => Mode::PlaceAllLayers,
            Mode::PlaceAllLayers => Mode::DeleteAllLayers,
            Mode::DeleteAllLayers => Mode::CopyBack,
            Mode::CopyBack => Mode::PlaceLayer,
        }
    }

    pub fn name(&self) -> (r: &'static str)
        ensures
            r@ == mode_name(*self),
    {
        match self {
            Mode::PlaceLayer => "Place",
            Mode::DeleteLayer => "Delete",
            Mode::PlaceAllLayers => "Place All",
            Mode::DeleteAllLayers => "Delete All",
            Mode::CopyBack => "Copy Back",
        }
    }
}

/// The mode the area tool is in.
#[derive(Clone, Copy, Debug, PartialEq, Eq, Structural)]
pub struct ActiveMode(pub Mode);

impl Default for ActiveMode {
    fn default() -> (m: ActiveMode)
        ensures
            m.0 == Mode::PlaceLayer,
    {
        ActiveMode(Mode::PlaceLayer)
    }
}

/// The mode `n` steps after `m`.
pub open spec fn mode_after(m: Mode, n: nat) -> Mode
    decreases n,
{
    if n == 0 {
        m
    } else {
        next_mode(mode_after(m, (n - 1) as nat))
    }
}

/// Cycling five times through the modes comes back to the mode one started
/// from, and the five modes met on the way are all different.
pub proof fn law_mode_cycle(m: Mode)
    ensures
        mode_after(m, 5) == m,
        forall|i: nat, j: nat| i < j < 5 ==> mode_after(m, i) != mode_after(m, j),
{
    reveal_with_fuel(mode_after, 6);
}

/// What the tool does to the tile at `pos` in mode `mode` with `layer` the
/// current layer.
pub open spec fn area_step(s: StorageView, pos: TilePos, mode: Mode, layer: Layer) -> StorageView {
    match mode {
        Mode::PlaceLayer => s.replace(pos, plain(0), layer),
        Mode::DeleteLayer => s.remove(pos, layer),
        Mode::PlaceAllLayers => s.replace(pos, plain(0), Layer::World).replace(pos, plain(0), Layer::Near).replace(
            pos,
            plain(0),
            Layer::Far,
        ),
        Mode::DeleteAllLayers => s.remove(pos, Layer::World).remove(pos, Layer::Near).remove(pos, Layer::Far),
        Mode::CopyBack => if s.tile_at(pos, layer) is Some {
            s.replace(pos, plain(0), next_layer(layer))
        } else {
            s
        },
    }
}

/// `area_step` applied to the `n` positions of column `x` from row `y0` up.
pub open spec fn area_column(s: StorageView, x: u32, y0: u32, n: nat, mode: Mode, layer: Layer) -> StorageView
    decreases n,
{
    if n == 0 {
        s
    } else {
        area_step(area_column(s, x, y0, (n - 1) as nat, mode, layer), TilePos { x, y: (y0 + n - 1) as u32 }, mode, layer)
    }
}

/// `area_column` applied to the `nx` columns from `x0` rightwards, each of
/// `ny` rows from `y0` up: the rectangle, column by column.
pub open spec fn area_rect(s: StorageView, x0: u32, nx: nat, y0: u32, ny: nat, mode: Mode, layer: Layer) -> StorageView
    decreases nx,
{
    if nx == 0 {
        s
    } else {
        area_column(area_rect(s, x0, (nx - 1) as nat, y0, ny, mode, layer), (x0 + nx - 1) as u32, y0, ny, mode, layer)
    }
}

/// The corners of the rectangle spanned by `a` and `b`: lowest and highest
/// coordinates.
pub open spec fn span(a: TilePos, b: TilePos) -> (TilePos, TilePos) {
    (
        TilePos { x: if a.x <= b.x { a.x } else { b.x }, y: if a.y <= b.y { a.y } else { b.y } },
        TilePos { x: if a.x <= b.x { b.x } else { a.x }, y: if a.y <= b.y { b.y } else { a.y } },
    )
}

/// The whole rectangle spanned by `a` and `b` edited.
pub open spec fn area_fill(s: StorageView, a: TilePos, b: TilePos, mode: Mode, layer: Layer) -> StorageView {
    let (lo, hi) = span(a, b);
    area_rect(s, lo.x, (hi.x - lo.x + 1) as nat, lo.y, (hi.y - lo.y + 1) as nat, mode, layer)
}

fn step(tiles: &mut StorageAccess, pos: &TilePos, mode: Mode, layer: Layer)
    requires
        old(tiles)@.well_formed(),
    ensures
        final(tiles)@.well_formed(),
        final(tiles)@ == area_step(old(tiles)@, *pos, mode, layer),
{
    match mode {
        Mode::PlaceLayer => {
            tiles.replace(pos, plain_tile(0), layer);
        },
        Mode::DeleteLayer => {
            tiles.remove(pos, layer);
        },
        Mode::PlaceAllLayers => {
            tiles.replace(pos, plain_tile(0), Layer::World);
            tiles.replace(pos, plain_tile(0), Layer::Near);
            tiles.replace(pos, plain_tile(0), Layer::Far);
        },
        Mode::DeleteAllLayers => {
            tiles.remove(pos, Layer::World);
            tiles.remove(pos, Layer::Near);
            tiles.remove(pos, Layer::Far);
        },
        Mode::CopyBack => {
            if tiles.get(pos, layer).is_some() {
                tiles.replace(pos, plain_tile(0), layer.next());
            }
        },
    }
}

/// Edits every tile of the rectangle spanned by `a` and `b`, column by
/// column, each column from the bottom up.
pub fn fill(tiles: &mut StorageAccess, a: TilePos, b: TilePos, mode: Mode, layer: Layer)
    requires
        old(tiles)@.well_formed(),
    ensures
        final(tiles)@.well_formed(),
        final(tiles)@ == area_fill(old(tiles)@, a, b, mode, layer),
{
    let lo = TilePos { x: if a.x <= b.x { a.x } else { b.x }, y: if a.y <= b.y { a.y } else { b.y } };
    let hi = TilePos { x: if a.x <= b.x { b.x } else { a.x }, y: if a.y <= b.y { b.y } else { a.y } };
    let ghost start = tiles@;
    let ghost ny = (hi.y - lo.y + 1) as nat;
    let mut x: u64 = lo.x as u64;
    while x <= hi.x as u64
        invariant
            lo.x <= x <= hi.x as u64 + 1,
            lo.y <= hi.y,
            ny == hi.y - lo.y + 1,
            tiles@.well_formed(),
            tiles@ == area_rect(start, lo.x, (x - lo.x) as nat, lo.y, ny, mode, layer),
        decreases hi.x as u64 + 1 - x,
    {
        let ghost before = tiles@;
        let mut y: u64 = lo.y as u64;
        while y <= hi.y as u64
            invariant
                lo.x <= x <= hi.x,
                lo.y <= y <= hi.y as u64 + 1,
                tiles@.well_formed(),
                tiles@ == area_column(before, x as u32, lo.y, (y - lo.y) as nat, mode, layer),
            decreases hi.y as u64 + 1 - y,
        {
            step(tiles, &TilePos { x: x as u32, y: y as u32 }, mode, layer);
            y = y + 1;
        }
        x = x + 1;
    }
}

/// The rectangle tool: pressing the apply action marks one corner, releasing
/// it the other; then the whole rectangle is edited in the active mode.
pub struct AreaTool {
    start: Option<TilePos>,
    temp_end: Option<TilePos>,
    end: Option<TilePos>,
}

impl AreaTool {
    /// The corner where the drag started, if one is under way.
    pub closed spec fn start_corner(&self) -> Option<TilePos> {
        self.start
    }

    /// The position the drag has reached so far.
    pub closed spec fn drag_corner(&self) -> Option<TilePos> {
        self.temp_end
    }

    /// The corner where the drag ended, once it has.
    pub closed spec fn end_corner(&self) -> Option<TilePos> {
        self.end
    }

    pub fn new() -> (t: AreaTool)
        ensures
            t.start_corner() is None,
            t.drag_corner() is None,
            t.end_corner() is None,
    {
        AreaTool { start: None, temp_end: None, end: None }
    }

    /// The rectangle dragged so far, for drawing it: from the start corner
    /// to the position reached.
    pub fn dragged(&self) -> (r: Option<(TilePos, TilePos)>)
        ensures
            r == (match (self.start_corner(), self.drag_corner()) {
                (Some(a), Some(b)) => Some(span(a, b)),
                _ => None,
            }),
    {
        match (self.start, self.temp_end) {
            (Some(a), Some(b)) => Some((
                TilePos { x: if a.x <= b.x { a.x } else { b.x }, y: if a.y <= b.y { a.y } else { b.y } },
                TilePos { x: if a.x <= b.x { b.x } else { a.x }, y: if a.y <= b.y { b.y } else { a.y } },
            )),
            _ => None,
        }
    }

    /// One frame of the tool. The cursor falls back to the position the drag
    /// has reached; without either, or without input, nothing happens.
    pub fn apply(
        &mut self,
        tiles: &mut StorageAccess,
        editor_state: &mut EditorState,
        current_mode: &mut ActiveMode,
        cursor: Option<TilePos>,
        actions: Option<ToolActions>,
    )
        requires
            old(tiles)@.well_formed(),
        ensures
            final(tiles)@.well_formed(),
            ({
                let c = match cursor {
                    Some(p) => Some(p),
                    None => old(self).drag_corner(),
                };
                match (c, actions) {
                    (Some(pos), Some(a)) => {
                        let mode = if a.cycle_mode_just_pressed {
                            next_mode(old(current_mode).0)
                        } else {
                            old(current_mode).0
                        };
                        let start = if a.apply_just_pressed {
                            Some(pos)
                        } else {
                            old(self).start_corner()
                        };
                        let drag = if a.apply_pressed {
                            Some(pos)
                        } else {
                            old(self).drag_corner()
                        };
                        let end = if a.apply_just_released && start is Some {
                            Some(pos)
                        } else {
                            old(self).end_corner()
                        };
                        &&& final(current_mode).0 == mode
                        &&& match (start, end) {
                            (Some(s), Some(e)) => {
                                &&& final(tiles)@ == area_fill(old(tiles)@, s, e, mode, old(editor_state).current_layer)
                                &&& marked_unsaved(*old(editor_state), *final(editor_state))
                                &&& final(self).start_corner() is None
                                &&& final(self).drag_corner() is None
                                &&& final(self).end_corner() is None
                            },
                            _ => {
                                &&& final(tiles)@ == old(tiles)@
                                &&& *final(editor_state) == *old(editor_state)
                                &&& final(self).start_corner() == start
                                &&& final(self).drag_corner() == drag
                                &&& final(self).end_corner() == end
                            },
                        }
                    },
                    _ => {
                        &&& final(tiles)@ == old(tiles)@
                        &&& *final(editor_state) == *old(editor_state)
                        &&& *final(current_mode) == *old(current_mode)
                        &&& final(self).start_corner() == old(self).start_corner()
                        &&& final(self).drag_corner() == old(self).drag_corner()
                        &&& final(self).end_corner() == old(self).end_corner()
                    },
                }
            }),
    {
        let pos = match cursor {
            Some(p) => p,
            None => match self.temp_end {
                Some(p) => p,
                None => return,
            },
        };
        let a = match actions {
            Some(a) => a,
            None => return,
        };
        if a.cycle_mode_just_pressed {
            current_mode.0 = current_mode.0.next();
        }
        if a.apply_just_pressed {
            self.start = Some(pos);
        }
        if a.apply_pressed {
            self.temp_end = Some(pos);
        }
        if a.apply_just_released {
            if self.start.is_some() {
                self.end = Some(pos);
            }
        }
        if let (Some(start), Some(end)) = (self.start, self.end) {
            fill(tiles, start, end, current_mode.0, editor_state.current_layer);
            self.start = None;
            self.end = None;
            self.temp_end = None;
            editor_state.unsaved_changes = true;
        }
    }
}

/// The facts the rectangle laws carry from step to step: the maps keep
/// their shape, and the first map of `layer` keeps its index.
pub open spec fn same_maps(s: StorageView, r: StorageView, layer: Layer) -> bool {
    &&& r.well_formed()
    &&& r.maps.len() == s.maps.len()
    &&& first_layer(r.maps, layer) == first_layer(s.maps, layer)
    &&& forall|j: int| 0 <= j < s.maps.len() ==> (#[trigger] r.maps[j]).size == s.maps[j].size
}

/// What a fill in `mode` does to layer `l` when `layer` is the current
/// layer: place a tile (`Some(true)`), clear it (`Some(false)`) or leave
/// the layer alone (`None`).
spec fn fill_effect(mode: Mode, layer: Layer, l: Layer) -> Option<bool> {
    match mode {
        Mode::PlaceLayer => if l == layer { Some(true) } else { None },
        Mode::DeleteLayer => if l == layer { Some(false) } else { None },
        Mode::PlaceAllLayers => Some(true),
        Mode::DeleteAllLayers => Some(false),
        Mode::CopyBack => None,
    }
}

/// A square placed (`place`) or the tile removed at `p` of layer `edit`.
spec fn edit_op(s: StorageView, p: TilePos, place: bool, edit: Layer) -> StorageView {
    if place {
        s.replace(p, plain(0), edit)
    } else {
        s.remove(p, edit)
    }
}

/// One placement (`place`) or removal at `p` on layer `edit`, seen on layer
/// `l`.
proof fn lemma_edit(s: StorageView, p: TilePos, place: bool, edit: Layer, l: Layer)
    requires
        s.well_formed(),
        first_layer(s.maps, l) is Some,
    ensures
        same_maps(s, edit_op(s, p, place, edit), l),
        edit == l && within_bounds(p, s.maps[first_layer(s.maps, l)->0].size) ==> (edit_op(s, p, place, edit).tile_at(p, l) is Some)
            == place,
        edit == l && !place ==> edit_op(s, p, place, edit).tile_at(p, l) is None,
        edit != l ==> edit_op(s, p, place, edit).tile_at(p, l) == s.tile_at(p, l),
        forall|q: TilePos| q != p ==> #[trigger] edit_op(s, p, place, edit).tile_at(q, l) == s.tile_at(q, l),
{
    lemma_edits_keep_maps(s, p, plain(0), edit);
    let r = edit_op(s, p, place, edit);
    assert forall|q: TilePos| q != p implies #[trigger] r.tile_at(q, l) == s.tile_at(q, l) by {
        if edit == l {
            if place {
                law_replace_then_get(s, p, plain(0), edit, q);
            } else {
                law_remove_then_get(s, p, edit, q);
            }
        } else {
            law_edit_leaves_other_layers(s, p, plain(0), edit, l, q);
        }
    }
    let other = TilePos { x: p.x, y: if p.y == 0 { 1 } else { 0 } };
    if edit == l {
        if place {
            law_replace_then_get(s, p, plain(0), edit, other);
        } else {
            law_remove_then_get(s, p, edit, other);
        }
    } else {
        law_edit_leaves_other_layers(s, p, plain(0), edit, l, p);
    }
}

proof fn lemma_step(s: StorageView, p: TilePos, mode: Mode, layer: Layer, l: Layer)
    requires
        mode != Mode::CopyBack,
        s.well_formed(),
        first_layer(s.maps, l) is Some,
    ensures
        same_maps(s, area_step(s, p, mode, layer), l),
        within_bounds(p, s.maps[first_layer(s.maps, l)->0].size) && fill_effect(mode, layer, l) is Some ==> (area_step(
            s,
            p,
            mode,
            layer,
        ).tile_at(p, l) is Some) == fill_effect(mode, layer, l)->0,
        fill_effect(mode, layer, l) is None ==> area_step(s, p, mode, layer).tile_at(p, l) == s.tile_at(p, l),
        forall|q: TilePos| q != p ==> #[trigger] area_step(s, p, mode, layer).tile_at(q, l) == s.tile_at(q, l),
{
    let i = first_layer(s.maps, l)->0;
    lemma_first_layer(s.maps, l);
    let r = area_step(s, p, mode, layer);
    match mode {
        Mode::PlaceLayer => {
            lemma_edit(s, p, true, layer, l);
            assert(r == edit_op(s, p, true, layer));
        },
        Mode::DeleteLayer => {
            lemma_edit(s, p, false, layer, l);
            assert(r == edit_op(s, p, false, layer));
        },
        Mode::PlaceAllLayers | Mode::DeleteAllLayers => {
            let place = mode == Mode::PlaceAllLayers;
            let s1 = edit_op(s, p, place, Layer::World);
            let s2 = edit_op(s1, p, place, Layer::Near);
            let s3 = edit_op(s2, p, place, Layer::Far);
            assert(r == s3);
            lemma_edit(s, p, place, Layer::World, l);
            lemma_edit(s1, p, place, Layer::Near, l);
            lemma_edit(s2, p, place, Layer::Far, l);
            assert(s1.maps[i].size == s.maps[i].size);
            assert(s2.maps[i].size == s.maps[i].size);
            assert forall|q: TilePos| q != p implies #[trigger] r.tile_at(q, l) == s.tile_at(q, l) by {
                assert(s3.tile_at(q, l) == s2.tile_at(q, l));
                assert(s2.tile_at(q, l) == s1.tile_at(q, l));
                assert(s1.tile_at(q, l) == s.tile_at(q, l));
            }
        },
        Mode::CopyBack => {},
    }
}

proof fn lemma_column(s: StorageView, x: u32, y0: u32, n: nat, mode: Mode, layer: Layer, l: Layer)
    requires
        mode != Mode::CopyBack,
        s.well_formed(),
        first_layer(s.maps, l) is Some,
        y0 + n <= u32::MAX + 1,
    ensures
        same_maps(s, area_column(s, x, y0, n, mode, layer), l),
        forall|q: TilePos|
            q.x == x && y0 <= q.y < y0 + n && within_bounds(q, s.maps[first_layer(s.maps, l)->0].size) && fill_effect(
                mode,
                layer,
                l,
            ) is Some ==> (#[trigger] area_column(s, x, y0, n, mode, layer).tile_at(q, l) is Some) == fill_effect(
                mode,
                layer,
                l,
            )->0,
        forall|q: TilePos|
            !(q.x == x && y0 <= q.y < y0 + n) || fill_effect(mode, layer, l) is None ==> #[trigger] area_column(
                s,
                x,
                y0,
                n,
                mode,
                layer,
            ).tile_at(q, l) == s.tile_at(q, l),
    decreases n,
{
    if n > 0 {
        let prev = area_column(s, x, y0, (n - 1) as nat, mode, layer);
        lemma_column(s, x, y0, (n - 1) as nat, mode, layer, l);
        let p = TilePos { x, y: (y0 + n - 1) as u32 };
        lemma_step(prev, p, mode, layer, l);
        let r = area_column(s, x, y0, n, mode, layer);
        assert(r == area_step(prev, p, mode, layer));
        let i = first_layer(s.maps, l)->0;
        lemma_first_layer(s.maps, l);
        assert(prev.maps[i].size == s.maps[i].size);
        assert forall|q: TilePos|
            q.x == x && y0 <= q.y < y0 + n && within_bounds(q, s.maps[i].size) && fill_effect(mode, layer, l) is Some
                implies (#[trigger] r.tile_at(q, l) is Some) == fill_effect(mode, layer, l)->0 by {
            if q != p {
                assert(q.y < y0 + n - 1);
            }
        }
    }
}

proof fn lemma_rect(s: StorageView, x0: u32, nx: nat, y0: u32, ny: nat, mode: Mode, layer: Layer, l: Layer)
    requires
        mode != Mode::CopyBack,
        s.well_formed(),
        first_layer(s.maps, l) is Some,
        y0 + ny <= u32::MAX + 1,
        x0 + nx <= u32::MAX + 1,
    ensures
        same_maps(s, area_rect(s, x0, nx, y0, ny, mode, layer), l),
        forall|q: TilePos|
            x0 <= q.x < x0 + nx && y0 <= q.y < y0 + ny && within_bounds(q, s.maps[first_layer(s.maps, l)->0].size)
                && fill_effect(mode, layer, l) is Some ==> (#[trigger] area_rect(s, x0, nx, y0, ny, mode, layer).tile_at(
                q,
                l,
            ) is Some) == fill_effect(mode, layer, l)->0,
        forall|q: TilePos|
            !(x0 <= q.x < x0 + nx && y0 <= q.y < y0 + ny) || fill_effect(mode, layer, l) is None
                ==> #[trigger] area_rect(s, x0, nx, y0, ny, mode, layer).tile_at(q, l) == s.tile_at(q, l),
    decreases nx,
{
    if nx > 0 {
        let prev = area_rect(s, x0, (nx - 1) as nat, y0, ny, mode, layer);
        lemma_rect(s, x0, (nx - 1) as nat, y0, ny, mode, layer, l);
        let x = (x0 + nx - 1) as u32;
        lemma_column(prev, x, y0, ny, mode, layer, l);
        let r = area_rect(s, x0, nx, y0, ny, mode, layer);
        assert(r == area_column(prev, x, y0, ny, mode, layer));
        let i = first_layer(s.maps, l)->0;
        lemma_first_layer(s.maps, l);
        assert(prev.maps[i].size == s.maps[i].size);
    }
}

/// Placing (or deleting) over a rectangle on the current layer leaves a tile
/// at (or clears) every position of the rectangle that lies in the map, and
/// leaves every position outside it as it was.
pub proof fn law_area_fill(s: StorageView, a: TilePos, b: TilePos, mode: Mode, layer: Layer, q: TilePos)
    requires
        mode == Mode::PlaceLayer || mode == Mode::DeleteLayer,
        s.well_formed(),
        first_layer(s.maps, layer) is Some,
    ensures
        ({
            let (lo, hi) = span(a, b);
            let inside = lo.x <= q.x <= hi.x && lo.y <= q.y <= hi.y;
            &&& inside && within_bounds(q, s.maps[first_layer(s.maps, layer)->0].size) ==> (area_fill(
                s,
                a,
                b,
                mode,
                layer,
            ).tile_at(q, layer) is Some) == (mode == Mode::PlaceLayer)
            &&& !inside ==> area_fill(s, a, b, mode, layer).tile_at(q, layer) == s.tile_at(q, layer)
        }),
{
    let (lo, hi) = span(a, b);
    lemma_rect(s, lo.x, (hi.x - lo.x + 1) as nat, lo.y, (hi.y - lo.y + 1) as nat, mode, layer, layer);
}

/// A fill in any mode but copying back, seen on any layer `l` that a map
/// shows: placing on every layer leaves a tile, and deleting on every layer
/// leaves none, at every position of the rectangle that lies in the map;
/// placing or deleting on the current layer only does so on that layer and
/// leaves the other layers as they were; and no position outside the
/// rectangle changes on any layer.
pub proof fn law_area_fill_layers(s: StorageView, a: TilePos, b: TilePos, mode: Mode, layer: Layer, l: Layer, q: TilePos)
    requires
        mode != Mode::CopyBack,
        s.well_formed(),
        first_layer(s.maps, l) is Some,
    ensures
        ({
            let (lo, hi) = span(a, b);
            let inside = lo.x <= q.x <= hi.x && lo.y <= q.y <= hi.y;
            let in_map = within_bounds(q, s.maps[first_layer(s.maps, l)->0].size);
            let r = area_fill(s, a, b, mode, layer);
            &&& inside && in_map && mode == Mode::PlaceAllLayers ==> r.tile_at(q, l) is Some
            &&& inside && mode == Mode::DeleteAllLayers ==> r.tile_at(q, l) is None
            &&& inside && in_map && mode == Mode::PlaceLayer && l == layer ==> r.tile_at(q, l) is Some
            &&& inside && mode == Mode::DeleteLayer && l == layer ==> r.tile_at(q, l) is None
            &&& (mode == Mode::PlaceLayer || mode == Mode::DeleteLayer) && l != layer ==> r.tile_at(q, l) == s.tile_at(q, l)
            &&& !inside ==> r.tile_at(q, l) == s.tile_at(q, l)
        }),
{
    let (lo, hi) = span(a, b);
    lemma_rect(s, lo.x, (hi.x - lo.x + 1) as nat, lo.y, (hi.y - lo.y + 1) as nat, mode, layer, l);
    let i = first_layer(s.maps, l)->0;
    lemma_first_layer(s.maps, l);
    if !within_bounds(q, s.maps[i].size) && (mode == Mode::DeleteAllLayers || mode == Mode::DeleteLayer) {
        let r = area_fill(s, a, b, mode, layer);
        let rr = area_rect(s, lo.x, (hi.x - lo.x + 1) as nat, lo.y, (hi.y - lo.y + 1) as nat, mode, layer);
        assert(r == rr);
        assert(first_layer(rr.maps, l) == Some(i));
        assert(rr.maps[i].size == s.maps[i].size);
    }
}

} // verus!
