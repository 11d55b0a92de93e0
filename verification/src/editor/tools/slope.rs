//! The slope tool: places slopes that lean against the solid tiles around
//! the cursor, or mirrors a slope already there.

use vstd::prelude::*;

use crate::editor::EditorState;
use crate::editor::tools::{marked_unsaved, ToolActions};
use crate::level::layer::Layer;
use crate::level::placement::{first_layer, StorageAccess, StorageView, TileProperties};
use crate::level::tile::TileKind;
use crate::tilemap::{neighbor, spec_neighbor, TileFlip, TilePos, TileTextureIndex, TilemapSize};

verus! {

/// Whether `q` is a position holding a square (solid) tile of `layer`.
pub open spec fn solid_at(s: StorageView, q: Option<TilePos>, layer: Layer) -> bool {
    match q {
        Some(p) => match s.properties_at(p, layer) {
            Some(props) => props.id.0 == 0,
            None => false,
        },
        None => false,
    }
}

/// Whether the image of the tile at `q`, if any, is one of the six tile
/// images.
pub open spec fn image_known(s: StorageView, q: Option<TilePos>, layer: Layer) -> bool {
    match q {
        Some(p) => match s.properties_at(p, layer) {
            Some(props) => props.id.0 <= 5,
            None => true,
        },
        None => true,
    }
}

/// The four neighbours of `pos`: north, east, south, west.
pub open spec fn neighbors(pos: TilePos, size: TilemapSize) -> (Option<TilePos>, Option<TilePos>, Option<TilePos>, Option<TilePos>) {
    (
        spec_neighbor(pos, 0, 1, size),
        spec_neighbor(pos, 1, 0, size),
        spec_neighbor(pos, 0, -1, size),
        spec_neighbor(pos, -1, 0, size),
    )
}

/// The number of solid neighbours among north, east, south and west.
pub open spec fn solid_count(n: bool, e: bool, s: bool, w: bool) -> int {
    (if n { 1int } else { 0 }) + (if e { 1int } else { 0 }) + (if s { 1int } else { 0 }) + (if w { 1int } else { 0 })
}

/// What the slope tool does at `pos` while applied: `None` when the solid
/// neighbours do not make a corner or a single wall (nothing changes);
/// `Some(None)` when a slope is there already and the action was not just
/// pressed (the level only counts as changed); `Some(Some(p))` when the tile
/// at `pos` becomes `p`: the slope there mirrored across the wall it leans
/// on, or a new slope facing away from the solid neighbours.
pub open spec fn slope_edit(s: StorageView, pos: TilePos, layer: Layer, size: TilemapSize, just_pressed: bool) -> Option<
    Option<TileProperties>,
> {
    let (qn, qe, qs, qw) = neighbors(pos, size);
    let north = solid_at(s, qn, layer);
    let east = solid_at(s, qe, layer);
    let south = solid_at(s, qs, layer);
    let west = solid_at(s, qw, layer);
    let count = solid_count(north, east, south, west);
    if !(count == 1 || count == 2) || (north && south) || (east && west) {
        None
    } else if count == 1 && (s.properties_at(pos, layer) matches Some(p) && p.id.0 == 1) {
        let p = s.properties_at(pos, layer)->0;
        if just_pressed {
            let flip = if north || south {
                TileFlip { x: !p.flip.x, ..p.flip }
            } else {
                TileFlip { y: !p.flip.y, ..p.flip }
            };
            Some(Some(TileProperties { flip, ..p }))
        } else {
            Some(None)
        }
    } else {
        Some(Some(TileProperties { id: TileTextureIndex(1), flip: TileFlip { x: east, y: north, d: false } }))
    }
}

/// Whether `q` is a position holding a square tile of `layer`.
pub fn solid(tiles: &StorageAccess, q: Option<TilePos>, layer: Layer) -> (r: bool)
    requires
        tiles@.well_formed(),
        image_known(tiles@, q, layer),
    ensures
        r == solid_at(tiles@, q, layer),
{
    match q {
        Some(pos) => match tiles.get_properties(&pos, layer) {
            Some(props) => TileKind::from_texture_index(props.id).is_solid(),
            None => false,
        },
        None => false,
    }
}

/// Places slopes under the cursor while the apply action is held.
pub struct SlopeTool {}

impl SlopeTool {
    pub fn new() -> (t: SlopeTool) {
        SlopeTool {}
    }

    /// One frame of the tool. Without a cursor or without input nothing
    /// happens. Whenever the tool is applied, a map must show the current
    /// layer and the tiles next to the cursor must show tile images, and so
    /// must the tile under the cursor when exactly one neighbour is solid.
    pub fn apply(
        &mut self,
        tiles: &mut StorageAccess,
        editor_state: &mut EditorState,
        cursor: Option<TilePos>,
        actions: Option<ToolActions>,
    )
        requires
            old(tiles)@.well_formed(),
            (match (cursor, actions) {
                (Some(pos), Some(a)) => a.apply_pressed,
                _ => false,
            }) ==> {
                let pos = cursor->0;
                let layer = old(editor_state).current_layer;
                let size = old(tiles)@.maps[first_layer(old(tiles)@.maps, layer)->0].size;
                let (qn, qe, qs, qw) = neighbors(pos, size);
                &&& first_layer(old(tiles)@.maps, layer) is Some
                &&& image_known(old(tiles)@, qn, layer)
                &&& image_known(old(tiles)@, qe, layer)
                &&& image_known(old(tiles)@, qs, layer)
                &&& image_known(old(tiles)@, qw, layer)
                &&& solid_count(
                    solid_at(old(tiles)@, qn, layer),
                    solid_at(old(tiles)@, qe, layer),
                    solid_at(old(tiles)@, qs, layer),
                    solid_at(old(tiles)@, qw, layer),
                ) == 1 ==> image_known(old(tiles)@, Some(pos), layer)
            },
        ensures
            final(tiles)@.well_formed(),
            ({
                let applied = match (cursor, actions) {
                    (Some(pos), Some(a)) => a.apply_pressed,
                    _ => false,
                };
                let layer = old(editor_state).current_layer;
                let edit = if applied {
                    slope_edit(
                        old(tiles)@,
                        cursor->0,
                        layer,
                        old(tiles)@.maps[first_layer(old(tiles)@.maps, layer)->0].size,
                        actions->0.apply_just_pressed,
                    )
                } else {
                    None
                };
                match edit {
                    None => final(tiles)@ == old(tiles)@ && *final(editor_state) == *old(editor_state),
                    Some(None) => final(tiles)@ == old(tiles)@ && marked_unsaved(*old(editor_state), *final(editor_state)),
                    Some(Some(p)) => final(tiles)@ == old(tiles)@.replace(cursor->0, p, layer) && marked_unsaved(
                        *old(editor_state),
                        *final(editor_state),
                    ),
                }
            }),
    {
        let pos = match cursor {
            Some(p) => p,
            None => return,
        };
        let a = match actions {
            Some(a) => a,
            None => return,
        };
        if a.apply_pressed {
            let current_layer = editor_state.current_layer;
            let size = match tiles.transform_size(current_layer) {
                Some(size) => size,
                None => return,
            };
            let north = solid(tiles, neighbor(&pos, 0, 1, &size), current_layer);
            let east = solid(tiles, neighbor(&pos, 1, 0, &size), current_layer);
            let south = solid(tiles, neighbor(&pos, 0, -1, &size), current_layer);
            let west = solid(tiles, neighbor(&pos, -1, 0, &size), current_layer);

            let count: u8 = north as u8 + east as u8 + south as u8 + west as u8;
            assert(count == solid_count(north, east, south, west));
            if !(count == 1 || count == 2) {
                return;
            }
            if north && south || east && west {
                return;
            }

            let mut skip = false;
            if count == 1 {
                if let Some(properties) = tiles.get_properties(&pos, current_layer) {
                    if TileKind::from_texture_index(properties.id).is_slope() {
                        if a.apply_just_pressed {
                            let old_flip = properties.flip;
                            let new_flip = if north || south {
                                TileFlip { x: !old_flip.x, ..old_flip }
                            } else {
                                TileFlip { y: !old_flip.y, ..old_flip }
                            };
                            tiles.replace(&pos, TileProperties { flip: new_flip, ..properties }, current_layer);
                        }
                        skip = true;
                    }
                }
            }

            if !skip {
                let mut flip = TileFlip { x: false, y: false, d: false };
                if east {
                    flip.x = true;
                }
                if north {
                    flip.y = true;
                }
                tiles.replace(&pos, TileProperties { id: TileTextureIndex(1), flip }, current_layer);
            }
            editor_state.unsaved_changes = true;
        }
    }
}

/// Clicking a slope that leans on a single wall mirrors it across that wall
/// and it still leans on it: against an east or west wall only the vertical
/// mirroring (`flip.y`) changes, against a north or south wall only the
/// horizontal one (`flip.x`); the image and the diagonal flip stay. A new
/// slope faces away from the walls around it: mirrored horizontally exactly
/// when the east neighbour is solid, vertically exactly when the north one
/// is.
pub proof fn law_slope_mirrors_along_its_wall(s: StorageView, pos: TilePos, layer: Layer, size: TilemapSize)
    ensures
        ({
            let (qn, qe, qs, qw) = neighbors(pos, size);
            let north = solid_at(s, qn, layer);
            let east = solid_at(s, qe, layer);
            let south = solid_at(s, qs, layer);
            let west = solid_at(s, qw, layer);
            let count = solid_count(north, east, south, west);
            let here = s.properties_at(pos, layer);
            let r = slope_edit(s, pos, layer, size, true);
            &&& count == 1 && (here matches Some(p) && p.id.0 == 1) ==> {
                let p = here->0;
                &&& r matches Some(Some(q)) && q.id == p.id && q.flip.d == p.flip.d
                &&& (east || west) ==> r->0->0.flip.x == p.flip.x && r->0->0.flip.y == !p.flip.y
                &&& (north || south) ==> r->0->0.flip.y == p.flip.y && r->0->0.flip.x == !p.flip.x
            }
            &&& (count == 1 || count == 2) && !(north && south) && !(east && west) && !(count == 1 && (here matches Some(
                p,
            ) && p.id.0 == 1)) ==> {
                &&& r matches Some(Some(q)) && q.id.0 == 1 && !q.flip.d
                &&& r->0->0.flip.x == east
                &&& r->0->0.flip.y == north
            }
        }),
{
}

} // verus!
