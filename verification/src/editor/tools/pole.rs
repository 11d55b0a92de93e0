//! The pole tool: places vertical or horizontal poles, joining crossing
//! poles into a combined one.

use vstd::prelude::*;

use crate::editor::EditorState;
use crate::editor::tools::{marked_unsaved, plain, plain_tile, ToolActions};
use crate::level::placement::{StorageAccess, TileProperties};
use crate::tilemap::{TileFlip, TilePos, TileTextureIndex};

verus! {

/// The image a pole placed over `existing` gets: a vertical (2) or
/// horizontal (3) pole, or the combined pole (4) where it lands on a
/// combined pole or on an image next to its own.
pub open spec fn pole_image(horizontal: bool, existing: Option<TileProperties>) -> u32 {
    let id: int = if horizontal { 3 } else { 2 };
    match existing {
        Some(p) => if p.id.0 == 4 || p.id.0 == id + 1 || p.id.0 == id - 1 {
            4
        } else {
            id as u32
        },
        None => id as u32,
    }
}

/// Places poles under the cursor; the mode action switches between
/// vertical and horizontal poles.
pub struct PoleTool {
    place_horizontal: bool,
}

impl PoleTool {
    /// Whether the tool places horizontal poles.
    pub closed spec fn places_horizontal(&self) -> bool {
        self.place_horizontal
    }

    pub fn new() -> (t: PoleTool)
        ensures
            !t.places_horizontal(),
    {
        PoleTool { place_horizontal: false }
    }

    /// One frame of the tool. Without a cursor or without input nothing
    /// happens.
    pub fn apply(
        &mut self,
        tiles: &mut StorageAccess,
        editor_state: &mut EditorState,
        cursor: Option<TilePos>,
        actions: Option<ToolActions>,
    )
        requires
            old(tiles)@.well_formed(),
        ensures
            final(tiles)@.well_formed(),
            ({
                let flipped = match (cursor, actions) {
                    (Some(pos), Some(a)) => a.cycle_mode_just_pressed,
                    _ => false,
                };
                final(self).places_horizontal() == (old(self).places_horizontal() != flipped)
            }),
            (match (cursor, actions) {
                (Some(pos), Some(a)) => a.apply_pressed,
                _ => false,
            }) ==> {
                let pos = cursor->0;
                let layer = old(editor_state).current_layer;
                let image = pole_image(final(self).places_horizontal(), old(tiles)@.properties_at(pos, layer));
                &&& final(tiles)@ == old(tiles)@.replace(pos, plain(image), layer)
                &&& marked_unsaved(*old(editor_state), *final(editor_state))
            },
            !(match (cursor, actions) {
                (Some(pos), Some(a)) => a.apply_pressed,
                _ => false,
            }) ==> {
                &&& final(tiles)@ == old(tiles)@
                &&& *final(editor_state) == *old(editor_state)
            },
    {
        let pos = match cursor {
            Some(p) => p,
            None => return,
        };
        let a = match actions {
            Some(a) => a,
            None => return,
        };
        if a.cycle_mode_just_pressed {
            self.place_horizontal = !self.place_horizontal;
        }
        if a.apply_pressed {
            let id: i64 = if self.place_horizontal { 3 } else { 2 };
            let joins = match tiles.get_properties(&pos, editor_state.current_layer) {
                Some(prop) => {
                    let existing = prop.id.0 as i64;
                    let diff = id - existing;
                    let dist = if diff < 0 { -diff } else { diff };
                    prop.id.0 == 4 || dist == 1
                },
                None => false,
            };
            let id = if joins { 4 } else { id };
            tiles.replace(&pos, plain_tile(id as u32), editor_state.current_layer);
            editor_state.unsaved_changes = true;
        }
    }
}

/// Poles cross into the combined pole: a pole of either orientation placed
/// over a pole of the other orientation, or over the combined pole, gives
/// the combined pole (4), whichever is placed first; placed over a pole of
/// its own orientation, over nothing, over a square (0) or over a platform
/// (5) it is a plain vertical (2) or horizontal (3) pole.
pub proof fn law_crossing_poles_combine(horizontal: bool, flip: TileFlip)
    ensures
        ({
            let own: u32 = if horizontal { 3 } else { 2 };
            let other: u32 = if horizontal { 2 } else { 3 };
            let over = |id: u32| Some(TileProperties { id: TileTextureIndex(id), flip });
            &&& pole_image(horizontal, over(other)) == 4
            &&& pole_image(!horizontal, over(own)) == 4
            &&& pole_image(horizontal, over(4)) == 4
            &&& pole_image(horizontal, over(own)) == own
            &&& pole_image(horizontal, None) == own
            &&& pole_image(horizontal, over(0)) == own
            &&& pole_image(horizontal, over(5)) == own
        }),
{
}

} // verus!
