//! The paint tool: places plain square tiles under the cursor.

use vstd::prelude::*;

use crate::editor::EditorState;
use crate::editor::tools::{marked_unsaved, plain, plain_tile, ToolActions};
use crate::level::placement::StorageAccess;
use crate::tilemap::TilePos;

verus! {

/// Places a plain square tile under the cursor while the apply action is held.
pub struct PaintTool {}

impl PaintTool {
    pub fn new() -> (t: PaintTool) {
        PaintTool {}
    }

    /// One frame of the tool. Without a cursor or without input nothing
    /// happens.
    pub fn apply(
        &mut self,
        tiles: &mut StorageAccess,
        editor_state: &mut EditorState,
        cursor: Option<TilePos>,
        actions: Option<ToolActions>,
    )
        requires
            old(tiles)@.well_formed(),
        ensures
            final(tiles)@.well_formed(),
            (match (cursor, actions) {
                (Some(pos), Some(a)) => a.apply_pressed,
                _ => false,
            }) ==> {
                &&& final(tiles)@ == old(tiles)@.replace(cursor->0, plain(0), old(editor_state).current_layer)
                &&& marked_unsaved(*old(editor_state), *final(editor_state))
            },
            !(match (cursor, actions) {
                (Some(pos), Some(a)) => a.apply_pressed,
                _ => false,
            }) ==> {
                &&& final(tiles)@ == old(tiles)@
                &&& *final(editor_state) == *old(editor_state)
            },
    {
        let pos = match cursor {
            Some(p) => p,
            None => return,
        };
        let a = match actions {
            Some(a) => a,
            None => return,
        };
        if a.apply_pressed {
            tiles.replace(&pos, plain_tile(0), editor_state.current_layer);
            editor_state.unsaved_changes = true;
        }
    }
}

} // verus!
