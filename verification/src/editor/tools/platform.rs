//! The platform tool: places a one-way platform under the cursor.

use vstd::prelude::*;

use crate::editor::EditorState;
use crate::editor::tools::{marked_unsaved, plain, plain_tile};
use crate::level::placement::StorageAccess;
use crate::tilemap::TilePos;

verus! {

/// Places a platform tile under the cursor, on the current layer, in every
/// frame the tool runs, whatever the input.
pub struct PlatformTool {}

impl PlatformTool {
    pub fn new() -> (t: PlatformTool) {
        PlatformTool {}
    }

    /// One frame of the tool. Without a cursor nothing happens.
    pub fn apply(&mut self, tiles: &mut StorageAccess, editor_state: &mut EditorState, cursor: Option<TilePos>)
        requires
            old(tiles)@.well_formed(),
        ensures
            final(tiles)@.well_formed(),
            cursor matches Some(pos) ==> {
                &&& final(tiles)@ == old(tiles)@.replace(pos, plain(5), old(editor_state).current_layer)
                &&& marked_unsaved(*old(editor_state), *final(editor_state))
            },
            cursor is None ==> {
                &&& final(tiles)@ == old(tiles)@
                &&& *final(editor_state) == *old(editor_state)
            },
    {
        let pos = match cursor {
            Some(p) => p,
            None => return,
        };
        tiles.replace(&pos, plain_tile(5), editor_state.current_layer);
        editor_state.unsaved_changes = true;
    }
}

} // verus!
