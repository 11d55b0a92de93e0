//! Tile maps: layers, tile kinds, tile placement and level snapshots.

pub mod layer;
pub mod placement;
pub mod serialization;
pub mod tile;

use vstd::prelude::*;

use crate::level::layer::{Layer, ALL_LAYERS};
use crate::level::placement::{map_view, MapView, TilemapLayer};
use crate::nono::Nonogram;
use crate::tilemap::{TilePos, TileStorage, TilemapSize};

verus! {

/// A nonogram that is part of a level.
pub struct EditableNonogram(pub Nonogram);

/// Marks the level being edited.
pub struct Editing;

/// The origin (bottom left) in tile space of something that covers several
/// tiles.
#[derive(Clone, Copy, Debug, PartialEq, Eq, Structural)]
pub struct TilePosAnchor {
    pub pos: TilePos,
}

/// The tile under the mouse cursor, if it is over the map.
#[derive(Clone, Copy, Debug, PartialEq, Eq, Structural, Default)]
pub struct TileCursor(pub Option<TilePos>);

/// Makes an empty square map of `size` x `size` tiles of `tile_size` pixels
/// on every layer.
#[derive(Clone, Copy, Debug, PartialEq, Eq, Structural)]
pub struct SpawnMapCommand {
    pub size: u32,
    pub tile_size: u32,
}

/// The layer of number `i` from the front.
pub open spec fn layer_at(i: int) -> Layer {
    if i == 0 {
        Layer::World
    } else if i == 1 {
        Layer::Near
    } else {
        Layer::Far
    }
}

impl SpawnMapCommand {
    pub fn new(size: u32, tile_size: u32) -> (c: SpawnMapCommand)
        ensures
            c == (SpawnMapCommand { size, tile_size }),
    {
        SpawnMapCommand { size, tile_size }
    }

    /// The empty tile maps of the command, front to back, given the entity
    /// made for each.
    pub fn layers(&self, entities: [u64; 3]) -> (r: Vec<TilemapLayer>)
        requires
            self.size * self.size <= usize::MAX,
        ensures
            r@.len() == 3,
            forall|i: int| 0 <= i < 3 ==> #[trigger] map_view(r@[i]) == (MapView {
                entity: entities[i],
                layer: layer_at(i),
                size: TilemapSize { x: self.size, y: self.size },
                slots: Seq::new((self.size * self.size) as nat, |k: int| None::<u64>),
            }),
    {
        let size = TilemapSize { x: self.size, y: self.size };
        let mut r: Vec<TilemapLayer> = Vec::new();
        let mut i: usize = 0;
        while i < 3
            invariant
                i <= 3,
                r@.len() == i,
                size == (TilemapSize { x: self.size, y: self.size }),
                self.size * self.size <= usize::MAX,
                forall|j: int| 0 <= j < i ==> #[trigger] map_view(r@[j]) == (MapView {
                    entity: entities[j],
                    layer: layer_at(j),
                    size: TilemapSize { x: self.size, y: self.size },
                    slots: Seq::new((self.size * self.size) as nat, |k: int| None::<u64>),
                }),
            decreases 3 - i,
        {
            let storage = TileStorage::empty(size);
            let layer = ALL_LAYERS[i];
            assert(layer == layer_at(i as int));
            r.push(TilemapLayer { entity: entities[i], storage, layer });
            i = i + 1;
        }
        r
    }
}

} // verus!
