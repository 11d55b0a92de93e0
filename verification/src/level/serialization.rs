//! Level snapshots: the tiles of a level as plain records, taken from the
//! placed tiles and put back into the tile maps.

use vstd::prelude::*;

use crate::level::layer::Layer;
use crate::level::placement::{
    first_layer, following, law_clear_empties, law_replace_then_get, lemma_clear_keeps_maps, lemma_edits_keep_maps, lemma_first_layer,
    StorageAccess, StorageView, TileProperties,
};
use crate::tilemap::{within_bounds, TileFlip, TilePos, TileTextureIndex};

verus! {

/// One placed tile of a level file.
#[derive(Clone, Copy, Debug, PartialEq, Eq, Structural)]
pub struct SerializableTile {
    pub pos: TilePos,
    pub id: TileTextureIndex,
    pub flip: TileFlip,
}

/// A level file: its tiles.
#[derive(Clone, Debug)]
pub struct SerializableLevel {
    pub tiles: Vec<SerializableTile>,
}

/// An unmirrored tile: such a flip is left out of level files.
pub open spec fn spec_is_default_flip(flip: TileFlip) -> bool {
    !flip.x && !flip.y && !flip.d
}

pub fn is_default_flip(flip: &TileFlip) -> (r: bool)
    ensures
        r == spec_is_default_flip(*flip),
{
    !flip.x && !flip.y && !flip.d
}

/// The properties a level tile is placed with.
pub open spec fn tile_properties_of(t: SerializableTile) -> TileProperties {
    TileProperties { id: t.id, flip: t.flip }
}

/// The tiles of `tiles` replaced into `layer` one after the other.
pub open spec fn replace_all(s: StorageView, tiles: Seq<SerializableTile>, layer: Layer) -> StorageView
    decreases tiles.len(),
{
    if tiles.len() == 0 {
        s
    } else {
        replace_all(s, tiles.drop_last(), layer).replace(tiles.last().pos, tile_properties_of(tiles.last()), layer)
    }
}

/// The level records of the placed tiles (position, image, mirroring), in
/// order.
pub open spec fn saved_tiles(placed: Seq<(TilePos, TileTextureIndex, TileFlip)>) -> Seq<SerializableTile> {
    placed.map_values(|t: (TilePos, TileTextureIndex, TileFlip)| SerializableTile { pos: t.0, id: t.1, flip: t.2 })
}

/// Reads and writes levels: the placed tiles (position, image and mirroring
/// of each, in the order the world lists them) and access to the tile maps.
pub struct LevelSerializer {
    pub tiles: Vec<(TilePos, TileTextureIndex, TileFlip)>,
    pub storage_access: StorageAccess,
}

impl LevelSerializer {
    /// The level as it stands: one record per placed tile, in order.
    pub fn save(&self) -> (r: Option<SerializableLevel>)
        ensures
            r matches Some(level) && level.tiles@.len() == self.tiles@.len() && forall|i: int|
                0 <= i < self.tiles@.len() ==> #[trigger] level.tiles@[i] == (SerializableTile {
                    pos: self.tiles@[i].0,
                    id: self.tiles@[i].1,
                    flip: self.tiles@[i].2,
                }),
            r matches Some(level) && level.tiles@ == saved_tiles(self.tiles@),
    {
        let mut tiles: Vec<SerializableTile> = Vec::new();
        let mut i: usize = 0;
        while i < self.tiles.len()
            invariant
                i <= self.tiles@.len(),
                tiles@.len() == i,
                forall|j: int| 0 <= j < i ==> #[trigger] tiles@[j] == (SerializableTile {
                    pos: self.tiles@[j].0,
                    id: self.tiles@[j].1,
                    flip: self.tiles@[j].2,
                }),
            decreases self.tiles@.len() - i,
        {
            let (pos, id, flip) = self.tiles[i];
            tiles.push(SerializableTile { pos, id, flip });
            i = i + 1;
        }
        assert(tiles@ =~= saved_tiles(self.tiles@));
        Some(SerializableLevel { tiles })
    }

    /// Puts a level into `layer`: every tile there is removed (despawned,
    /// with no update event), then the level's tiles are placed in order,
    /// each reported as placed.
    pub fn load(&mut self, level: &SerializableLevel, layer: Layer)
        requires
            old(self).storage_access@.well_formed(),
        ensures
            final(self).storage_access@.well_formed(),
            final(self).storage_access@ == replace_all(old(self).storage_access@.clear(layer), level.tiles@, layer),
            final(self).tiles@ == old(self).tiles@,
    {
        self.storage_access.clear(layer);
        let ghost cleared = self.storage_access@;
        let mut i: usize = 0;
        while i < level.tiles.len()
            invariant
                i <= level.tiles@.len(),
                self.storage_access@.well_formed(),
                self.storage_access@ == replace_all(cleared, level.tiles@.take(i as int), layer),
                self.tiles@ == old(self).tiles@,
            decreases level.tiles@.len() - i,
        {
            let tile = level.tiles[i];
            self.storage_access.replace(&tile.pos, TileProperties { id: tile.id, flip: tile.flip }, layer);
            assert(level.tiles@.take(i + 1).drop_last() =~= level.tiles@.take(i as int));
            i = i + 1;
        }
        assert(level.tiles@.take(i as int) =~= level.tiles@);
    }
}

proof fn lemma_replace_all(s: StorageView, tiles: Seq<SerializableTile>, layer: Layer)
    requires
        s.well_formed(),
        first_layer(s.maps, layer) is Some,
    ensures
        replace_all(s, tiles, layer).well_formed(),
        replace_all(s, tiles, layer).maps.len() == s.maps.len(),
        first_layer(replace_all(s, tiles, layer).maps, layer) == first_layer(s.maps, layer),
        forall|j: int| 0 <= j < s.maps.len() ==> (#[trigger] replace_all(s, tiles, layer).maps[j]).size == s.maps[j].size,
        forall|q: TilePos|
            (exists|i: int| 0 <= i < tiles.len() && (#[trigger] tiles[i]).pos == q) && within_bounds(
                q,
                s.maps[first_layer(s.maps, layer)->0].size,
            ) ==> (#[trigger] replace_all(s, tiles, layer).tile_at(q, layer)) is Some,
        forall|q: TilePos|
            (forall|i: int| 0 <= i < tiles.len() ==> (#[trigger] tiles[i]).pos != q) ==> #[trigger] replace_all(
                s,
                tiles,
                layer,
            ).tile_at(q, layer) == s.tile_at(q, layer),
    decreases tiles.len(),
{
    if tiles.len() > 0 {
        let init = tiles.drop_last();
        let t = tiles.last();
        lemma_replace_all(s, init, layer);
        let prev = replace_all(s, init, layer);
        lemma_edits_keep_maps(prev, t.pos, tile_properties_of(t), layer);
        let r = replace_all(s, tiles, layer);
        let i0 = first_layer(s.maps, layer)->0;
        lemma_first_layer(s.maps, layer);
        assert(prev.maps[i0].size == s.maps[i0].size);
        assert forall|q: TilePos|
            (exists|i: int| 0 <= i < tiles.len() && (#[trigger] tiles[i]).pos == q) && within_bounds(q, s.maps[i0].size)
                implies (#[trigger] r.tile_at(q, layer)) is Some by {
            let other = TilePos { x: q.x, y: if q.y == 0 { 1 } else { 0 } };
            if q == t.pos {
                law_replace_then_get(prev, t.pos, tile_properties_of(t), layer, other);
            } else {
                law_replace_then_get(prev, t.pos, tile_properties_of(t), layer, q);
                let i = choose|i: int| 0 <= i < tiles.len() && (#[trigger] tiles[i]).pos == q;
                assert(init[i].pos == q);
            }
        }
        assert forall|q: TilePos| (forall|i: int| 0 <= i < tiles.len() ==> (#[trigger] tiles[i]).pos != q) implies #[trigger] r.tile_at(
            q,
            layer,
        ) == s.tile_at(q, layer) by {
            assert(tiles[tiles.len() - 1].pos != q);
            law_replace_then_get(prev, t.pos, tile_properties_of(t), layer, q);
            assert forall|i: int| 0 <= i < init.len() implies (#[trigger] init[i]).pos != q by {
                assert(tiles[i].pos != q);
            }
        }
    }
}

/// Loading a level into a layer that a map shows leaves a tile at every
/// position of the level that lies in the map, and none anywhere else.
pub proof fn law_load_places_level(s: StorageView, tiles: Seq<SerializableTile>, layer: Layer, q: TilePos)
    requires
        s.well_formed(),
        first_layer(s.maps, layer) is Some,
    ensures
        (exists|i: int| 0 <= i < tiles.len() && (#[trigger] tiles[i]).pos == q) && within_bounds(
            q,
            s.maps[first_layer(s.maps, layer)->0].size,
        ) ==> replace_all(s.clear(layer), tiles, layer).tile_at(q, layer) is Some,
        (forall|i: int| 0 <= i < tiles.len() ==> (#[trigger] tiles[i]).pos != q) ==> replace_all(
            s.clear(layer),
            tiles,
            layer,
        ).tile_at(q, layer) is None,
{
    lemma_clear_keeps_maps(s, layer);
    let c = s.clear(layer);
    lemma_first_layer(s.maps, layer);
    assert(c.maps[first_layer(s.maps, layer)->0].size == s.maps[first_layer(s.maps, layer)->0].size);
    lemma_replace_all(c, tiles, layer);
    law_clear_empties(s, layer, q);
}

/// Replacing the tiles of `tiles`, at different positions, into a layer
/// that held no tile: every placed entity is one of those made on the way,
/// and each tile that lies in the map reads back its own properties.
proof fn lemma_replace_all_properties(c: StorageView, tiles: Seq<SerializableTile>, layer: Layer)
    requires
        c.well_formed(),
        first_layer(c.maps, layer) is Some,
        forall|q: TilePos| #[trigger] c.tile_at(q, layer) is None,
        forall|a: int, b: int| 0 <= a < b < tiles.len() ==> (#[trigger] tiles[a]).pos != (#[trigger] tiles[b]).pos,
        c.next + tiles.len() <= u64::MAX,
    ensures
        replace_all(c, tiles, layer).next == c.next + tiles.len(),
        forall|q: TilePos| #[trigger] replace_all(c, tiles, layer).tile_at(q, layer) matches Some(e) ==> c.next <= e < c.next
            + tiles.len(),
        forall|i: int| 0 <= i < tiles.len() && within_bounds(tiles[i].pos, c.maps[first_layer(c.maps, layer)->0].size)
            ==> #[trigger] replace_all(c, tiles, layer).properties_at(tiles[i].pos, layer) == Some(tile_properties_of(tiles[i])),
    decreases tiles.len(),
{
    if tiles.len() > 0 {
        let init = tiles.drop_last();
        let t = tiles.last();
        assert forall|a: int, b: int| 0 <= a < b < init.len() implies (#[trigger] init[a]).pos != (#[trigger] init[b]).pos by {
            assert(init[a] == tiles[a] && init[b] == tiles[b]);
        }
        lemma_replace_all_properties(c, init, layer);
        lemma_replace_all(c, init, layer);
        let prev = replace_all(c, init, layer);
        let r = replace_all(c, tiles, layer);
        let i0 = first_layer(c.maps, layer)->0;
        lemma_first_layer(c.maps, layer);
        assert(prev.maps[i0].size == c.maps[i0].size);
        assert(r == prev.replace(t.pos, tile_properties_of(t), layer));
        assert(r.properties == prev.properties.insert(prev.next, tile_properties_of(t)));
        assert(r.next == following(prev.next));
        assert forall|q: TilePos| #[trigger] r.tile_at(q, layer) is Some implies c.next <= r.tile_at(q, layer)->0 < c.next + tiles.len() by {
            if q == t.pos {
                let other = TilePos { x: q.x, y: if q.y == 0 { 1 } else { 0 } };
                law_replace_then_get(prev, t.pos, tile_properties_of(t), layer, other);
                if !within_bounds(q, prev.maps[i0].size) {
                    lemma_edits_keep_maps(prev, t.pos, tile_properties_of(t), layer);
                    assert(first_layer(r.maps, layer) == Some(i0));
                    assert(r.maps[i0].size == prev.maps[i0].size);
                }
            } else {
                law_replace_then_get(prev, t.pos, tile_properties_of(t), layer, q);
                assert(prev.tile_at(q, layer) == r.tile_at(q, layer));
            }
        }
        assert forall|i: int| 0 <= i < tiles.len() && within_bounds(tiles[i].pos, c.maps[i0].size)
            implies #[trigger] r.properties_at(tiles[i].pos, layer) == Some(tile_properties_of(tiles[i])) by {
            if i == tiles.len() - 1 {
                let other = TilePos { x: t.pos.x, y: if t.pos.y == 0 { 1 } else { 0 } };
                law_replace_then_get(prev, t.pos, tile_properties_of(t), layer, other);
            } else {
                assert(init[i] == tiles[i]);
                assert(tiles[i].pos != tiles[tiles.len() - 1].pos);
                law_replace_then_get(prev, t.pos, tile_properties_of(t), layer, tiles[i].pos);
                assert(prev.properties_at(init[i].pos, layer) == Some(tile_properties_of(init[i])));
                let e = prev.tile_at(tiles[i].pos, layer)->0;
                assert(e < prev.next);
            }
        }
    }
}

/// Saving the placed tiles of a level and loading the saved records into a
/// layer that a map shows gives back, at every saved position in the map,
/// a tile with the saved image and mirroring. The tiles of the level are at
/// different positions, and the load makes fewer new tile entities than
/// the entity counter has left.
pub proof fn law_save_then_load(
    s: StorageView,
    placed: Seq<(TilePos, TileTextureIndex, TileFlip)>,
    layer: Layer,
    i: int,
)
    requires
        s.well_formed(),
        first_layer(s.maps, layer) is Some,
        forall|a: int, b: int| 0 <= a < b < placed.len() ==> (#[trigger] placed[a]).0 != (#[trigger] placed[b]).0,
        s.next + placed.len() <= u64::MAX,
        0 <= i < placed.len(),
        within_bounds(placed[i].0, s.maps[first_layer(s.maps, layer)->0].size),
    ensures
        replace_all(s.clear(layer), saved_tiles(placed), layer).properties_at(placed[i].0, layer) == Some(
            TileProperties { id: placed[i].1, flip: placed[i].2 },
        ),
{
    let tiles = saved_tiles(placed);
    lemma_clear_keeps_maps(s, layer);
    let c = s.clear(layer);
    lemma_first_layer(s.maps, layer);
    assert(c.maps[first_layer(s.maps, layer)->0].size == s.maps[first_layer(s.maps, layer)->0].size);
    assert forall|q: TilePos| #[trigger] c.tile_at(q, layer) is None by {
        law_clear_empties(s, layer, q);
    }
    assert forall|a: int, b: int| 0 <= a < b < tiles.len() implies (#[trigger] tiles[a]).pos != (#[trigger] tiles[b]).pos by {
        assert(placed[a].0 != placed[b].0);
    }
    assert(c.next == s.next);
    lemma_replace_all_properties(c, tiles, layer);
    assert(tiles[i].pos == placed[i].0);
}

} // verus!
