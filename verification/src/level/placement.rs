use vstd::prelude::*;

use std::collections::HashMap;

use crate::editor::palette::Rgba;
use crate::level::layer::Layer;
use crate::tilemap::{
    TileFlip, TilePos, TileStorage, TileTextureIndex, TilemapSize, within_bounds, tile_index,
    lemma_tile_index_in_range, lemma_tile_index_injective,
};

verus! {

broadcast use vstd::std_specs::hash::group_hash_axioms;

/// The image and mirroring of a placed tile.
#[derive(Clone, Copy, Debug, PartialEq, Eq, Structural, Default)]
pub struct TileProperties {
    pub id: TileTextureIndex,
    pub flip: TileFlip,
}

/// A change of the tiles: one placed (replacing `old`, if any) or one removed.
#[derive(Clone, Copy, Debug, PartialEq, Eq, Structural)]
pub enum TileModification {
    Added { old: Option<u64>, new: u64 },
    Removed { old: u64 },
}

/// Sent for every tile placed or removed.
#[derive(Clone, Copy, Debug, PartialEq, Eq, Structural)]
pub struct TileUpdateEvent {
    pub modification: TileModification,
}

/// A tile entity to be made: where it stands, on which tile map, and how it
/// is drawn.
#[derive(Clone, Copy, Debug, PartialEq, Eq, Structural)]
pub struct TileSpawn {
    pub entity: u64,
    pub pos: TilePos,
    pub tilemap: u64,
    pub properties: TileProperties,
    pub color: Rgba,
}

/// One tile map: its entity, the tiles placed on it and the layer it shows.
pub struct TilemapLayer {
    pub entity: u64,
    pub storage: TileStorage,
    pub layer: Layer,
}

/// The tint that tiles of a layer are drawn with.
pub open spec fn spec_layer_color(layer: Layer) -> Rgba {
    match layer {
        Layer::World => Rgba { r: 0, g: 0, b: 0, a: 255 },
        Layer::Near => Rgba { r: 0, g: 127, b: 0, a: 127 },
        Layer::Far => Rgba { r: 127, g: 0, b: 0, a: 63 },
    }
}

pub fn layer_color(layer: Layer) -> (c: Rgba)
    ensures
        c == spec_layer_color(layer),
{
    match layer {
        Layer::World => Rgba { r: 0, g: 0, b: 0, a: 255 },
        Layer::Near => Rgba { r: 0, g: 127, b: 0, a: 127 },
        Layer::Far => Rgba { r: 127, g: 0, b: 0, a: 63 },
    }
}

/// A tile map as a value: entity, layer, size and the entity of every slot,
/// row by row.
#[verifier::ext_equal]
pub struct MapView {
    pub entity: u64,
    pub layer: Layer,
    pub size: TilemapSize,
    pub slots: Seq<Option<u64>>,
}

impl MapView {
    /// One slot per position of the map.
    pub open spec fn well_formed(self) -> bool {
        self.slots.len() == self.size.x * self.size.y
    }

    /// The entity at `pos`, if `pos` lies in the map and holds one.
    pub open spec fn entity_at(self, pos: TilePos) -> Option<u64> {
        if within_bounds(pos, self.size) {
            self.slots[tile_index(pos, self.size)]
        } else {
            None
        }
    }

    /// The map with the slot of `pos` set to `value`; positions outside the
    /// map change nothing.
    pub open spec fn with_slot(self, pos: TilePos, value: Option<u64>) -> MapView {
        if within_bounds(pos, self.size) {
            MapView { slots: self.slots.update(tile_index(pos, self.size), value), ..self }
        } else {
            self
        }
    }
}

/// The view of a tile map.
pub open spec fn map_view(l: TilemapLayer) -> MapView {
    MapView { entity: l.entity, layer: l.layer, size: l.storage.map_size(), slots: l.storage.slots() }
}

/// Index of the first tile map that shows `layer`.
pub open spec fn first_layer(ls: Seq<MapView>, layer: Layer) -> Option<int>
    decreases ls.len(),
{
    if ls.len() == 0 {
        None
    } else {
        match first_layer(ls.drop_last(), layer) {
            Some(i) => Some(i),
            None => if ls.last().layer == layer {
                Some(ls.len() - 1)
            } else {
                None
            },
        }
    }
}

/// The first map showing a layer is the lowest index showing it.
pub proof fn lemma_first_layer(ls: Seq<MapView>, layer: Layer)
    ensures
        first_layer(ls, layer) matches Some(i) ==> 0 <= i < ls.len() && ls[i].layer == layer && forall|j: int|
            0 <= j < i ==> (#[trigger] ls[j]).layer != layer,
        first_layer(ls, layer) is None ==> forall|j: int| 0 <= j < ls.len() ==> (#[trigger] ls[j]).layer != layer,
    decreases ls.len(),
{
    if ls.len() > 0 {
        lemma_first_layer(ls.drop_last(), layer);
        assert forall|j: int| 0 <= j < ls.len() - 1 implies ls.drop_last()[j] == ls[j] by {}
    }
}

/// Two lists of tile maps that show the same layers in the same order find
/// the same first map for every layer.
pub proof fn lemma_first_layer_same_layers(a: Seq<MapView>, b: Seq<MapView>, layer: Layer)
    requires
        a.len() == b.len(),
        forall|j: int| 0 <= j < a.len() ==> (#[trigger] b[j]).layer == a[j].layer,
    ensures
        first_layer(a, layer) == first_layer(b, layer),
    decreases a.len(),
{
    if a.len() > 0 {
        assert forall|j: int| 0 <= j < a.len() - 1 implies (#[trigger] b.drop_last()[j]).layer == a.drop_last()[j].layer by {
            assert(b.drop_last()[j] == b[j]);
            assert(a.drop_last()[j] == a[j]);
        }
        lemma_first_layer_same_layers(a.drop_last(), b.drop_last(), layer);
        assert(b[a.len() - 1].layer == a[a.len() - 1].layer);
    }
}

/// The entity counted after `e`, wrapping around at the top.
pub open spec fn following(e: u64) -> u64 {
    if e == u64::MAX {
        0
    } else {
        (e + 1) as u64
    }
}

/// The map from the pairs in `pairs`, a later pair of a key winning.
pub open spec fn pairs_map(pairs: Seq<(u64, TileProperties)>) -> Map<u64, TileProperties>
    decreases pairs.len(),
{
    if pairs.len() == 0 {
        Map::empty()
    } else {
        pairs_map(pairs.drop_last()).insert(pairs.last().0, pairs.last().1)
    }
}

/// The entities in `slots`, in order, skipping the empty slots.
pub open spec fn placed_entities(slots: Seq<Option<u64>>) -> Seq<u64>
    decreases slots.len(),
{
    if slots.len() == 0 {
        Seq::empty()
    } else {
        placed_entities(slots.drop_last()) + match slots.last() {
            Some(e) => seq![e],
            None => Seq::empty(),
        }
    }
}

/// The state of a `StorageAccess` as a value: the tile maps, the properties
/// of the tile entities, and what is queued for the world (update events,
/// entities to despawn, entities to make), with the entity the next placed
/// tile gets.
#[verifier::ext_equal]
pub struct StorageView {
    pub maps: Seq<MapView>,
    pub properties: Map<u64, TileProperties>,
    pub events: Seq<TileUpdateEvent>,
    pub despawns: Seq<u64>,
    pub spawns: Seq<TileSpawn>,
    pub next: u64,
}

impl StorageView {
    /// Every map has one slot per position.
    pub open spec fn well_formed(self) -> bool {
        forall|i: int| 0 <= i < self.maps.len() ==> (#[trigger] self.maps[i]).well_formed()
    }

    /// The tile entity at `pos` of the first map showing `layer`.
    pub open spec fn tile_at(self, pos: TilePos, layer: Layer) -> Option<u64> {
        match first_layer(self.maps, layer) {
            Some(i) => self.maps[i].entity_at(pos),
            None => None,
        }
    }

    /// The properties of the tile at `pos` of `layer`, where they are known.
    pub open spec fn properties_at(self, pos: TilePos, layer: Layer) -> Option<TileProperties> {
        match self.tile_at(pos, layer) {
            Some(e) => if self.properties.contains_key(e) {
                Some(self.properties[e])
            } else {
                None
            },
            None => None,
        }
    }

    /// The maps with `e` placed at `pos` in every map showing `layer`.
    pub open spec fn placed_maps(maps: Seq<MapView>, pos: TilePos, layer: Layer, e: u64) -> Seq<MapView> {
        Seq::new(
            maps.len(),
            |j: int|
                if maps[j].layer == layer {
                    maps[j].with_slot(pos, Some(e))
                } else {
                    maps[j]
                },
        )
    }

    /// A new tile entity, the next one, made for `pos` of `layer` and placed
    /// there in every map showing `layer`; nothing where no map shows it.
    /// Returns the new state and the entity placed.
    pub open spec fn set_unchecked(self, pos: TilePos, props: TileProperties, layer: Layer) -> (StorageView, Option<u64>) {
        match first_layer(self.maps, layer) {
            None => (self, None),
            Some(i) => (
                StorageView {
                    maps: Self::placed_maps(self.maps, pos, layer, self.next),
                    properties: self.properties.insert(self.next, props),
                    spawns: self.spawns.push(
                        TileSpawn {
                            entity: self.next,
                            pos,
                            tilemap: self.maps[i].entity,
                            properties: props,
                            color: spec_layer_color(layer),
                        },
                    ),
                    next: following(self.next),
                    ..self
                },
                Some(self.next),
            ),
        }
    }

    /// The tile at `pos` of the first map showing `layer` cleared and queued
    /// for despawning. Returns the new state and the entity removed.
    pub open spec fn despawn(self, pos: TilePos, layer: Layer) -> (StorageView, Option<u64>) {
        match first_layer(self.maps, layer) {
            None => (self, None),
            Some(i) => match self.maps[i].entity_at(pos) {
                None => (self, None),
                Some(e) => (
                    StorageView {
                        maps: self.maps.update(i, self.maps[i].with_slot(pos, None)),
                        despawns: self.despawns.push(e),
                        ..self
                    },
                    Some(e),
                ),
            },
        }
    }

    /// `despawn`, reporting the removed tile.
    pub open spec fn remove(self, pos: TilePos, layer: Layer) -> StorageView {
        match self.despawn(pos, layer) {
            (s, Some(old)) => StorageView {
                events: s.events.push(TileUpdateEvent { modification: TileModification::Removed { old } }),
                ..s
            },
            (s, None) => s,
        }
    }

    /// A tile placed and reported, but only where a tile already is.
    pub open spec fn try_place(self, pos: TilePos, props: TileProperties, layer: Layer) -> StorageView {
        if self.tile_at(pos, layer) is None {
            self
        } else {
            match self.set_unchecked(pos, props, layer) {
                (s, Some(new)) => StorageView {
                    events: s.events.push(TileUpdateEvent { modification: TileModification::Added { old: None, new } }),
                    ..s
                },
                (s, None) => s,
            }
        }
    }

    /// The tile at `pos` of `layer` removed, where there is one, and a new
    /// one placed and reported.
    pub open spec fn replace(self, pos: TilePos, props: TileProperties, layer: Layer) -> StorageView {
        let old = self.tile_at(pos, layer);
        let s = if old is Some {
            self.remove(pos, layer)
        } else {
            self
        };
        match s.set_unchecked(pos, props, layer) {
            (t, Some(new)) => StorageView {
                events: t.events.push(TileUpdateEvent { modification: TileModification::Added { old, new } }),
                ..t
            },
            (t, None) => t,
        }
    }

    /// Every tile of the first map showing `layer` removed and queued for
    /// despawning, in storage order, with no update event.
    pub open spec fn clear(self, layer: Layer) -> StorageView {
        match first_layer(self.maps, layer) {
            None => self,
            Some(i) => StorageView {
                maps: self.maps.update(
                    i,
                    MapView { slots: Seq::new(self.maps[i].slots.len(), |k: int| None::<u64>), ..self.maps[i] },
                ),
                despawns: self.despawns + placed_entities(self.maps[i].slots),
                ..self
            },
        }
    }
}

/// Access to the placed tiles of every layer: placing, replacing, removing
/// and clearing tiles, with the update events, despawned entities and made
/// entities that these produce.
pub struct StorageAccess {
    layers: Vec<TilemapLayer>,
    tile_properties: HashMap<u64, TileProperties>,
    events: Vec<TileUpdateEvent>,
    despawned: Vec<u64>,
    spawns: Vec<TileSpawn>,
    next_entity: u64,
}

impl View for StorageAccess {
    type V = StorageView;

    closed spec fn view(&self) -> StorageView {
        StorageView {
            maps: self.layers@.map_values(|l: TilemapLayer| map_view(l)),
            properties: self.tile_properties@,
            events: self.events@,
            despawns: self.despawned@,
            spawns: self.spawns@,
            next: self.next_entity,
        }
    }
}

impl StorageAccess {
    /// Access to `layers`, whose tiles have the given properties; placed
    /// tiles get entities counting up from `first_entity`.
    pub fn new(layers: Vec<TilemapLayer>, properties: Vec<(u64, TileProperties)>, first_entity: u64) -> (s: StorageAccess)
        ensures
            s@ == (StorageView {
                maps: layers@.map_values(|l: TilemapLayer| map_view(l)),
                properties: pairs_map(properties@),
                events: Seq::empty(),
                despawns: Seq::empty(),
                spawns: Seq::empty(),
                next: first_entity,
            }),
    {
        let mut tile_properties: HashMap<u64, TileProperties> = HashMap::new();
        let mut k: usize = 0;
        while k < properties.len()
            invariant
                k <= properties@.len(),
                tile_properties@ == pairs_map(properties@.take(k as int)),
            decreases properties@.len() - k,
        {
            let (e, p) = properties[k];
            tile_properties.insert(e, p);
            assert(properties@.take(k + 1).drop_last() =~= properties@.take(k as int));
            k = k + 1;
        }
        assert(properties@.take(k as int) =~= properties@);
        StorageAccess {
            layers,
            tile_properties,
            events: Vec::new(),
            despawned: Vec::new(),
            spawns: Vec::new(),
            next_entity: first_entity,
        }
    }

    fn layer_index(&self, layer: Layer) -> (r: Option<usize>)
        ensures
            r matches Some(i) ==> first_layer(self@.maps, layer) == Some(i as int) && i < self@.maps.len(),
            r is None ==> first_layer(self@.maps, layer) is None,
    {
        proof { lemma_first_layer(self@.maps, layer); }
        let mut i: usize = 0;
        while i < self.layers.len()
            invariant
                i <= self.layers@.len(),
                self@.maps.len() == self.layers@.len(),
                forall|j: int| 0 <= j < i ==> (#[trigger] self@.maps[j]).layer != layer,
            decreases self.layers@.len() - i,
        {
            assert(self@.maps[i as int] == map_view(self.layers@[i as int]));
            if self.layers[i].layer == layer {
                assert(self@.maps[i as int].layer == layer);
                proof {
                    lemma_first_layer(self@.maps, layer);
                    if let Some(k) = first_layer(self@.maps, layer) {
                        assert(k == i as int);
                    }
                }
                return Some(i);
            }
            i = i + 1;
        }
        proof { lemma_first_layer(self@.maps, layer); }
        None
    }

    /// The entity of the first tile map showing `layer`.
    pub fn tilemap_entity(&self, layer: Layer) -> (r: Option<u64>)
        ensures
            r == (match first_layer(self@.maps, layer) {
                Some(i) => Some(self@.maps[i].entity),
                None => None,
            }),
    {
        match self.layer_index(layer) {
            Some(i) => Some(self.layers[i].entity),
            None => None,
        }
    }

    /// The tiles of the first tile map showing `layer`.
    pub fn storage(&self, layer: Layer) -> (r: Option<&TileStorage>)
        ensures
            r is Some <==> first_layer(self@.maps, layer) is Some,
            r matches Some(s) ==> {
                let m = self@.maps[first_layer(self@.maps, layer)->0];
                &&& s.slots() == m.slots
                &&& s.map_size() == m.size
            },
    {
        match self.layer_index(layer) {
            Some(i) => Some(&self.layers[i].storage),
            None => None,
        }
    }

    /// The map size of the first tile map showing `layer`.
    pub fn transform_size(&self, layer: Layer) -> (r: Option<TilemapSize>)
        ensures
            r == (match first_layer(self@.maps, layer) {
                Some(i) => Some(self@.maps[i].size),
                None => None,
            }),
    {
        match self.layer_index(layer) {
            Some(i) => Some(self.layers[i].storage.size()),
            None => None,
        }
    }

    pub fn get(&self, pos: &TilePos, layer: Layer) -> (r: Option<u64>)
        requires
            self@.well_formed(),
        ensures
            r == self@.tile_at(*pos, layer),
    {
        match self.layer_index(layer) {
            Some(i) => {
                assert(self@.maps[i as int].well_formed());
                self.layers[i].storage.get(pos)
            },
            None => None,
        }
    }

    pub fn get_properties(&self, pos: &TilePos, layer: Layer) -> (r: Option<TileProperties>)
        requires
            self@.well_formed(),
        ensures
            r == self@.properties_at(*pos, layer),
    {
        match self.get(pos, layer) {
            Some(e) => match self.tile_properties.get(&e) {
                Some(p) => Some(*p),
                None => None,
            },
            None => None,
        }
    }

    /// Makes a tile entity, the next one, for `pos` of `layer` and places it
    /// there in every map showing `layer`, if there is one.
    fn set_unchecked(&mut self, pos: &TilePos, tile_properties: TileProperties, layer: Layer) -> (r: Option<u64>)
        requires
            old(self)@.well_formed(),
        ensures
            final(self)@.well_formed(),
            (final(self)@, r) == old(self)@.set_unchecked(*pos, tile_properties, layer),
    {
        let k = match self.layer_index(layer) {
            Some(k) => k,
            None => return None,
        };
        let ghost start = self@;
        let new = self.next_entity;
        self.next_entity = if new == u64::MAX { 0 } else { new + 1 };
        let color = layer_color(layer);
        self.spawns.push(TileSpawn { entity: new, pos: *pos, tilemap: self.layers[k].entity, properties: tile_properties, color });
        self.tile_properties.insert(new, tile_properties);
        let ghost goal = StorageView::placed_maps(start.maps, *pos, layer, new);
        let mut i: usize = 0;
        while i < self.layers.len()
            invariant
                i <= self.layers@.len(),
                self.layers@.len() == start.maps.len(),
                start.well_formed(),
                goal == StorageView::placed_maps(start.maps, *pos, layer, new),
                forall|j: int| 0 <= j < i ==> map_view(#[trigger] self.layers@[j]) == goal[j],
                forall|j: int| i <= j < self.layers@.len() ==> map_view(#[trigger] self.layers@[j]) == start.maps[j],
                self.tile_properties@ == start.properties.insert(new, tile_properties),
                self.events@ == start.events,
                self.despawned@ == start.despawns,
                self.spawns@ == start.spawns.push(
                    TileSpawn {
                        entity: new,
                        pos: *pos,
                        tilemap: start.maps[k as int].entity,
                        properties: tile_properties,
                        color: spec_layer_color(layer),
                    },
                ),
                self.next_entity == following(new),
                k < start.maps.len(),
            decreases self.layers@.len() - i,
        {
            if self.layers[i].layer == layer {
                let ghost before = self.layers@;
                let mut m = self.layers.remove(i);
                assert(map_view(m) == start.maps[i as int]);
                m.storage.set(pos, new);
                assert(map_view(m) =~= goal[i as int]);
                self.layers.insert(i, m);
                assert forall|j: int| 0 <= j < self.layers@.len() && j != i implies #[trigger] self.layers@[j] == before[j] by {}
            }
            i = i + 1;
        }
        assert(self@.maps =~= goal);
        assert forall|j: int| 0 <= j < goal.len() implies (#[trigger] goal[j]).well_formed() by {
            let m = start.maps[j];
            assert(m.well_formed());
            if m.layer == layer {
                assert(goal[j] == m.with_slot(*pos, Some(new)));
                if within_bounds(*pos, m.size) {
                    lemma_tile_index_in_range(*pos, m.size);
                    assert(m.with_slot(*pos, Some(new)).slots.len() == m.slots.len());
                }
            } else {
                assert(goal[j] == m);
            }
        }
        Some(new)
    }

    /// Removes the tile at `pos` from the first map showing `layer` and
    /// queues its entity for despawning.
    fn despawn(&mut self, pos: &TilePos, layer: Layer) -> (r: Option<u64>)
        requires
            old(self)@.well_formed(),
        ensures
            final(self)@.well_formed(),
            (final(self)@, r) == old(self)@.despawn(*pos, layer),
    {
        let i = match self.layer_index(layer) {
            Some(i) => i,
            None => return None,
        };
        assert(self@.maps[i as int].well_formed());
        let entity = match self.layers[i].storage.get(pos) {
            Some(e) => e,
            None => return None,
        };
        let ghost start = self@;
        let mut m = self.layers.remove(i);
        m.storage.remove(pos);
        assert(map_view(m) =~= start.maps[i as int].with_slot(*pos, None));
        self.layers.insert(i, m);
        self.despawned.push(entity);
        assert(self@.maps =~= start.maps.update(i as int, start.maps[i as int].with_slot(*pos, None)));
        Some(entity)
    }

    /// Removes the tile at `pos` of `layer`, if there is one, and reports it.
    pub fn remove(&mut self, pos: &TilePos, layer: Layer)
        requires
            old(self)@.well_formed(),
        ensures
            final(self)@.well_formed(),
            final(self)@ == old(self)@.remove(*pos, layer),
    {
        if let Some(old) = self.despawn(pos, layer) {
            let ghost mid = self@;
            self.events.push(TileUpdateEvent { modification: TileModification::Removed { old } });
            assert(self@.maps == mid.maps);
        }
    }

    /// Places a tile at `pos` of `layer`, but only where a tile is already
    /// placed: the one there is overwritten in the storage and not despawned.
    pub fn try_place(&mut self, pos: &TilePos, tile_properties: TileProperties, layer: Layer)
        requires
            old(self)@.well_formed(),
        ensures
            final(self)@.well_formed(),
            final(self)@ == old(self)@.try_place(*pos, tile_properties, layer),
    {
        if self.get(pos, layer).is_none() {
            return;
        }
        if let Some(new) = self.set_unchecked(pos, tile_properties, layer) {
            let ghost mid = self@;
            self.events.push(TileUpdateEvent { modification: TileModification::Added { old: None, new } });
            assert(self@.maps == mid.maps);
        }
    }

    /// Places a tile at `pos` of `layer`, removing and reporting the tile that
    /// was there.
    pub fn replace(&mut self, pos: &TilePos, id: TileProperties, layer: Layer)
        requires
            old(self)@.well_formed(),
        ensures
            final(self)@.well_formed(),
            final(self)@ == old(self)@.replace(*pos, id, layer),
    {
        let old = self.get(pos, layer);
        if old.is_some() {
            self.remove(pos, layer);
        }
        if let Some(new) = self.set_unchecked(pos, id, layer) {
            let ghost mid = self@;
            self.events.push(TileUpdateEvent { modification: TileModification::Added { old, new } });
            assert(self@.maps == mid.maps);
        }
    }

    /// Removes every tile of the first map showing `layer` and queues their
    /// entities for despawning, in storage order. No update event is sent.
    pub fn clear(&mut self, layer: Layer)
        requires
            old(self)@.well_formed(),
        ensures
            final(self)@.well_formed(),
            final(self)@ == old(self)@.clear(layer),
    {
        let i = match self.layer_index(layer) {
            Some(i) => i,
            None => return,
        };
        let ghost start = self@;
        assert(start.maps[i as int].well_formed());
        let mut m = self.layers.remove(i);
        let ghost slots0 = m.storage.slots();
        let size = m.storage.size();
        let width = size.x as usize;
        let n = m.storage.iter().len();
        let mut k: usize = 0;
        while k < n
            invariant
                n == slots0.len(),
                k <= n,
                m.storage.well_formed(),
                m.storage.map_size() == size,
                m.storage.slots().len() == n,
                n == size.x * size.y,
                width == size.x,
                forall|j: int| 0 <= j < k ==> (#[trigger] m.storage.slots()[j]) is None,
                forall|j: int| k <= j < n ==> #[trigger] m.storage.slots()[j] == slots0[j],
                self.despawned@ == start.despawns + placed_entities(slots0.take(k as int)),
                m.entity == start.maps[i as int].entity,
                m.layer == start.maps[i as int].layer,
                i < start.maps.len(),
                self.layers@ == old(self).layers@.remove(i as int),
                self.tile_properties@ == start.properties,
                self.events@ == start.events,
                self.spawns@ == start.spawns,
                self.next_entity == start.next,
            decreases n - k,
        {
            proof {
                assert(width > 0) by (nonlinear_arith)
                    requires k < n, n == size.x * size.y, width == size.x;
                vstd::arithmetic::div_mod::lemma_fundamental_div_mod(k as int, width as int);
                assert((k / width) < size.y) by (nonlinear_arith)
                    requires k < size.x * size.y, width == size.x, width > 0;
                assert((k / width) * width + k % width == k) by (nonlinear_arith)
                    requires width > 0, k == width * (k / width) + k % width;
            }
            let pos = TilePos { x: (k % width) as u32, y: (k / width) as u32 };
            assert(tile_index(pos, size) == k);
            let slot = m.storage.iter()[k];
            if let Some(tile) = slot {
                self.despawned.push(tile);
            }
            m.storage.remove(&pos);
            proof {
                assert(slots0.take(k + 1).drop_last() =~= slots0.take(k as int));
                assert(slots0.take(k + 1).last() == slot);
            }
            k = k + 1;
        }
        assert(slots0.take(n as int) =~= slots0);
        assert(map_view(m) =~= MapView { slots: Seq::new(slots0.len(), |k: int| None::<u64>), ..start.maps[i as int] });
        self.layers.insert(i, m);
        assert(self@.maps =~= start.clear(layer).maps);
    }

    /// Takes the update events produced so far.
    pub fn take_events(&mut self) -> (r: Vec<TileUpdateEvent>)
        ensures
            r@ == old(self)@.events,
            final(self)@ == (StorageView { events: Seq::empty(), ..old(self)@ }),
    {
        let mut taken: Vec<TileUpdateEvent> = Vec::new();
        std::mem::swap(&mut taken, &mut self.events);
        taken
    }

    /// Takes the records of the tile entities placed so far, for making them.
    pub fn take_spawns(&mut self) -> (r: Vec<TileSpawn>)
        ensures
            r@ == old(self)@.spawns,
            final(self)@ == (StorageView { spawns: Seq::empty(), ..old(self)@ }),
    {
        let mut taken: Vec<TileSpawn> = Vec::new();
        std::mem::swap(&mut taken, &mut self.spawns);
        taken
    }

    /// Takes the tile entities removed so far, for despawning.
    pub fn take_despawned(&mut self) -> (r: Vec<u64>)
        ensures
            r@ == old(self)@.despawns,
            final(self)@ == (StorageView { despawns: Seq::empty(), ..old(self)@ }),
    {
        let mut taken: Vec<u64> = Vec::new();
        std::mem::swap(&mut taken, &mut self.despawned);
        taken
    }

    /// Gives the tile maps back, with their tiles as they now stand.
    pub fn into_layers(self) -> (r: Vec<TilemapLayer>)
        ensures
            r@.map_values(|l: TilemapLayer| map_view(l)) == self@.maps,
    {
        self.layers
    }
}

/// Setting one slot of a well-formed map makes `pos` read the new value and
/// leaves every other position as it was.
pub proof fn lemma_with_slot(m: MapView, pos: TilePos, value: Option<u64>, other: TilePos)
    requires
        m.well_formed(),
    ensures
        m.with_slot(pos, value).well_formed(),
        m.with_slot(pos, value).size == m.size,
        m.with_slot(pos, value).layer == m.layer,
        m.with_slot(pos, value).entity == m.entity,
        within_bounds(pos, m.size) ==> m.with_slot(pos, value).entity_at(pos) == value,
        other != pos ==> m.with_slot(pos, value).entity_at(other) == m.entity_at(other),
{
    if within_bounds(pos, m.size) {
        lemma_tile_index_in_range(pos, m.size);
        if within_bounds(other, m.size) && other != pos {
            lemma_tile_index_in_range(other, m.size);
            lemma_tile_index_injective(pos, other, m.size);
        }
    }
}

/// Placing and despawning keep the layers of the maps, so the first map of
/// every layer stays the same.
proof fn lemma_ops_keep_layers(s: StorageView, pos: TilePos, props: TileProperties, layer: Layer, l: Layer)
    requires
        s.well_formed(),
    ensures
        first_layer(s.despawn(pos, layer).0.maps, l) == first_layer(s.maps, l),
        first_layer(s.set_unchecked(pos, props, layer).0.maps, l) == first_layer(s.maps, l),
        s.despawn(pos, layer).0.well_formed(),
        s.despawn(pos, layer).0.next == s.next,
{
    let d = s.despawn(pos, layer).0;
    if let Some(i) = first_layer(s.maps, layer) {
        lemma_first_layer(s.maps, layer);
        assert forall|j: int| 0 <= j < s.maps.len() implies (#[trigger] d.maps[j]).layer == s.maps[j].layer
            && d.maps[j].well_formed() by {
            assert(s.maps[j].well_formed());
            if j == i {
                lemma_with_slot(s.maps[j], pos, None, pos);
            }
        }
        lemma_first_layer_same_layers(s.maps, d.maps, l);
    }
    let p = s.set_unchecked(pos, props, layer).0;
    assert forall|j: int| 0 <= j < s.maps.len() implies (#[trigger] p.maps[j]).layer == s.maps[j].layer by {
        if first_layer(s.maps, layer) is Some && s.maps[j].layer == layer {
            assert(s.maps[j].well_formed());
            lemma_with_slot(s.maps[j], pos, Some(s.next), pos);
        }
    }
    lemma_first_layer_same_layers(s.maps, p.maps, l);
}

/// After `replace` at `pos` of a layer that some map shows, reading `pos`
/// of that layer gives the new entity, the next one, with the given
/// properties, where `pos` lies in the map; every other position reads as
/// before; the last update event reports the new tile with the one it
/// replaced.
pub proof fn law_replace_then_get(s: StorageView, pos: TilePos, props: TileProperties, layer: Layer, other: TilePos)
    requires
        s.well_formed(),
        first_layer(s.maps, layer) is Some,
        other != pos,
    ensures
        within_bounds(pos, s.maps[first_layer(s.maps, layer)->0].size) ==> {
            &&& s.replace(pos, props, layer).tile_at(pos, layer) == Some(s.next)
            &&& s.replace(pos, props, layer).properties_at(pos, layer) == Some(props)
        },
        s.replace(pos, props, layer).tile_at(other, layer) == s.tile_at(other, layer),
        s.replace(pos, props, layer).events.last() == (TileUpdateEvent {
            modification: TileModification::Added { old: s.tile_at(pos, layer), new: s.next },
        }),
{
    let i = first_layer(s.maps, layer)->0;
    lemma_first_layer(s.maps, layer);
    let m = if s.tile_at(pos, layer) is Some { s.remove(pos, layer) } else { s };
    lemma_ops_keep_layers(s, pos, props, layer, layer);
    assert(m.maps == s.despawn(pos, layer).0.maps || m == s);
    assert(first_layer(m.maps, layer) == Some(i));
    assert(m.well_formed());
    assert(m.next == s.next);
    lemma_ops_keep_layers(m, pos, props, layer, layer);
    let t = m.set_unchecked(pos, props, layer).0;
    assert(s.replace(pos, props, layer).maps == t.maps);
    assert(s.maps[i].well_formed());
    assert(m.maps[i].well_formed());
    lemma_with_slot(m.maps[i], pos, Some(s.next), other);
    assert(t.maps[i] == m.maps[i].with_slot(pos, Some(s.next)));
    if s.tile_at(pos, layer) is Some {
        lemma_with_slot(s.maps[i], pos, None, other);
        assert(m.maps[i] == s.maps[i].with_slot(pos, None));
    }
}

/// After `remove` at `pos`, `pos` of that layer reads empty and every other
/// position reads as before.
pub proof fn law_remove_then_get(s: StorageView, pos: TilePos, layer: Layer, other: TilePos)
    requires
        s.well_formed(),
        other != pos,
    ensures
        s.remove(pos, layer).tile_at(pos, layer) is None,
        s.remove(pos, layer).tile_at(other, layer) == s.tile_at(other, layer),
        s.tile_at(pos, layer) matches Some(e) ==> s.remove(pos, layer).events.last() == (TileUpdateEvent {
            modification: TileModification::Removed { old: e },
        }) && s.remove(pos, layer).despawns.last() == e,
{
    lemma_ops_keep_layers(s, pos, TileProperties { id: TileTextureIndex(0), flip: TileFlip { x: false, y: false, d: false } }, layer, layer);
    if let Some(i) = first_layer(s.maps, layer) {
        lemma_first_layer(s.maps, layer);
        assert(s.maps[i].well_formed());
        lemma_with_slot(s.maps[i], pos, None, other);
    }
}

/// `try_place` changes nothing where no tile is placed.
pub proof fn law_try_place_needs_tile(s: StorageView, pos: TilePos, props: TileProperties, layer: Layer)
    requires
        s.tile_at(pos, layer) is None,
    ensures
        s.try_place(pos, props, layer) == s,
{
}

/// After `clear`, no position of that layer holds a tile.
pub proof fn law_clear_empties(s: StorageView, layer: Layer, pos: TilePos)
    requires
        s.well_formed(),
    ensures
        s.clear(layer).tile_at(pos, layer) is None,
{
    if let Some(i) = first_layer(s.maps, layer) {
        lemma_first_layer(s.maps, layer);
        let c = s.clear(layer);
        assert forall|j: int| 0 <= j < s.maps.len() implies (#[trigger] c.maps[j]).layer == s.maps[j].layer by {}
        lemma_first_layer_same_layers(s.maps, c.maps, layer);
        if within_bounds(pos, s.maps[i].size) {
            assert(s.maps[i].well_formed());
            lemma_tile_index_in_range(pos, s.maps[i].size);
        }
    }
}

/// `replace` and `remove` keep the maps well formed, their sizes and
/// layers, and so the first map of every layer.
pub proof fn lemma_edits_keep_maps(s: StorageView, pos: TilePos, props: TileProperties, layer: Layer)
    requires
        s.well_formed(),
    ensures
        s.replace(pos, props, layer).well_formed(),
        s.remove(pos, layer).well_formed(),
        s.replace(pos, props, layer).maps.len() == s.maps.len(),
        s.remove(pos, layer).maps.len() == s.maps.len(),
        forall|j: int| 0 <= j < s.maps.len() ==> {
            &&& (#[trigger] s.replace(pos, props, layer).maps[j]).size == s.maps[j].size
            &&& s.replace(pos, props, layer).maps[j].layer == s.maps[j].layer
        },
        forall|j: int| 0 <= j < s.maps.len() ==> {
            &&& (#[trigger] s.remove(pos, layer).maps[j]).size == s.maps[j].size
            &&& s.remove(pos, layer).maps[j].layer == s.maps[j].layer
        },
        forall|l: Layer| #[trigger] first_layer(s.replace(pos, props, layer).maps, l) == first_layer(s.maps, l),
        forall|l: Layer| #[trigger] first_layer(s.remove(pos, layer).maps, l) == first_layer(s.maps, l),
{
    let d = s.despawn(pos, layer).0;
    lemma_first_layer(s.maps, layer);
    assert(s.remove(pos, layer).maps == d.maps);
    assert(d.maps.len() == s.maps.len());
    assert forall|j: int| 0 <= j < s.maps.len() implies (#[trigger] d.maps[j]).size == s.maps[j].size
        && d.maps[j].layer == s.maps[j].layer && d.maps[j].well_formed() by {
        assert(s.maps[j].well_formed());
        lemma_with_slot(s.maps[j], pos, None, pos);
    }
    assert forall|l: Layer| #[trigger] first_layer(s.remove(pos, layer).maps, l) == first_layer(s.maps, l) by {
        lemma_first_layer_same_layers(s.maps, d.maps, l);
    }
    let m = if s.tile_at(pos, layer) is Some { s.remove(pos, layer) } else { s };
    assert(m.well_formed());
    let t = m.set_unchecked(pos, props, layer).0;
    assert(s.replace(pos, props, layer).maps == t.maps);
    assert forall|j: int| 0 <= j < s.maps.len() implies (#[trigger] t.maps[j]).size == s.maps[j].size
        && t.maps[j].layer == s.maps[j].layer && t.maps[j].well_formed() by {
        assert(m.maps[j].well_formed());
        lemma_with_slot(m.maps[j], pos, Some(m.next), pos);
    }
    assert forall|l: Layer| #[trigger] first_layer(s.replace(pos, props, layer).maps, l) == first_layer(s.maps, l) by {
        lemma_first_layer_same_layers(s.maps, t.maps, l);
    }
}

/// `clear` keeps the maps well formed, their sizes and layers, and so the
/// first map of every layer.
pub proof fn lemma_clear_keeps_maps(s: StorageView, layer: Layer)
    requires
        s.well_formed(),
    ensures
        s.clear(layer).well_formed(),
        s.clear(layer).maps.len() == s.maps.len(),
        forall|j: int| 0 <= j < s.maps.len() ==> (#[trigger] s.clear(layer).maps[j]).size == s.maps[j].size,
        forall|l: Layer| #[trigger] first_layer(s.clear(layer).maps, l) == first_layer(s.maps, l),
{
    let c = s.clear(layer);
    lemma_first_layer(s.maps, layer);
    assert forall|j: int| 0 <= j < s.maps.len() implies (#[trigger] c.maps[j]).size == s.maps[j].size
        && c.maps[j].layer == s.maps[j].layer && c.maps[j].well_formed() by {
        assert(s.maps[j].well_formed());
    }
    assert forall|l: Layer| #[trigger] first_layer(c.maps, l) == first_layer(s.maps, l) by {
        lemma_first_layer_same_layers(s.maps, c.maps, l);
    }
}

/// Editing a tile of one layer leaves every other layer's tiles as they
/// were: placing, replacing or removing at `pos` of `layer` changes no
/// position of a layer `l` other than `layer`.
pub proof fn law_edit_leaves_other_layers(s: StorageView, pos: TilePos, props: TileProperties, layer: Layer, l: Layer, q: TilePos)
    requires
        s.well_formed(),
        l != layer,
    ensures
        s.replace(pos, props, layer).tile_at(q, l) == s.tile_at(q, l),
        s.remove(pos, layer).tile_at(q, l) == s.tile_at(q, l),
{
    lemma_edits_keep_maps(s, pos, props, layer);
    lemma_first_layer(s.maps, l);
    lemma_first_layer(s.maps, layer);
    if let Some(j) = first_layer(s.maps, l) {
        let d = s.despawn(pos, layer).0;
        assert(d.maps[j] == s.maps[j]);
        assert(s.remove(pos, layer).maps[j] == s.maps[j]);
        let m = if s.tile_at(pos, layer) is Some { s.remove(pos, layer) } else { s };
        assert(m.maps[j] == s.maps[j]);
        let t = m.set_unchecked(pos, props, layer).0;
        assert(t.maps[j] == m.maps[j]);
        assert(s.replace(pos, props, layer).maps[j] == s.maps[j]);
    }
}

} // verus!
