use sandbox::editor::palette::Rgba;
use sandbox::level::layer::Layer;
use sandbox::level::placement::{
    layer_color, StorageAccess, TileModification, TileProperties, TileSpawn, TileUpdateEvent, TilemapLayer,
};
use sandbox::level::SpawnMapCommand;
use sandbox::tilemap::{TileFlip, TilePos, TileStorage, TileTextureIndex, TilemapSize};

fn props(id: u32) -> TileProperties {
    TileProperties { id: TileTextureIndex(id), flip: TileFlip { x: false, y: false, d: false } }
}

fn map(entity: u64, layer: Layer) -> TilemapLayer {
    TilemapLayer { entity, storage: TileStorage::empty(TilemapSize { x: 4, y: 4 }), layer }
}

fn access() -> StorageAccess {
    StorageAccess::new(vec![map(100, Layer::World), map(101, Layer::Near), map(102, Layer::Far)], vec![], 1000)
}

fn pos(x: u32, y: u32) -> TilePos {
    TilePos { x, y }
}

#[test]
fn replace_places_new_entity_and_reports_it() {
    let mut s = access();
    s.replace(&pos(1, 2), props(0), Layer::World);
    assert_eq!(s.get(&pos(1, 2), Layer::World), Some(1000));
    assert_eq!(s.get_properties(&pos(1, 2), Layer::World), Some(props(0)));
    assert_eq!(s.get(&pos(1, 2), Layer::Near), None);
    assert_eq!(
        s.take_events(),
        vec![TileUpdateEvent { modification: TileModification::Added { old: None, new: 1000 } }]
    );
    assert_eq!(
        s.take_spawns(),
        vec![TileSpawn {
            entity: 1000,
            pos: pos(1, 2),
            tilemap: 100,
            properties: props(0),
            color: Rgba { r: 0, g: 0, b: 0, a: 255 },
        }]
    );
    assert!(s.take_despawned().is_empty());
}

#[test]
fn replace_twice_removes_the_first_tile() {
    let mut s = access();
    s.replace(&pos(0, 0), props(0), Layer::Near);
    s.replace(&pos(0, 0), props(1), Layer::Near);
    assert_eq!(s.get(&pos(0, 0), Layer::Near), Some(1001));
    assert_eq!(s.get_properties(&pos(0, 0), Layer::Near), Some(props(1)));
    assert_eq!(
        s.take_events(),
        vec![
            TileUpdateEvent { modification: TileModification::Added { old: None, new: 1000 } },
            TileUpdateEvent { modification: TileModification::Removed { old: 1000 } },
            TileUpdateEvent { modification: TileModification::Added { old: Some(1000), new: 1001 } },
        ]
    );
    assert_eq!(s.take_despawned(), vec![1000]);
    let spawns = s.take_spawns();
    assert_eq!(spawns.len(), 2);
    assert_eq!(spawns[1].tilemap, 101);
    assert_eq!(spawns[1].color, Rgba { r: 0, g: 127, b: 0, a: 127 });
}

#[test]
fn remove_clears_and_reports() {
    let mut s = access();
    s.replace(&pos(3, 3), props(2), Layer::Far);
    s.take_events();
    s.remove(&pos(3, 3), Layer::Far);
    assert_eq!(s.get(&pos(3, 3), Layer::Far), None);
    assert_eq!(s.get_properties(&pos(3, 3), Layer::Far), None);
    assert_eq!(s.take_events(), vec![TileUpdateEvent { modification: TileModification::Removed { old: 1000 } }]);
    assert_eq!(s.take_despawned(), vec![1000]);
}

#[test]
fn remove_of_empty_position_does_nothing() {
    let mut s = access();
    s.remove(&pos(2, 2), Layer::World);
    assert!(s.take_events().is_empty());
    assert!(s.take_despawned().is_empty());
}

#[test]
fn try_place_needs_a_tile_and_keeps_the_old_entity() {
    let mut s = access();
    s.try_place(&pos(1, 1), props(3), Layer::World);
    assert_eq!(s.get(&pos(1, 1), Layer::World), None);
    assert!(s.take_events().is_empty());
    assert!(s.take_spawns().is_empty());

    s.replace(&pos(1, 1), props(0), Layer::World);
    s.take_events();
    s.try_place(&pos(1, 1), props(3), Layer::World);
    assert_eq!(s.get(&pos(1, 1), Layer::World), Some(1001));
    assert_eq!(s.get_properties(&pos(1, 1), Layer::World), Some(props(3)));
    assert_eq!(
        s.take_events(),
        vec![TileUpdateEvent { modification: TileModification::Added { old: None, new: 1001 } }]
    );
    assert!(s.take_despawned().is_empty());
}

#[test]
fn clear_despawns_in_storage_order_without_events() {
    let mut s = access();
    s.replace(&pos(0, 1), props(0), Layer::World);
    s.replace(&pos(3, 0), props(0), Layer::World);
    s.replace(&pos(2, 2), props(0), Layer::Near);
    s.take_events();
    s.clear(Layer::World);
    assert_eq!(s.get(&pos(0, 1), Layer::World), None);
    assert_eq!(s.get(&pos(3, 0), Layer::World), None);
    assert_eq!(s.get(&pos(2, 2), Layer::Near), Some(1002));
    assert_eq!(s.take_despawned(), vec![1001, 1000]);
    assert!(s.take_events().is_empty());
}

#[test]
fn layer_without_map_is_left_alone() {
    let mut s = StorageAccess::new(vec![map(7, Layer::World)], vec![], 5);
    s.replace(&pos(0, 0), props(0), Layer::Far);
    assert_eq!(s.get(&pos(0, 0), Layer::Far), None);
    assert_eq!(s.tilemap_entity(Layer::Far), None);
    assert_eq!(s.tilemap_entity(Layer::World), Some(7));
    assert_eq!(s.transform_size(Layer::World), Some(TilemapSize { x: 4, y: 4 }));
    assert!(s.storage(Layer::Near).is_none());
    assert!(s.take_events().is_empty());
}

#[test]
fn known_properties_are_read_back() {
    let mut storage = TileStorage::empty(TilemapSize { x: 2, y: 2 });
    storage.set(&pos(1, 0), 55);
    let layers = vec![TilemapLayer { entity: 1, storage, layer: Layer::World }];
    let s = StorageAccess::new(layers, vec![(55, props(4)), (56, props(2))], 60);
    assert_eq!(s.get(&pos(1, 0), Layer::World), Some(55));
    assert_eq!(s.get_properties(&pos(1, 0), Layer::World), Some(props(4)));
    assert_eq!(s.get_properties(&pos(0, 0), Layer::World), None);
}

#[test]
fn place_then_get_leaves_other_positions() {
    let mut s = access();
    s.replace(&pos(2, 1), props(0), Layer::World);
    s.replace(&pos(2, 2), props(1), Layer::World);
    assert_eq!(s.get(&pos(2, 1), Layer::World), Some(1000));
    assert_eq!(s.get(&pos(2, 2), Layer::World), Some(1001));
    s.remove(&pos(2, 2), Layer::World);
    assert_eq!(s.get(&pos(2, 1), Layer::World), Some(1000));
}

#[test]
fn entity_counter_wraps_at_the_top() {
    let mut s = StorageAccess::new(vec![map(1, Layer::World)], vec![], u64::MAX);
    s.replace(&pos(0, 0), props(0), Layer::World);
    s.replace(&pos(1, 0), props(0), Layer::World);
    assert_eq!(s.get(&pos(0, 0), Layer::World), Some(u64::MAX));
    assert_eq!(s.get(&pos(1, 0), Layer::World), Some(0));
}

#[test]
fn layer_colors() {
    assert_eq!(layer_color(Layer::World), Rgba { r: 0, g: 0, b: 0, a: 255 });
    assert_eq!(layer_color(Layer::Near), Rgba { r: 0, g: 127, b: 0, a: 127 });
    assert_eq!(layer_color(Layer::Far), Rgba { r: 127, g: 0, b: 0, a: 63 });
}

#[test]
fn spawn_map_makes_three_empty_layers() {
    let cmd = SpawnMapCommand::new(3, 16);
    let layers = cmd.layers([10, 11, 12]);
    assert_eq!(layers.len(), 3);
    assert_eq!(layers[0].layer, Layer::World);
    assert_eq!(layers[1].layer, Layer::Near);
    assert_eq!(layers[2].layer, Layer::Far);
    assert_eq!(layers[2].entity, 12);
    assert_eq!(layers[1].storage.size(), TilemapSize { x: 3, y: 3 });
    assert_eq!(layers[0].storage.iter().len(), 9);
    assert!(layers[0].storage.iter().iter().all(|t| t.is_none()));
}

#[test]
fn into_layers_gives_the_maps_back() {
    let mut s = access();
    s.replace(&pos(1, 1), props(0), Layer::Far);
    let layers = s.into_layers();
    assert_eq!(layers.len(), 3);
    assert_eq!(layers[2].storage.get(&pos(1, 1)), Some(1000));
}
