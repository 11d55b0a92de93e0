use sandbox::editor::palette::parse_palette_images;
use sandbox::editor::tiles::{build_material, is_decodable, tile_image_path, MaterialMeta, TilePixel};
use sandbox::editor::{apply_editor_actions, EditorActions, EditorState};
use sandbox::grid::Grid;
use sandbox::holdable::pick_up;
use sandbox::level::layer::Layer;
use sandbox::level::placement::{StorageAccess, TilemapLayer};
use sandbox::level::serialization::{LevelSerializer, SerializableLevel};
use sandbox::math::IVec2;
use sandbox::phys::spatial::{Aabr, SpatialGrid};
use sandbox::phys::terrain::{handle_platforms, ContactPair, Platform};
use sandbox::text::append_str;
use sandbox::tilemap::{TileFlip, TilePos, TileStorage, TileTextureIndex, TilemapSize};

fn iv(x: i32, y: i32) -> IVec2 {
    IVec2 { x, y }
}

fn rgba_of(p: TilePixel) -> [u8; 4] {
    match p {
        TilePixel::Transparent => [0, 0, 0, 0],
        TilePixel::Up => [255, 0, 0, 255],
        TilePixel::Neutral => [0, 255, 0, 255],
        TilePixel::Down => [0, 0, 255, 255],
    }
}

fn image(pixels: &[TilePixel]) -> Vec<u8> {
    pixels.iter().flat_map(|p| rgba_of(*p)).collect()
}

fn palette_image() -> Vec<u8> {
    vec![255u8; 8 * 128]
}

#[test]
fn tool_cycle_starts_from_any_tool() {
    let mut state = EditorState::new_default();
    state.toolset.add("a");
    state.toolset.add("b");
    state.toolset.add("c");
    state.active_tool = 7;
    let mut ps = parse_palette_images(&vec![palette_image()]);
    apply_editor_actions(&mut state, &mut ps, &vec![EditorActions::CycleTool]);
    assert_eq!(state.active_tool, 2);
    apply_editor_actions(&mut state, &mut ps, &vec![EditorActions::CycleTool, EditorActions::CycleTool]);
    assert_eq!(state.active_tool, 1);
    assert!(state.enabled.inspector);
    assert!(!state.enabled.egui_debug);
}

#[test]
fn material_pixels_come_from_its_images() {
    let mut block = vec![TilePixel::Up; 2000];
    block[3] = TilePixel::Down;
    let mut slope = vec![TilePixel::Transparent; 6400];
    slope[1] = TilePixel::Neutral;
    let meta = MaterialMeta {
        name: "stone".to_string(),
        name_slope: "stone_slope".to_string(),
        layer_repeats: vec![1],
        layer_repeats_slope: vec![1],
    };
    let m = build_material(&image(&block), &image(&slope), &meta);
    assert!(m.block.check_well_formed());
    assert!(m.slope.check_well_formed());
    assert_eq!(m.block.get_pixel(0, 3, &vec![false; 9]), TilePixel::Down);
    assert_eq!(m.block.get_pixel(0, 4, &vec![false; 9]), TilePixel::Up);
    let flip = TileFlip { x: false, y: false, d: false };
    assert_eq!(m.slope.get_pixel(0, 1, flip, &vec![false, false]), TilePixel::Neutral);
    assert_eq!(m.slope.get_pixel(0, 2, flip, &vec![false, false]), TilePixel::Transparent);
}

#[test]
fn small_material_images_cannot_be_drawn_with() {
    let meta = MaterialMeta {
        name: "stone".to_string(),
        name_slope: "stone_slope".to_string(),
        layer_repeats: vec![1],
        layer_repeats_slope: vec![0, 1],
    };
    let m = build_material(&image(&vec![TilePixel::Up; 1500]), &image(&vec![TilePixel::Up; 6400]), &meta);
    assert!(!m.block.check_well_formed());
    assert!(!m.slope.check_well_formed());
}

#[test]
fn decodable_images_use_the_four_colors() {
    assert!(is_decodable(&image(&[TilePixel::Up, TilePixel::Transparent])));
    assert!(!is_decodable(&vec![1, 2, 3, 4]));
    assert!(!is_decodable(&vec![0, 0, 0]));
    assert!(is_decodable(&vec![]));
}

#[test]
fn tile_image_paths() {
    assert_eq!(tile_image_path("stones", "small_stone"), "tiles/stones/small_stone.png");
    assert_eq!(tile_image_path("", ""), "tiles//.png");
    let mut s = "ab".to_string();
    append_str(&mut s, "cd");
    assert_eq!(s, "abcd");
}

#[test]
fn grid_slots_give_positions_and_mutable_cells() {
    let mut g = Grid::new(iv(3, 2), 0i32);
    for i in 0..g.raw().len() {
        let p = g.slot_position(i);
        *g.slot_mut(i) = p.x + 10 * p.y;
    }
    assert_eq!(g.raw(), &[0, 1, 2, 10, 11, 12]);
}

#[test]
fn every_inserted_entity_near_the_area_is_found_once() {
    let mut g: SpatialGrid<4, 6> = SpatialGrid::new(8);
    g.insert(iv(5, 5), 2, 1);
    g.insert(iv(40, 5), 30, 2);
    g.insert(iv(500, 500), 1, 3);
    g.insert(iv(9, 12), 8, 4);
    let found = g.iter_area(Aabr { min: iv(0, 0), max: iv(10, 10) });
    assert!(found.contains(&1));
    assert!(found.contains(&2));
    assert!(found.contains(&4));
    assert!(!found.contains(&3));
    for e in [1u64, 2, 4] {
        assert_eq!(found.iter().filter(|x| **x == e).count(), 1);
    }
    g.clear();
    assert_eq!(g.iter_area(Aabr { min: iv(-100, -100), max: iv(100, 100) }), Vec::<u64>::new());
}

#[test]
fn dropped_contacts_leave_the_entity_passing() {
    let c = |e1: u64, e2: u64, penetrating: bool| ContactPair { e1, e2, penetrating, normal1_up: false, normal2_up: false };
    let mut platforms = vec![(10u64, Platform::new()), (11u64, Platform::new())];
    let kept = handle_platforms(&mut platforms, &vec![1, 2], &vec![c(10, 1, true), c(2, 11, false), c(11, 2, true)]);
    assert_eq!(kept, vec![false, true, false]);
    assert!(platforms[0].1.is_passing(1));
    assert!(platforms[1].1.is_passing(2));
}

fn storage() -> StorageAccess {
    let size = TilemapSize { x: 4, y: 4 };
    let layers = vec![
        TilemapLayer { entity: 1, storage: TileStorage::empty(size), layer: Layer::World },
        TilemapLayer { entity: 2, storage: TileStorage::empty(size), layer: Layer::Near },
    ];
    StorageAccess::new(layers, vec![], 100)
}

#[test]
fn saved_tiles_come_back_with_image_and_mirroring() {
    let f1 = TileFlip { x: true, y: false, d: true };
    let f2 = TileFlip { x: false, y: true, d: false };
    let tiles = vec![
        (TilePos { x: 0, y: 3 }, TileTextureIndex(1), f1),
        (TilePos { x: 2, y: 2 }, TileTextureIndex(4), f2),
        (TilePos { x: 3, y: 0 }, TileTextureIndex(0), TileFlip::default()),
    ];
    let mut ser = LevelSerializer { tiles: tiles.clone(), storage_access: storage() };
    let level = ser.save().unwrap();
    ser.load(&SerializableLevel { tiles: level.tiles.clone() }, Layer::Near);
    for (pos, id, flip) in tiles {
        let p = ser.storage_access.get_properties(&pos, Layer::Near).unwrap();
        assert_eq!(p.id, id);
        assert_eq!(p.flip, flip);
    }
    assert_eq!(ser.storage_access.get(&TilePos { x: 1, y: 1 }, Layer::Near), None);
}

#[test]
fn a_holder_picks_up_only_with_empty_hands() {
    assert_eq!(pick_up(false, true, &vec![5, 6, 7], &vec![7, 6]), Some(6));
    assert_eq!(pick_up(true, true, &vec![5, 6, 7], &vec![7, 6]), None);
    assert_eq!(pick_up(false, true, &vec![5], &vec![7]), None);
    assert_eq!(pick_up(false, false, &vec![6], &vec![6]), None);
}
