use sandbox::editor::palette::{parse_palette, parse_palette_images, Rgba};
use sandbox::editor::tiles::{
    build_block_material, build_slope_material, build_tile, compute_tile_layers, get_tile_layer, Meta,
    MaterialMeta, TileLayer, TileMeta, TilePixel,
};
use sandbox::editor::tools::{TextureId, ToolSet};
use sandbox::editor::{
    apply_editor_actions, close_level, finished_loading, handle_picker_events, unsaved_changes_dialog, AppState,
    DialogButton, EditorActions, EditorEffect, EditorEvent, EditorState, PickerEvent,
};
use sandbox::level::layer::Layer;
use sandbox::level::placement::{StorageAccess, TilemapLayer};
use sandbox::level::serialization::{is_default_flip, LevelSerializer, SerializableLevel, SerializableTile};
use sandbox::math::UVec2;
use sandbox::tilemap::{TileFlip, TilePos, TileStorage, TileTextureIndex, TilemapSize};

fn palette_image(seed: u8) -> Vec<u8> {
    let mut data = vec![0u8; 8 * 128];
    for row in 0..8 {
        for col in 0..32 {
            let i = row * 128 + col * 4;
            data[i] = seed;
            data[i + 1] = row as u8;
            data[i + 2] = col as u8;
            data[i + 3] = 255;
        }
    }
    data
}

#[test]
fn palette_rows_are_read() {
    let p = parse_palette(&palette_image(3));
    assert_eq!(p.meta.skycolor, Rgba { r: 3, g: 0, b: 0, a: 255 });
    assert_eq!(p.get_sun_color(TilePixel::Up, 4, 1), Rgba { r: 3, g: 2, b: 14, a: 255 });
    assert_eq!(p.get_sun_color(TilePixel::Down, 0, 0), Rgba { r: 3, g: 4, b: 0, a: 255 });
    assert_eq!(p.get_shade_color(TilePixel::Neutral, 9, 2), Rgba { r: 3, g: 6, b: 29, a: 255 });
    assert_eq!(p.get_color(true, TilePixel::Transparent, 0, 0), Rgba { r: 0, g: 0, b: 0, a: 0 });
}

#[test]
fn short_palette_image_falls_back_to_white() {
    let p = parse_palette(&vec![]);
    assert_eq!(p.meta.skycolor, Rgba { r: 255, g: 255, b: 255, a: 255 });
    assert_eq!(p.get_shade_color(TilePixel::Up, 0, 0), Rgba { r: 255, g: 255, b: 255, a: 255 });
}

#[test]
fn palettes_cycle_round() {
    let mut ps = parse_palette_images(&vec![palette_image(1), palette_image(2)]);
    assert_eq!(ps.len(), 2);
    assert_eq!(ps.get_active().meta.skycolor.r, 1);
    ps.cycle();
    assert_eq!(ps.get_active().meta.skycolor.r, 2);
    ps.cycle();
    assert_eq!(ps.get_active().meta.skycolor.r, 1);
    assert_eq!(ps.get(1).meta.skycolor.r, 2);
}

fn rgba_of(p: TilePixel) -> [u8; 4] {
    match p {
        TilePixel::Transparent => [0, 0, 0, 0],
        TilePixel::Up => [255, 0, 0, 255],
        TilePixel::Neutral => [0, 255, 0, 255],
        TilePixel::Down => [0, 0, 255, 255],
    }
}

fn image(pixels: &[TilePixel]) -> Vec<u8> {
    pixels.iter().flat_map(|p| rgba_of(*p)).collect()
}

#[test]
fn tile_layer_decodes_colors() {
    let data = image(&[TilePixel::Up, TilePixel::Neutral, TilePixel::Down, TilePixel::Transparent]);
    let l = TileLayer::from_bytes(&data);
    assert_eq!(l.colors, vec![TilePixel::Up, TilePixel::Neutral, TilePixel::Down, TilePixel::Transparent]);
}

#[test]
fn tile_layers_unroll_repeats() {
    assert_eq!(compute_tile_layers(&vec![2, 0, 1]), vec![0, 0, 2]);
    assert_eq!(compute_tile_layers(&vec![]), Vec::<usize>::new());
    assert_eq!(get_tile_layer(2, &vec![2, 0, 1]), 2);
    assert_eq!(get_tile_layer(1, &vec![2, 0, 1]), 0);
}

#[test]
fn tile_pixels_by_sub_layer() {
    let mut pixels = vec![TilePixel::Up; 400];
    pixels.extend(vec![TilePixel::Neutral; 400]);
    pixels[3] = TilePixel::Down;
    let meta = TileMeta { name: "small_stone".to_string(), size: UVec2 { x: 1, y: 1 }, layer_repeats: vec![2, 1] };
    let t = build_tile(&image(&pixels), &meta);
    assert_eq!(t.get_pixel(0, 3), TilePixel::Down);
    assert_eq!(t.get_pixel(1, 5), TilePixel::Up);
    assert_eq!(t.get_pixel(2, 5), TilePixel::Neutral);
    assert_eq!(t.get_pixel(3, 5), TilePixel::Neutral);
    assert_eq!(t.layers.len(), 2);
}

#[test]
fn block_material_reads_its_image() {
    let m = build_block_material(&image(&vec![TilePixel::Down; 2000]), &vec![1]);
    assert_eq!(m.get_pixel(0, 0, &vec![false; 9]), TilePixel::Down);
    assert_eq!(m.get_pixel(0, 399, &vec![true; 9]), TilePixel::Down);
    assert_eq!(m.get_pixel(1, 0, &vec![true; 9]), TilePixel::Neutral);
}

#[test]
fn slope_material_reads_its_image() {
    let m = build_slope_material(&image(&vec![TilePixel::Transparent; 6400]), &vec![1]);
    let flip = TileFlip { x: true, y: false, d: false };
    assert_eq!(m.get_pixel(0, 17, flip, &vec![true, false]), TilePixel::Transparent);
    assert_eq!(m.get_pixel(1, 17, flip, &vec![true, false]), TilePixel::Neutral);
}

#[test]
fn meta_names_and_repeats() {
    let tile = Meta::TileMeta(TileMeta { name: "t".to_string(), size: UVec2 { x: 1, y: 1 }, layer_repeats: vec![3] });
    let mat = Meta::MaterialMeta(MaterialMeta {
        name: "m".to_string(),
        name_slope: "ms".to_string(),
        layer_repeats: vec![1, 2],
        layer_repeats_slope: vec![4],
    });
    assert_eq!(tile.name(), "t");
    assert_eq!(mat.name(), "m");
    assert_eq!(tile.layer_repeats(), &vec![3]);
    assert_eq!(mat.layer_repeats(), &vec![1, 2]);
}

#[test]
fn tool_set_hands_out_ids_in_order() {
    let mut t = ToolSet::new();
    t.add("platform");
    t.add("area");
    assert_eq!(t.tool_count(), 2);
    assert_eq!(t.tool_order, vec![0, 1]);
    assert_eq!(t.get_tool(1).unwrap().name, "area");
    assert_eq!(t.get_tool(1).unwrap().id, 1);
    t.assign_textures(&vec![TextureId::User(7), TextureId::User(8)]);
    assert_eq!(t.get_tool(0).unwrap().egui_texture_id, Some(TextureId::User(7)));
    assert_eq!(t.get_tool(1).unwrap().egui_texture_id, Some(TextureId::User(8)));
}

#[test]
fn editor_actions_turn_into_state_changes_and_effects() {
    let mut state = EditorState::new_default();
    state.toolset.add("a");
    state.toolset.add("b");
    let mut ps = parse_palette_images(&vec![palette_image(1), palette_image(2)]);
    let actions = vec![
        EditorActions::CycleLayer,
        EditorActions::CyclePalette,
        EditorActions::CycleTool,
        EditorActions::Save,
        EditorActions::Load,
        EditorActions::Close,
        EditorActions::New,
        EditorActions::SaveAs,
        EditorActions::ApplyTool,
    ];
    let effects = apply_editor_actions(&mut state, &mut ps, &actions);
    assert_eq!(state.current_layer, Layer::Near);
    assert_eq!(state.active_tool, 1);
    assert_eq!(ps.get_active().meta.skycolor.r, 2);
    assert_eq!(
        effects,
        vec![
            EditorEffect::OpenPicker(PickerEvent::Load(None)),
            EditorEffect::Send(EditorEvent::Close),
            EditorEffect::Send(EditorEvent::New),
            EditorEffect::Send(EditorEvent::SaveAs),
        ]
    );
}

#[test]
fn save_and_load_use_the_loaded_path() {
    let mut state = EditorState::new_default();
    state.current_loaded_path = Some("level.ron".to_string());
    let mut ps = parse_palette_images(&vec![palette_image(1)]);
    let effects = apply_editor_actions(&mut state, &mut ps, &vec![EditorActions::Save, EditorActions::Load]);
    assert_eq!(
        effects,
        vec![
            EditorEffect::Send(EditorEvent::Save("level.ron".to_string())),
            EditorEffect::Send(EditorEvent::Load("level.ron".to_string())),
        ]
    );
}

#[test]
fn picked_paths_become_events_and_the_first_is_kept() {
    let mut state = EditorState::new_default();
    let events = vec![
        PickerEvent::Save(Some("a.ron".to_string())),
        PickerEvent::Load(None),
        PickerEvent::Load(Some("b.ron".to_string())),
    ];
    let out = handle_picker_events(&mut state, &events);
    assert_eq!(out, vec![EditorEvent::Save("a.ron".to_string()), EditorEvent::Load("b.ron".to_string())]);
    assert_eq!(state.current_loaded_path, Some("a.ron".to_string()));
}

#[test]
fn picker_result_takes_the_first_path() {
    let mut e = PickerEvent::Load(None);
    e.set_result(vec!["x.ron".to_string(), "y.ron".to_string()]);
    assert_eq!(e, PickerEvent::Load(Some("x.ron".to_string())));
    let mut e = PickerEvent::Save(Some("old".to_string()));
    e.set_result(vec!["new".to_string()]);
    assert_eq!(e, PickerEvent::Save(Some("new".to_string())));
}

#[test]
fn state_helpers() {
    let mut state = EditorState::new_default();
    state.current_loaded_path = Some("p".to_string());
    state.unsaved_changes = true;
    state.reset_path();
    assert_eq!(state.current_loaded_path, None);
    assert!(!state.unsaved_changes);
    state.next_layer();
    state.next_layer();
    state.next_layer();
    assert_eq!(state.current_layer, Layer::World);
    state.toolset.add("only");
    state.next_tool();
    assert_eq!(state.active_tool, 0);
}

#[test]
fn loading_finishes_when_everything_is_there() {
    assert_eq!(finished_loading(true, true, true), Some(AppState::Display));
    assert_eq!(finished_loading(true, false, true), None);
    assert_eq!(finished_loading(false, true, true), None);
}

fn storage() -> StorageAccess {
    let size = TilemapSize { x: 3, y: 3 };
    let layers = vec![
        TilemapLayer { entity: 1, storage: TileStorage::empty(size), layer: Layer::World },
        TilemapLayer { entity: 2, storage: TileStorage::empty(size), layer: Layer::Near },
        TilemapLayer { entity: 3, storage: TileStorage::empty(size), layer: Layer::Far },
    ];
    StorageAccess::new(layers, vec![], 10)
}

#[test]
fn closing_clears_every_layer_and_forgets_the_file() {
    let mut s = storage();
    let props = sandbox::editor::tools::plain_tile(0);
    s.replace(&TilePos { x: 0, y: 0 }, props, Layer::World);
    s.replace(&TilePos { x: 1, y: 1 }, props, Layer::Far);
    let mut state = EditorState::new_default();
    state.current_loaded_path = Some("l.ron".to_string());
    close_level(&mut s, &mut state);
    assert_eq!(s.get(&TilePos { x: 0, y: 0 }, Layer::World), None);
    assert_eq!(s.get(&TilePos { x: 1, y: 1 }, Layer::Far), None);
    assert_eq!(s.take_despawned(), vec![10, 11]);
    assert_eq!(state.current_loaded_path, None);
}

#[test]
fn level_save_lists_tiles_and_load_puts_them_back() {
    let flip = TileFlip { x: true, y: false, d: false };
    let tiles = vec![(TilePos { x: 2, y: 1 }, TileTextureIndex(1), flip), (TilePos { x: 0, y: 0 }, TileTextureIndex(0), TileFlip::default())];
    let mut ser = LevelSerializer { tiles, storage_access: storage() };
    let level = ser.save().unwrap();
    assert_eq!(
        level.tiles,
        vec![
            SerializableTile { pos: TilePos { x: 2, y: 1 }, id: TileTextureIndex(1), flip },
            SerializableTile { pos: TilePos { x: 0, y: 0 }, id: TileTextureIndex(0), flip: TileFlip::default() },
        ]
    );
    ser.storage_access.replace(&TilePos { x: 1, y: 1 }, sandbox::editor::tools::plain_tile(3), Layer::World);
    ser.load(&SerializableLevel { tiles: level.tiles.clone() }, Layer::World);
    assert_eq!(ser.storage_access.get(&TilePos { x: 1, y: 1 }, Layer::World), None);
    let p = ser.storage_access.get_properties(&TilePos { x: 2, y: 1 }, Layer::World).unwrap();
    assert_eq!(p.id, TileTextureIndex(1));
    assert_eq!(p.flip, flip);
    assert!(ser.storage_access.get(&TilePos { x: 0, y: 0 }, Layer::World).is_some());
    assert!(is_default_flip(&TileFlip::default()));
    assert!(!is_default_flip(&TileFlip { x: false, y: false, d: true }));
}

#[test]
fn slope_quarters_must_not_overlap() {
    let clear = build_slope_material(&image(&vec![TilePixel::Transparent; 6400]), &vec![1]);
    let flip = TileFlip { x: false, y: true, d: false };
    assert!(clear.quarters_agree(0, 5, flip, &vec![false, true]));
    let full = build_slope_material(&image(&vec![TilePixel::Up; 6400]), &vec![1]);
    assert!(!full.quarters_agree(0, 5, flip, &vec![false, true]));
    assert!(full.quarters_agree(1, 5, flip, &vec![false, true]));
}

#[test]
fn unsaved_changes_ask_before_closing() {
    let mut state = EditorState::new_default();
    assert!(unsaved_changes_dialog(&state, EditorEvent::Close).is_none());
    state.unsaved_changes = true;
    let d = unsaved_changes_dialog(&state, EditorEvent::Close).unwrap();
    assert_eq!(d.title, "Warning: Unsaved Changes");
    assert_eq!(d.message, "There are unsaved changes to this map.  Would you like to save them?");
    assert_eq!(
        d.buttons,
        vec![
            DialogButton { label: "Cancel".to_string(), event: None },
            DialogButton { label: "Discard Changes".to_string(), event: Some(EditorEvent::Close) },
            DialogButton { label: "Save As...".to_string(), event: Some(EditorEvent::SaveAs) },
        ]
    );
    state.current_loaded_path = Some("m.ron".to_string());
    let d = unsaved_changes_dialog(&state, EditorEvent::New).unwrap();
    assert_eq!(d.buttons[1].event, Some(EditorEvent::New));
    assert_eq!(d.buttons[2], DialogButton { label: "Save".to_string(), event: Some(EditorEvent::Save("m.ron".to_string())) });
}

#[test]
fn tool_picker_shows_tools_with_icons() {
    let mut t = ToolSet::new();
    t.add("platform");
    t.add("area");
    t.assign_textures(&vec![TextureId::User(1), TextureId::Managed(2)]);
    t.add("paint");
    let buttons = t.tool_buttons(1);
    assert_eq!(
        buttons,
        vec![
            sandbox::editor::tools::ToolButton { id: 0, texture: TextureId::User(1), name: "platform".to_string(), selected: false },
            sandbox::editor::tools::ToolButton { id: 1, texture: TextureId::Managed(2), name: "area".to_string(), selected: true },
        ]
    );
}
