use sandbox::editor::tools::area::{ActiveMode, AreaTool, Mode, ALL_MODES};
use sandbox::editor::tools::erase::EraseTool;
use sandbox::editor::tools::paint::PaintTool;
use sandbox::editor::tools::platform::PlatformTool;
use sandbox::editor::tools::pole::PoleTool;
use sandbox::editor::tools::slope::SlopeTool;
use sandbox::editor::tools::{plain_tile, tool_kind, ToolActions, ToolKind};
use sandbox::editor::EditorState;
use sandbox::level::layer::Layer;
use sandbox::level::placement::{StorageAccess, TileProperties, TilemapLayer};
use sandbox::tilemap::{TileFlip, TilePos, TileStorage, TileTextureIndex, TilemapSize};

fn access() -> StorageAccess {
    let layers = vec![
        TilemapLayer { entity: 1, storage: TileStorage::empty(TilemapSize { x: 5, y: 5 }), layer: Layer::World },
        TilemapLayer { entity: 2, storage: TileStorage::empty(TilemapSize { x: 5, y: 5 }), layer: Layer::Near },
        TilemapLayer { entity: 3, storage: TileStorage::empty(TilemapSize { x: 5, y: 5 }), layer: Layer::Far },
    ];
    StorageAccess::new(layers, vec![], 100)
}

fn pos(x: u32, y: u32) -> TilePos {
    TilePos { x, y }
}

fn held() -> Option<ToolActions> {
    Some(ToolActions { apply_pressed: true, ..ToolActions::default() })
}

fn id_at(s: &StorageAccess, p: TilePos, layer: Layer) -> Option<u32> {
    s.get_properties(&p, layer).map(|t| t.id.0)
}

#[test]
fn paint_places_square_while_held() {
    let mut s = access();
    let mut state = EditorState::new_default();
    let mut tool = PaintTool::new();
    tool.apply(&mut s, &mut state, Some(pos(2, 2)), held());
    assert_eq!(id_at(&s, pos(2, 2), Layer::World), Some(0));
    assert!(state.unsaved_changes);
}

#[test]
fn paint_without_input_or_cursor_does_nothing() {
    let mut s = access();
    let mut state = EditorState::new_default();
    let mut tool = PaintTool::new();
    tool.apply(&mut s, &mut state, Some(pos(2, 2)), None);
    tool.apply(&mut s, &mut state, None, held());
    tool.apply(&mut s, &mut state, Some(pos(2, 2)), Some(ToolActions::default()));
    assert_eq!(s.get(&pos(2, 2), Layer::World), None);
    assert!(!state.unsaved_changes);
}

#[test]
fn paint_uses_current_layer() {
    let mut s = access();
    let mut state = EditorState::new_default();
    state.current_layer = Layer::Far;
    PaintTool::new().apply(&mut s, &mut state, Some(pos(0, 0)), held());
    assert_eq!(s.get(&pos(0, 0), Layer::World), None);
    assert_eq!(id_at(&s, pos(0, 0), Layer::Far), Some(0));
}

#[test]
fn erase_removes_under_cursor() {
    let mut s = access();
    let mut state = EditorState::new_default();
    s.replace(&pos(1, 1), plain_tile(0), Layer::World);
    EraseTool::new().apply(&mut s, &mut state, Some(pos(1, 1)), held());
    assert_eq!(s.get(&pos(1, 1), Layer::World), None);
    assert!(state.unsaved_changes);
}

#[test]
fn platform_places_every_frame() {
    let mut s = access();
    let mut state = EditorState::new_default();
    PlatformTool::new().apply(&mut s, &mut state, Some(pos(4, 0)));
    assert_eq!(id_at(&s, pos(4, 0), Layer::World), Some(5));
    assert!(state.unsaved_changes);
    let mut s2 = access();
    let mut state2 = EditorState::new_default();
    PlatformTool::new().apply(&mut s2, &mut state2, None);
    assert!(!state2.unsaved_changes);
}

#[test]
fn pole_vertical_then_crossing_horizontal_combines() {
    let mut s = access();
    let mut state = EditorState::new_default();
    let mut tool = PoleTool::new();
    tool.apply(&mut s, &mut state, Some(pos(2, 2)), held());
    assert_eq!(id_at(&s, pos(2, 2), Layer::World), Some(2));
    let cycle = Some(ToolActions { cycle_mode_just_pressed: true, ..ToolActions::default() });
    tool.apply(&mut s, &mut state, Some(pos(2, 2)), cycle);
    assert_eq!(id_at(&s, pos(2, 2), Layer::World), Some(2));
    tool.apply(&mut s, &mut state, Some(pos(3, 2)), held());
    assert_eq!(id_at(&s, pos(3, 2), Layer::World), Some(3));
    tool.apply(&mut s, &mut state, Some(pos(2, 2)), held());
    assert_eq!(id_at(&s, pos(2, 2), Layer::World), Some(4));
}

#[test]
fn pole_over_square_or_platform_stays_plain() {
    let mut s = access();
    let mut state = EditorState::new_default();
    s.replace(&pos(0, 0), plain_tile(0), Layer::World);
    s.replace(&pos(1, 0), plain_tile(5), Layer::World);
    let mut tool = PoleTool::new();
    tool.apply(&mut s, &mut state, Some(pos(0, 0)), held());
    tool.apply(&mut s, &mut state, Some(pos(1, 0)), held());
    assert_eq!(id_at(&s, pos(0, 0), Layer::World), Some(2));
    assert_eq!(id_at(&s, pos(1, 0), Layer::World), Some(2));
    s.replace(&pos(2, 0), plain_tile(4), Layer::World);
    tool.apply(&mut s, &mut state, Some(pos(2, 0)), held());
    assert_eq!(id_at(&s, pos(2, 0), Layer::World), Some(4));
}

#[test]
fn slope_leans_on_single_wall() {
    let mut s = access();
    let mut state = EditorState::new_default();
    s.replace(&pos(2, 3), plain_tile(0), Layer::World);
    SlopeTool::new().apply(&mut s, &mut state, Some(pos(2, 2)), held());
    let p = s.get_properties(&pos(2, 2), Layer::World).unwrap();
    assert_eq!(p, TileProperties { id: TileTextureIndex(1), flip: TileFlip { x: false, y: true, d: false } });
    assert!(state.unsaved_changes);
}

#[test]
fn slope_in_corner_faces_away() {
    let mut s = access();
    let mut state = EditorState::new_default();
    s.replace(&pos(3, 2), plain_tile(0), Layer::World);
    s.replace(&pos(2, 1), plain_tile(0), Layer::World);
    SlopeTool::new().apply(&mut s, &mut state, Some(pos(2, 2)), held());
    let p = s.get_properties(&pos(2, 2), Layer::World).unwrap();
    assert_eq!(p.flip, TileFlip { x: true, y: false, d: false });
}

#[test]
fn slope_between_opposite_walls_does_nothing() {
    let mut s = access();
    let mut state = EditorState::new_default();
    s.replace(&pos(2, 3), plain_tile(0), Layer::World);
    s.replace(&pos(2, 1), plain_tile(0), Layer::World);
    SlopeTool::new().apply(&mut s, &mut state, Some(pos(2, 2)), held());
    assert_eq!(s.get(&pos(2, 2), Layer::World), None);
    assert!(!state.unsaved_changes);
}

#[test]
fn slope_without_walls_does_nothing() {
    let mut s = access();
    let mut state = EditorState::new_default();
    SlopeTool::new().apply(&mut s, &mut state, Some(pos(2, 2)), held());
    assert_eq!(s.get(&pos(2, 2), Layer::World), None);
    assert!(!state.unsaved_changes);
}

#[test]
fn slope_click_mirrors_existing_slope() {
    let mut s = access();
    let mut state = EditorState::new_default();
    s.replace(&pos(0, 3), plain_tile(0), Layer::World);
    let slope = TileProperties { id: TileTextureIndex(1), flip: TileFlip { x: false, y: true, d: false } };
    s.replace(&pos(0, 2), slope, Layer::World);
    let click = Some(ToolActions { apply_pressed: true, apply_just_pressed: true, ..ToolActions::default() });
    SlopeTool::new().apply(&mut s, &mut state, Some(pos(0, 2)), click);
    let p = s.get_properties(&pos(0, 2), Layer::World).unwrap();
    assert_eq!(p.flip, TileFlip { x: true, y: true, d: false });
    let before = s.get(&pos(0, 2), Layer::World);
    SlopeTool::new().apply(&mut s, &mut state, Some(pos(0, 2)), held());
    assert_eq!(s.get(&pos(0, 2), Layer::World), before);
}

fn drag(tool: &mut AreaTool, s: &mut StorageAccess, state: &mut EditorState, mode: &mut ActiveMode, from: TilePos, to: TilePos) {
    let press = ToolActions { apply_just_pressed: true, apply_pressed: true, ..ToolActions::default() };
    tool.apply(s, state, mode, Some(from), Some(press));
    tool.apply(s, state, mode, Some(to), held());
    let release = ToolActions { apply_just_released: true, ..ToolActions::default() };
    tool.apply(s, state, mode, Some(to), Some(release));
}

#[test]
fn area_place_fills_rectangle() {
    let mut s = access();
    let mut state = EditorState::new_default();
    let mut mode = ActiveMode::default();
    let mut tool = AreaTool::new();
    let press = ToolActions { apply_just_pressed: true, apply_pressed: true, ..ToolActions::default() };
    tool.apply(&mut s, &mut state, &mut mode, Some(pos(3, 1)), Some(press));
    tool.apply(&mut s, &mut state, &mut mode, Some(pos(1, 2)), held());
    assert_eq!(tool.dragged(), Some((pos(1, 1), pos(3, 2))));
    assert_eq!(s.get(&pos(2, 2), Layer::World), None);
    let release = ToolActions { apply_just_released: true, ..ToolActions::default() };
    tool.apply(&mut s, &mut state, &mut mode, Some(pos(1, 2)), Some(release));
    for x in 1..=3 {
        for y in 1..=2 {
            assert_eq!(id_at(&s, pos(x, y), Layer::World), Some(0));
        }
    }
    assert_eq!(s.get(&pos(0, 1), Layer::World), None);
    assert_eq!(s.get(&pos(1, 3), Layer::World), None);
    assert!(state.unsaved_changes);
    assert_eq!(tool.dragged(), None);
}

#[test]
fn area_delete_all_layers_clears_every_layer() {
    let mut s = access();
    let mut state = EditorState::new_default();
    s.replace(&pos(0, 0), plain_tile(0), Layer::World);
    s.replace(&pos(0, 0), plain_tile(0), Layer::Far);
    s.replace(&pos(4, 4), plain_tile(0), Layer::Near);
    let mut mode = ActiveMode(Mode::DeleteAllLayers);
    let mut tool = AreaTool::new();
    drag(&mut tool, &mut s, &mut state, &mut mode, pos(0, 0), pos(1, 1));
    assert_eq!(s.get(&pos(0, 0), Layer::World), None);
    assert_eq!(s.get(&pos(0, 0), Layer::Far), None);
    assert!(s.get(&pos(4, 4), Layer::Near).is_some());
}

#[test]
fn area_place_all_layers() {
    let mut s = access();
    let mut state = EditorState::new_default();
    let mut mode = ActiveMode(Mode::PlaceAllLayers);
    let mut tool = AreaTool::new();
    drag(&mut tool, &mut s, &mut state, &mut mode, pos(2, 2), pos(2, 2));
    assert_eq!(id_at(&s, pos(2, 2), Layer::World), Some(0));
    assert_eq!(id_at(&s, pos(2, 2), Layer::Near), Some(0));
    assert_eq!(id_at(&s, pos(2, 2), Layer::Far), Some(0));
}

#[test]
fn area_copy_back_copies_onto_layer_behind() {
    let mut s = access();
    let mut state = EditorState::new_default();
    s.replace(&pos(1, 0), plain_tile(3), Layer::World);
    let mut mode = ActiveMode(Mode::CopyBack);
    let mut tool = AreaTool::new();
    drag(&mut tool, &mut s, &mut state, &mut mode, pos(0, 0), pos(2, 0));
    assert_eq!(s.get(&pos(0, 0), Layer::Near), None);
    assert_eq!(id_at(&s, pos(1, 0), Layer::Near), Some(0));
    assert_eq!(id_at(&s, pos(1, 0), Layer::World), Some(3));
}

#[test]
fn area_delete_layer_clears_rectangle_only() {
    let mut s = access();
    let mut state = EditorState::new_default();
    for x in 0..5 {
        s.replace(&pos(x, 0), plain_tile(0), Layer::World);
    }
    let mut mode = ActiveMode(Mode::DeleteLayer);
    let mut tool = AreaTool::new();
    drag(&mut tool, &mut s, &mut state, &mut mode, pos(1, 0), pos(3, 0));
    assert!(s.get(&pos(0, 0), Layer::World).is_some());
    assert!(s.get(&pos(2, 0), Layer::World).is_none());
    assert!(s.get(&pos(4, 0), Layer::World).is_some());
}

#[test]
fn area_mode_cycles_through_five_modes() {
    let mut s = access();
    let mut state = EditorState::new_default();
    let mut mode = ActiveMode::default();
    let mut tool = AreaTool::new();
    let cycle = Some(ToolActions { cycle_mode_just_pressed: true, ..ToolActions::default() });
    let mut seen = Vec::new();
    for _ in 0..5 {
        seen.push(mode.0);
        tool.apply(&mut s, &mut state, &mut mode, Some(pos(0, 0)), cycle);
    }
    assert_eq!(seen, ALL_MODES.to_vec());
    assert_eq!(mode.0, Mode::PlaceLayer);
    let names: Vec<&str> = ALL_MODES.iter().map(|m| m.name()).collect();
    assert_eq!(names, vec!["Place", "Delete", "Place All", "Delete All", "Copy Back"]);
    assert_eq!(Mode::CopyBack.next(), Mode::PlaceLayer);
}

#[test]
fn area_without_cursor_uses_drag_position() {
    let mut s = access();
    let mut state = EditorState::new_default();
    let mut mode = ActiveMode::default();
    let mut tool = AreaTool::new();
    let press = ToolActions { apply_just_pressed: true, apply_pressed: true, ..ToolActions::default() };
    tool.apply(&mut s, &mut state, &mut mode, Some(pos(0, 0)), Some(press));
    tool.apply(&mut s, &mut state, &mut mode, Some(pos(1, 0)), held());
    let release = ToolActions { apply_just_released: true, ..ToolActions::default() };
    tool.apply(&mut s, &mut state, &mut mode, None, Some(release));
    assert!(s.get(&pos(0, 0), Layer::World).is_some());
    assert!(s.get(&pos(1, 0), Layer::World).is_some());
}

#[test]
fn tool_ids() {
    assert_eq!(tool_kind(0), Some(ToolKind::Platform));
    assert_eq!(tool_kind(1), Some(ToolKind::Area));
    assert_eq!(tool_kind(2), Some(ToolKind::Paint));
    assert_eq!(tool_kind(3), Some(ToolKind::Pole));
    assert_eq!(tool_kind(4), Some(ToolKind::Slope));
    assert_eq!(tool_kind(5), Some(ToolKind::Erase));
    assert_eq!(tool_kind(6), None);
}
