use sandbox::editor::palette::parse_palette_images;
use sandbox::editor::tiles::{build_block_material, build_slope_material, TilePixel};
use sandbox::editor::{handle_picker_events, load_step_due, map_to_render, EditorState, PickerEvent};
use sandbox::phys::movement::{ActionKind, DisabledInputs, Stopwatch, Timer};
use sandbox::tilemap::{TileFlip, TilemapSize};

fn rgba_of(p: TilePixel) -> [u8; 4] {
    match p {
        TilePixel::Transparent => [0, 0, 0, 0],
        TilePixel::Up => [255, 0, 0, 255],
        TilePixel::Neutral => [0, 255, 0, 255],
        TilePixel::Down => [0, 0, 255, 255],
    }
}

fn image(pixels: &[TilePixel]) -> Vec<u8> {
    pixels.iter().flat_map(|p| rgba_of(*p)).collect()
}

#[test]
fn loading_steps_run_once_when_everything_is_loaded() {
    assert!(load_step_due(false, &vec![true, true]));
    assert!(!load_step_due(false, &vec![true, false]));
    assert!(!load_step_due(true, &vec![true, true]));
    assert!(load_step_due(false, &vec![]));
}

#[test]
fn the_map_is_drawn_only_on_reload_with_a_world_map() {
    let size = TilemapSize { x: 4, y: 3 };
    assert_eq!(map_to_render(true, Some(size)), Some(size));
    assert_eq!(map_to_render(false, Some(size)), None);
    assert_eq!(map_to_render(true, None), None);
}

#[test]
fn picker_events_leave_the_panels_alone() {
    let mut state = EditorState::new_default();
    state.enabled.egui_debug = true;
    state.enabled.tool_panel = false;
    let events = handle_picker_events(&mut state, &vec![PickerEvent::Save(Some("a.ron".to_string()))]);
    assert_eq!(events.len(), 1);
    assert!(state.enabled.egui_debug);
    assert!(!state.enabled.tool_panel);
    assert!(state.enabled.inspector);
}

#[test]
fn the_active_palette_cycles_through_all() {
    let mut ps = parse_palette_images(&vec![vec![1u8; 1024], vec![2u8; 1024], vec![3u8; 1024]]);
    assert_eq!(ps.get_active().meta.skycolor.r, 1);
    ps.cycle();
    ps.cycle();
    assert_eq!(ps.get_active().meta.skycolor.r, 3);
    ps.cycle();
    assert_eq!(ps.get_active().meta.skycolor.r, 1);
    assert_eq!(ps.len(), 3);
}

#[test]
fn timers_and_stopwatches_count_as_bevy_does() {
    let mut t = Timer::new(1_000);
    t.tick(400);
    assert_eq!(t.elapsed, 400);
    assert!(!t.finished());
    t.tick(700);
    assert_eq!(t.elapsed, 1_000);
    assert!(t.finished());
    let mut w = Stopwatch { elapsed: 5 };
    w.tick(10);
    assert_eq!(w.elapsed, 15);
    let mut full = Stopwatch { elapsed: u64::MAX - 1 };
    full.tick(10);
    assert_eq!(full.elapsed, u64::MAX);
}

#[test]
fn input_locks_run_out() {
    let mut d = DisabledInputs::new();
    assert!(d.enabled(ActionKind::Left));
    d.insert(ActionKind::Right, Timer::new(300));
    assert!(!d.enabled(ActionKind::Right));
    d.tick_all(200);
    assert_eq!(d.get(ActionKind::Right), Some(Timer { duration: 300, elapsed: 200 }));
    assert_eq!(d.get(ActionKind::Left), None);
    d.tick_all(200);
    assert!(d.enabled(ActionKind::Right));
}

#[test]
fn materials_are_read_where_the_pixel_lies() {
    let one_quadrant = build_block_material(&image(&vec![TilePixel::Down; 500]), &vec![1]);
    assert!(!one_quadrant.check_well_formed());
    assert_eq!(one_quadrant.get_pixel(0, 0, &vec![false; 3]), TilePixel::Down);
    let two_layers = build_slope_material(&image(&vec![TilePixel::Up; 6400]), &vec![1]);
    let flip = TileFlip { x: false, y: false, d: false };
    assert_eq!(two_layers.get_pixel(5, 0, flip, &vec![]), TilePixel::Neutral);
    assert!(two_layers.quarters_agree(5, 0, flip, &vec![]));
}
