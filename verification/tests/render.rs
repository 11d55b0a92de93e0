use sandbox::editor::palette::{Palette, PaletteMeta, PaletteRows, Rgba};
use sandbox::editor::render::{blank_image, direction_color, draw_tile, shade_image, slope_neighbors, square_neighbors};
use sandbox::editor::tiles::{build_material, MaterialMeta, TilePixel};
use sandbox::level::layer::Layer;
use sandbox::level::placement::{StorageAccess, TileProperties, TilemapLayer};
use sandbox::level::tile::TileKind;
use sandbox::phys::terrain::PoleType;
use sandbox::tilemap::{TileFlip, TilePos, TileStorage, TileTextureIndex, TilemapSize};

fn no_flip() -> TileFlip {
    TileFlip { x: false, y: false, d: false }
}

fn material() -> sandbox::editor::tiles::Material {
    let meta = MaterialMeta {
        name: "stone".to_string(),
        name_slope: "stone_slope".to_string(),
        layer_repeats: vec![],
        layer_repeats_slope: vec![],
    };
    build_material(&vec![], &vec![], &meta)
}

#[test]
fn direction_colors() {
    assert_eq!(direction_color(TilePixel::Up), Rgba { r: 0, g: 0, b: 255, a: 255 });
    assert_eq!(direction_color(TilePixel::Neutral), Rgba { r: 0, g: 255, b: 0, a: 255 });
    assert_eq!(direction_color(TilePixel::Down), Rgba { r: 255, g: 0, b: 0, a: 255 });
    assert_eq!(direction_color(TilePixel::Transparent), Rgba { r: 0, g: 0, b: 0, a: 0 });
}

#[test]
fn blank_image_is_transparent_and_far_back() {
    let (data, depth) = blank_image(3, 2);
    assert_eq!(data, vec![0u8; 24]);
    assert_eq!(depth, vec![30u8; 6]);
}

#[test]
fn drawing_a_pole_fills_its_square_in_front() {
    let (mut data, mut depth) = blank_image(40, 20);
    let m = material();
    draw_tile(&mut data, &mut depth, 20, 2, 3, 1, TileKind::Pole(PoleType::Vertical), no_flip(), &vec![], &m);
    for y in 0..20 {
        for x in 0..40 {
            let w = x + y * 40;
            if x >= 20 {
                assert_eq!(depth[w], 13);
                assert_eq!(&data[4 * w..4 * w + 4], &[0, 255, 0, 255]);
            } else {
                assert_eq!(depth[w], 30);
                assert_eq!(&data[4 * w..4 * w + 4], &[0, 0, 0, 0]);
            }
        }
    }
}

#[test]
fn drawing_behind_keeps_what_is_in_front() {
    let (mut data, mut depth) = blank_image(20, 20);
    let m = material();
    draw_tile(&mut data, &mut depth, 0, 1, 0, 1, TileKind::Platform, no_flip(), &vec![], &m);
    draw_tile(&mut data, &mut depth, 0, 1, 5, 1, TileKind::Platform, no_flip(), &vec![], &m);
    assert!(depth.iter().all(|d| *d == 10));
    draw_tile(&mut data, &mut depth, 0, 1, 2, 0, TileKind::Platform, no_flip(), &vec![], &m);
    assert!(depth.iter().all(|d| *d == 2));
}

#[test]
fn square_with_no_sub_layers_is_neutral() {
    let (mut data, mut depth) = blank_image(20, 20);
    let m = material();
    draw_tile(&mut data, &mut depth, 0, 1, 0, 0, TileKind::Square, no_flip(), &vec![false; 9], &m);
    assert_eq!(&data[0..4], &[0, 255, 0, 255]);
}

fn palette() -> Palette {
    let mut shade = [[Rgba { r: 0, g: 0, b: 0, a: 0 }; 30]; 3];
    for dir in 0..3 {
        for d in 0..30 {
            shade[dir][d] = Rgba { r: dir as u8, g: d as u8, b: 7, a: 255 };
        }
    }
    let sun = [[Rgba { r: 9, g: 9, b: 9, a: 9 }; 30]; 3];
    Palette { meta: PaletteMeta { skycolor: Rgba { r: 1, g: 2, b: 3, a: 4 } }, sun: PaletteRows { colors: sun }, shade: PaletteRows { colors: shade } }
}

#[test]
fn shading_reads_back_directions_and_depths() {
    let data = vec![255, 0, 0, 255, 0, 255, 0, 255, 0, 0, 255, 255, 0, 0, 0, 0];
    let depth = vec![0, 12, 29, 30];
    let shaded = shade_image(&data, &depth, &palette());
    assert_eq!(shaded, vec![0, 0, 7, 255, 1, 12, 7, 255, 2, 29, 7, 255, 0, 0, 0, 0]);
}

#[test]
fn square_neighbours_go_round_from_the_west() {
    let size = TilemapSize { x: 3, y: 3 };
    let mut map = TileStorage::empty(size);
    map.set(&TilePos { x: 0, y: 1 }, 1);
    map.set(&TilePos { x: 2, y: 2 }, 2);
    map.set(&TilePos { x: 1, y: 0 }, 3);
    let n = square_neighbors(&map, &TilePos { x: 1, y: 1 }, &size);
    assert_eq!(n, vec![true, false, false, true, false, false, true, false, true]);
    let corner = square_neighbors(&map, &TilePos { x: 0, y: 0 }, &size);
    assert_eq!(corner, vec![false, false, true, false, true, false, false, false, false]);
}

#[test]
fn slope_neighbours_follow_the_mirroring() {
    let size = TilemapSize { x: 3, y: 3 };
    let layers = vec![TilemapLayer { entity: 1, storage: TileStorage::empty(size), layer: Layer::World }];
    let mut s = StorageAccess::new(layers, vec![], 50);
    let square = TileProperties { id: TileTextureIndex(0), flip: no_flip() };
    let pole = TileProperties { id: TileTextureIndex(2), flip: no_flip() };
    s.replace(&TilePos { x: 0, y: 1 }, square, Layer::World);
    s.replace(&TilePos { x: 1, y: 2 }, pole, Layer::World);
    s.replace(&TilePos { x: 1, y: 0 }, square, Layer::World);
    let p = TilePos { x: 1, y: 1 };
    assert_eq!(slope_neighbors(&s, &p, Layer::World, no_flip(), &size), vec![true, true]);
    let flipped = TileFlip { x: true, y: true, d: false };
    assert_eq!(slope_neighbors(&s, &p, Layer::World, flipped, &size), vec![false, false]);
}
