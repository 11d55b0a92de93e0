use sandbox::aabb_grid::AabbCollection;
use sandbox::grid::Grid;
use sandbox::level::layer::{Layer, ALL_LAYERS};
use sandbox::level::placement::TileProperties;
use sandbox::level::tile::{collider_shape, ColliderShape, TileKind};
use sandbox::math::{IVec2, UVec2};
use sandbox::phys::terrain::PoleType;
use sandbox::text::digit_to_char;
use sandbox::tilemap::{neighbor, TileFlip, TilePos, TileStorage, TileTextureIndex, TilemapSize};

fn iv(x: i32, y: i32) -> IVec2 {
    IVec2 { x, y }
}

fn uv(x: u32, y: u32) -> UVec2 {
    UVec2 { x, y }
}

#[test]
fn grid_set_then_get() {
    let mut g = Grid::new(iv(3, 2), 0u8);
    assert_eq!(g.set(iv(2, 1), 7), Some(0));
    assert_eq!(g.get(iv(2, 1)), Some(&7));
    assert_eq!(g.get(iv(1, 1)), Some(&0));
    assert_eq!(g.get(iv(3, 0)), None);
    assert_eq!(g.set(iv(0, 2), 9), None);
    assert_eq!(g.raw(), &[0, 0, 0, 0, 0, 7]);
    assert_eq!(*g.index(iv(2, 1)), 7);
    *g.index_mut(iv(0, 0)) = 4;
    assert_eq!(g.raw()[0], 4);
    assert_eq!(g.size(), iv(3, 2));
}

#[test]
fn grid_populate_and_iterate_row_by_row() {
    let g = Grid::populate_from(iv(2, 2), |p: IVec2| p.x + 10 * p.y);
    assert_eq!(g.raw(), &[0, 1, 10, 11]);
    let cells: Vec<(IVec2, i32)> = g.iter().into_iter().map(|(p, v)| (p, *v)).collect();
    assert_eq!(cells, vec![(iv(0, 0), 0), (iv(1, 0), 1), (iv(0, 1), 10), (iv(1, 1), 11)]);
    let area: Vec<(IVec2, i32)> = g.iter_area(iv(1, 0), iv(2, 2)).into_iter().map(|(p, v)| (p, *v)).collect();
    assert_eq!(area, vec![(iv(1, 0), 1), (iv(1, 1), 11)]);
}

#[test]
fn grid_get_mut_and_from_raw() {
    let mut g = Grid::from_raw(iv(2, 1), vec!['a', 'b']);
    if let Some(c) = g.get_mut(iv(1, 0)) {
        *c = 'z';
    }
    assert_eq!(g.raw(), &['a', 'z']);
    assert!(g.get_mut(iv(2, 0)).is_none());
}

#[test]
fn aabb_add_then_covered_and_remove() {
    let mut c = AabbCollection::new(uv(10, 10));
    c.add(uv(1, 1), uv(2, 3));
    assert!(c.get(uv(2, 3)).is_some());
    assert!(c.get(uv(3, 1)).is_none());
    assert!(c.get(uv(2, 3)).unwrap().contains(uv(1, 1)));
    assert!(!c.get(uv(2, 3)).unwrap().contains(uv(1, 4)));
    c.add(uv(2, 2), uv(5, 5));
    assert_eq!(c.get_idx(uv(6, 6)), None);
    c.add(uv(5, 5), uv(1, 1));
    assert_eq!(c.get_idx(uv(5, 5)), Some(1));
    assert!(c.remove(uv(1, 1)).is_some());
    assert_eq!(c.get_idx(uv(5, 5)), Some(0));
    assert!(c.remove(uv(1, 1)).is_none());
    assert_eq!(c.size(), uv(10, 10));
}

#[test]
fn tile_storage_set_get_remove() {
    let size = TilemapSize { x: 3, y: 2 };
    let mut s = TileStorage::empty(size);
    s.set(&TilePos { x: 2, y: 1 }, 42);
    assert_eq!(s.get(&TilePos { x: 2, y: 1 }), Some(42));
    assert_eq!(s.iter()[5], Some(42));
    s.set(&TilePos { x: 3, y: 0 }, 7);
    assert_eq!(s.iter().iter().filter(|t| t.is_some()).count(), 1);
    s.remove(&TilePos { x: 2, y: 1 });
    assert_eq!(s.get(&TilePos { x: 2, y: 1 }), None);
    assert_eq!(s.size(), size);
}

#[test]
fn tile_positions_and_neighbours() {
    let size = TilemapSize { x: 4, y: 3 };
    assert_eq!(TilePos::from_i32_pair(3, 2, &size), Some(TilePos { x: 3, y: 2 }));
    assert_eq!(TilePos::from_i32_pair(-1, 0, &size), None);
    assert_eq!(TilePos::from_i32_pair(4, 0, &size), None);
    assert!(TilePos::new(0, 2).within_map_bounds(&size));
    assert!(!TilePos::new(0, 3).within_map_bounds(&size));
    assert_eq!(neighbor(&TilePos { x: 0, y: 0 }, -1, 0, &size), None);
    assert_eq!(neighbor(&TilePos { x: 0, y: 0 }, 1, 1, &size), Some(TilePos { x: 1, y: 1 }));
    assert_eq!(neighbor(&TilePos { x: 3, y: 2 }, 0, 1, &size), None);
}

#[test]
fn layers() {
    assert_eq!(Layer::World.next(), Layer::Near);
    assert_eq!(Layer::Far.next(), Layer::Far);
    assert_eq!(Layer::Far.wrapping_next(), Layer::World);
    assert_eq!(Layer::World.wrapping_next().wrapping_next().wrapping_next(), Layer::World);
    assert_eq!(ALL_LAYERS.iter().map(|l| l.z_order()).collect::<Vec<u8>>(), vec![0, 1, 2]);
    assert_eq!(ALL_LAYERS.iter().map(|l| l.name()).collect::<Vec<&str>>(), vec!["World", "Near", "Far"]);
    assert_eq!(Layer::default(), Layer::World);
}

#[test]
fn tile_kinds() {
    for id in 0..=5u32 {
        let k = TileKind::from_texture_index(TileTextureIndex(id));
        assert_eq!(k.into_texture_index(), TileTextureIndex(id));
    }
    assert_eq!(TileKind::from_texture_index(TileTextureIndex(4)), TileKind::Pole(PoleType::Combined));
    assert_eq!(TileKind::Pole(PoleType::Vertical).is_pole(), Some(PoleType::Vertical));
    assert_eq!(TileKind::Square.is_pole(), None);
    assert!(TileKind::Square.is_solid());
    assert!(!TileKind::Slope.is_solid());
    assert!(TileKind::Slope.is_slope());
    assert!(TileKind::Platform.is_platform());
    assert_eq!(TileKind::Platform.offset_y(), 5);
    assert_eq!(TileKind::Square.offset_y(), 0);
    assert_eq!(TileKind::Pole(PoleType::Horizontal).name(), "Pole");
    assert_eq!(TileKind::Square.name(), "Square");
    assert_eq!(TileKind::Slope.name(), "Slope");
    assert_eq!(TileKind::Platform.name(), "Platform");
}

#[test]
fn collider_shapes() {
    let p = |id: u32, x: bool, y: bool| TileProperties { id: TileTextureIndex(id), flip: TileFlip { x, y, d: false } };
    assert_eq!(collider_shape(&p(0, false, false)), ColliderShape::Cuboid(16, 16));
    assert_eq!(
        collider_shape(&p(1, false, false)),
        ColliderShape::Triangle(IVec2 { x: 8, y: -8 }, IVec2 { x: -8, y: 8 }, IVec2 { x: -8, y: -8 })
    );
    assert_eq!(
        collider_shape(&p(1, true, true)),
        ColliderShape::Triangle(IVec2 { x: -8, y: 8 }, IVec2 { x: 8, y: -8 }, IVec2 { x: 8, y: 8 })
    );
    assert_eq!(collider_shape(&p(2, false, false)), ColliderShape::Cuboid(4, 16));
    assert_eq!(collider_shape(&p(3, false, false)), ColliderShape::Cuboid(16, 4));
    assert_eq!(
        collider_shape(&p(4, false, false)),
        ColliderShape::Cross(IVec2 { x: 4, y: 16 }, IVec2 { x: 16, y: 4 })
    );
    assert_eq!(collider_shape(&p(5, false, false)), ColliderShape::Cuboid(16, 4));
}

#[test]
fn digit_characters() {
    assert_eq!(digit_to_char(7), '7');
    assert_eq!(digit_to_char(0), '0');
}

#[test]
fn vector_sums() {
    assert_eq!(iv(1, -2).add_vec(iv(3, 4)), iv(4, 2));
    assert_eq!(uv(1, 5).min_vec(uv(3, 2)), uv(1, 2));
    assert_eq!(uv(1, 5).max_vec(uv(3, 2)), uv(3, 5));
    assert_eq!(uv(1, 5).add_vec(uv(3, 2)), uv(4, 7));
}
