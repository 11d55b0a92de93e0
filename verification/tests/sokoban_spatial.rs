use sandbox::grid::Grid;
use sandbox::math::IVec2;
use sandbox::phys::spatial::{Aabr, SpatialGrid};
use sandbox::sokoban::player::{apply_player_action, handle_player_actions, PlayerActions, Pos};
use sandbox::sokoban::{CollisionMap, Direction, SokobanBlock, SokobanCommand, SokobanCommands};

fn iv(x: i32, y: i32) -> IVec2 {
    IVec2 { x, y }
}

#[test]
fn directions_are_unit_steps() {
    assert_eq!(IVec2::from(Direction::Up), iv(0, 1));
    assert_eq!(IVec2::from(Direction::Right), iv(1, 0));
    assert_eq!(IVec2::from(Direction::Down), iv(0, -1));
    assert_eq!(IVec2::from(Direction::Left), iv(-1, 0));
}

#[test]
fn pushing_moves_dynamic_blocks_only() {
    let mut g: Grid<Option<(u64, SokobanBlock)>> = Grid::new(iv(3, 2), None);
    g.set(iv(0, 0), Some((1, SokobanBlock::Dynamic)));
    g.set(iv(0, 1), Some((2, SokobanBlock::Static)));
    let mut map = CollisionMap::from_grid(g);
    map.push_collision_map_entry(iv(0, 0), Direction::Right);
    assert_eq!(map.occupant(iv(0, 0)), None);
    assert_eq!(map.occupant(iv(1, 0)), Some((1, SokobanBlock::Dynamic)));
    map.push_collision_map_entry(iv(0, 1), Direction::Right);
    assert_eq!(map.occupant(iv(0, 1)), Some((2, SokobanBlock::Static)));
    assert_eq!(map.occupant(iv(1, 1)), None);
    map.push_collision_map_entry(iv(2, 1), Direction::Left);
    assert_eq!(map.occupant(iv(1, 1)), None);
}

#[test]
fn move_requests_are_queued_in_order() {
    let mut c = SokobanCommands::new();
    c.move_block(4, Direction::Up);
    c.move_block(5, Direction::Left);
    assert_eq!(
        c.take(),
        vec![
            SokobanCommand::Move { entity: 4, direction: Direction::Up },
            SokobanCommand::Move { entity: 5, direction: Direction::Left },
        ]
    );
    assert!(c.take().is_empty());
}

#[test]
fn player_moves_stop_at_zero() {
    assert_eq!(apply_player_action(Pos { x: 0, y: 0 }, PlayerActions::Down), Pos { x: 0, y: 0 });
    assert_eq!(apply_player_action(Pos { x: 0, y: 0 }, PlayerActions::Left), Pos { x: 0, y: 0 });
    assert_eq!(apply_player_action(Pos { x: 2, y: 3 }, PlayerActions::Up), Pos { x: 2, y: 4 });
    assert_eq!(apply_player_action(Pos { x: 2, y: 3 }, PlayerActions::Right), Pos { x: 3, y: 3 });
    let p = handle_player_actions(
        Pos { x: 1, y: 1 },
        &vec![PlayerActions::Up, PlayerActions::Right, PlayerActions::Down, PlayerActions::Left],
    );
    assert_eq!(p, Pos { x: 1, y: 1 });
    let p = handle_player_actions(Pos { x: 0, y: 0 }, &vec![PlayerActions::Left, PlayerActions::Right]);
    assert_eq!(p, Pos { x: 1, y: 0 });
}

#[test]
fn spatial_query_finds_fine_then_coarse() {
    let mut g: SpatialGrid<4, 6> = SpatialGrid::new(8);
    g.insert(iv(5, 5), 2, 1);
    g.insert(iv(100, 100), 20, 2);
    g.insert(iv(6, 7), 8, 3);
    assert_eq!(g.iter_area(Aabr { min: iv(0, 0), max: iv(10, 10) }), vec![1, 3, 2]);
    assert_eq!(g.iter_area(Aabr { min: iv(1000, 1000), max: iv(1010, 1010) }), Vec::<u64>::new());
    g.clear();
    assert_eq!(g.iter_area(Aabr { min: iv(0, 0), max: iv(10, 10) }), Vec::<u64>::new());
}

#[test]
fn spatial_query_reaches_neighbouring_cells() {
    let mut g: SpatialGrid<4, 6> = SpatialGrid::new(4);
    g.insert(iv(-3, 20), 1, 9);
    assert_eq!(g.iter_area(Aabr { min: iv(0, 16), max: iv(2, 18) }), vec![9]);
}
