//! Sokoban rules: directions, blocks and pushing on a collision grid.

pub mod player;

use vstd::prelude::*;

use crate::grid::{index_fits, Grid};
use crate::math::IVec2;

verus! {

/// The four directions a block can be pushed in.
#[derive(Debug, Copy, Clone, PartialEq, Eq, Structural)]
pub enum Direction {
    Up,
    Right,
    Down,
    Left,
}

/// The unit step of a direction (up is +y).
pub open spec fn direction_step(d: Direction) -> IVec2 {
    match d {
        Direction::Up => IVec2 { x: 0, y: 1 },
        Direction::Left => IVec2 { x: -1i32, y: 0 },
        Direction::Down => IVec2 { x: 0, y: -1i32 },
        Direction::Right => IVec2 { x: 1, y: 0 },
    }
}

impl From<Direction> for IVec2 {
    fn from(direction: Direction) -> (r: IVec2) {
        match direction {
            Direction::Up => IVec2 { x: 0, y: 1 },
            Direction::Left => IVec2 { x: -1, y: 0 },
            Direction::Down => IVec2 { x: 0, y: -1 },
            Direction::Right => IVec2 { x: 1, y: 0 },
        }
    }
}

impl vstd::std_specs::convert::FromSpecImpl<Direction> for IVec2 {
    open spec fn obeys_from_spec() -> bool {
        true
    }

    open spec fn from_spec(direction: Direction) -> IVec2 {
        direction_step(direction)
    }
}

/// Whether a block can be moved.
#[derive(Debug, Copy, Clone, PartialEq, Eq, Structural)]
pub enum SokobanBlock {
    Static,
    Dynamic,
}

/// A request to move an entity one step.
#[derive(Debug, Clone, Copy, PartialEq, Eq, Structural)]
pub enum SokobanCommand {
    Move { entity: u64, direction: Direction },
}

/// The queue of sokoban move requests.
pub struct SokobanCommands {
    writer: Vec<SokobanCommand>,
}

impl SokobanCommands {
    /// The requests queued, oldest first.
    pub closed spec fn queued(&self) -> Seq<SokobanCommand> {
        self.writer@
    }

    pub fn new() -> (c: SokobanCommands)
        ensures
            c.queued() == Seq::<SokobanCommand>::empty(),
    {
        SokobanCommands { writer: Vec::new() }
    }

    /// Requests that `entity` move one step in `direction`.
    pub fn move_block(&mut self, entity: u64, direction: Direction)
        ensures
            final(self).queued() == old(self).queued().push(SokobanCommand::Move { entity, direction }),
    {
        self.writer.push(SokobanCommand::Move { entity, direction });
    }

    /// Takes the queued requests, oldest first.
    pub fn take(&mut self) -> (r: Vec<SokobanCommand>)
        ensures
            r@ == old(self).queued(),
            final(self).queued() == Seq::<SokobanCommand>::empty(),
    {
        let mut taken: Vec<SokobanCommand> = Vec::new();
        std::mem::swap(&mut taken, &mut self.writer);
        taken
    }
}

/// Marks what can push blocks.
#[derive(Clone, Copy, Debug, Default)]
pub struct Pusher;

/// The record of one push: who pushed, in which direction, and what moved.
#[derive(Debug, Clone)]
pub struct PushEvent {
    pub pusher: u64,
    pub direction: Direction,
    pub pushed: Vec<u64>,
}

/// The occupant of every cell of a sokoban level.
pub struct CollisionMap {
    map: Grid<Option<(u64, SokobanBlock)>>,
}

impl CollisionMap {
    /// The grid of occupants.
    pub closed spec fn occupants(&self) -> Grid<Option<(u64, SokobanBlock)>> {
        self.map
    }

    pub fn from_grid(map: Grid<Option<(u64, SokobanBlock)>>) -> (c: CollisionMap)
        ensures
            c.occupants() == map,
    {
        CollisionMap { map }
    }

    /// What occupies the cell at `pos`; nothing outside the grid.
    pub fn occupant(&self, pos: IVec2) -> (r: Option<(u64, SokobanBlock)>)
        requires
            index_fits(self.occupants().dims(), pos),
        ensures
            r == (match self.occupants().cell_at(pos) {
                Some(c) => c,
                None => None,
            }),
    {
        match self.map.get(pos) {
            Some(c) => *c,
            None => None,
        }
    }

    /// Pushes the block at `pusher_coords` one step: a dynamic block leaves
    /// its cell and is written to the destination cell (and is lost if the
    /// destination lies outside the grid); static blocks and empty cells
    /// stay as they are.
    pub fn push_collision_map_entry(&mut self, pusher_coords: IVec2, direction: Direction)
        requires
            index_fits(old(self).occupants().dims(), pusher_coords),
            i32::MIN <= pusher_coords.x + direction_step(direction).x <= i32::MAX,
            i32::MIN <= pusher_coords.y + direction_step(direction).y <= i32::MAX,
            index_fits(
                old(self).occupants().dims(),
                IVec2 {
                    x: (pusher_coords.x + direction_step(direction).x) as i32,
                    y: (pusher_coords.y + direction_step(direction).y) as i32,
                },
            ),
        ensures
            ({
                let g = old(self).occupants();
                let dest = IVec2 {
                    x: (pusher_coords.x + direction_step(direction).x) as i32,
                    y: (pusher_coords.y + direction_step(direction).y) as i32,
                };
                match g.cell_at(pusher_coords) {
                    Some(Some((e, SokobanBlock::Dynamic))) => exists|cleared: Grid<Option<(u64, SokobanBlock)>>| {
                        &&& g.set_outcome(pusher_coords, None, cleared)
                        &&& cleared.set_outcome(dest, Some((e, SokobanBlock::Dynamic)), final(self).occupants())
                    },
                    _ => final(self).occupants() == g,
                }
            }),
    {
        let ghost g = self.map;
        let destination = pusher_coords.add_vec(IVec2::from(direction));
        let current = match self.map.get(pusher_coords) {
            Some(c) => *c,
            None => { return; },
        };
        match current {
            Some((pusher, SokobanBlock::Dynamic)) => {
                let val = self.map.set(pusher_coords, None);
                let ghost cleared = self.map;
                self.map.set(destination, val.unwrap());
                assert(g.set_outcome(pusher_coords, None, cleared));
            },
            Some((_, SokobanBlock::Static)) => {},
            None => {},
        }
    }
}

/// A pushed dynamic block ends up in the destination cell and its old cell
/// becomes empty, when both cells lie in the grid; anything else that is
/// pushed stays where it is.
pub proof fn law_push_moves_dynamic_block(
    g: Grid<Option<(u64, SokobanBlock)>>,
    pos: IVec2,
    dest: IVec2,
    e: u64,
    next: Grid<Option<(u64, SokobanBlock)>>,
)
    requires
        g.cell_at(pos) == Some(Some((e, SokobanBlock::Dynamic))),
        g.cell_at(dest) is Some,
        g.slot_of(dest) != g.slot_of(pos),
        exists|cleared: Grid<Option<(u64, SokobanBlock)>>| {
            &&& g.set_outcome(pos, None, cleared)
            &&& cleared.set_outcome(dest, Some((e, SokobanBlock::Dynamic)), next)
        },
    ensures
        next.cell_at(dest) == Some(Some((e, SokobanBlock::Dynamic))),
        next.cell_at(pos) == Some(None::<(u64, SokobanBlock)>),
        next.dims() == g.dims(),
{
    let cleared = choose|cleared: Grid<Option<(u64, SokobanBlock)>>| {
        &&& g.set_outcome(pos, None, cleared)
        &&& cleared.set_outcome(dest, Some((e, SokobanBlock::Dynamic)), next)
    };
    crate::grid::law_set_then_get(g, pos, None, cleared, dest);
    crate::grid::law_set_then_get(cleared, dest, Some((e, SokobanBlock::Dynamic)), next, pos);
}

} // verus!
