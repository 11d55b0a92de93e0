use vstd::prelude::*;

verus! {

/// A position on the sokoban board.
#[derive(Debug, Copy, Clone, PartialEq, Eq, Structural, Default)]
pub struct Pos {
    pub x: u32,
    pub y: u32,
}

/// The moves a sokoban player can make.
#[derive(Debug, Copy, Clone, PartialEq, Eq, Structural, Hash)]
pub enum PlayerActions {
    Up,
    Right,
    Down,
    Left,
}

/// Where one move takes the player: up and right add one, down and left
/// take one away but stop at zero.
pub open spec fn moved(p: Pos, a: PlayerActions) -> Pos {
    match a {
        PlayerActions::Up => Pos { y: (p.y + 1) as u32, ..p },
        PlayerActions::Right => Pos { x: (p.x + 1) as u32, ..p },
        PlayerActions::Down => Pos { y: if p.y > 0 { (p.y - 1) as u32 } else { 0 }, ..p },
        PlayerActions::Left => Pos { x: if p.x > 0 { (p.x - 1) as u32 } else { 0 }, ..p },
    }
}

/// Where a sequence of moves takes the player.
pub open spec fn moved_all(p: Pos, actions: Seq<PlayerActions>) -> Pos
    decreases actions.len(),
{
    if actions.len() == 0 {
        p
    } else {
        moved(moved_all(p, actions.drop_last()), actions.last())
    }
}

/// No move of a sequence steps past the largest coordinate.
pub open spec fn moves_fit(p: Pos, actions: Seq<PlayerActions>) -> bool
    decreases actions.len(),
{
    if actions.len() == 0 {
        true
    } else {
        let q = moved_all(p, actions.drop_last());
        &&& moves_fit(p, actions.drop_last())
        &&& actions.last() == PlayerActions::Up ==> q.y < u32::MAX
        &&& actions.last() == PlayerActions::Right ==> q.x < u32::MAX
    }
}

pub fn apply_player_action(pos: Pos, action: PlayerActions) -> (r: Pos)
    requires
        action == PlayerActions::Up ==> pos.y < u32::MAX,
        action == PlayerActions::Right ==> pos.x < u32::MAX,
    ensures
        r == moved(pos, action),
{
    let mut p = pos;
    match action {
        PlayerActions::Up => p.y = p.y + 1,
        PlayerActions::Right => p.x = p.x + 1,
        PlayerActions::Down => p.y = p.y.saturating_sub(1),
        PlayerActions::Left => p.x = p.x.saturating_sub(1),
    }
    p
}

/// Applies the moves pressed this frame, in order.
pub fn handle_player_actions(pos: Pos, just_pressed: &Vec<PlayerActions>) -> (r: Pos)
    requires
        moves_fit(pos, just_pressed@),
    ensures
        r == moved_all(pos, just_pressed@),
{
    let mut p = pos;
    let mut i: usize = 0;
    while i < just_pressed.len()
        invariant
            i <= just_pressed@.len(),
            moves_fit(pos, just_pressed@),
            p == moved_all(pos, just_pressed@.take(i as int)),
        decreases just_pressed@.len() - i,
    {
        proof { lemma_moves_fit_prefix(pos, just_pressed@, i + 1); }
        assert(just_pressed@.take(i + 1).drop_last() =~= just_pressed@.take(i as int));
        p = apply_player_action(p, just_pressed[i]);
        i = i + 1;
    }
    assert(just_pressed@.take(i as int) =~= just_pressed@);
    p
}

proof fn lemma_moves_fit_prefix(p: Pos, actions: Seq<PlayerActions>, n: int)
    requires
        0 <= n <= actions.len(),
        moves_fit(p, actions),
    ensures
        moves_fit(p, actions.take(n)),
    decreases actions.len(),
{
    if n < actions.len() {
        assert(actions.drop_last().take(n) =~= actions.take(n));
        lemma_moves_fit_prefix(p, actions.drop_last(), n);
    } else {
        assert(actions.take(n) =~= actions);
    }
}

/// Moving up then down, or right then left, returns to the start.
pub proof fn law_moves_undo(p: Pos)
    ensures
        p.y < u32::MAX ==> moved(moved(p, PlayerActions::Up), PlayerActions::Down) == p,
        p.x < u32::MAX ==> moved(moved(p, PlayerActions::Right), PlayerActions::Left) == p,
        p.y > 0 ==> moved(moved(p, PlayerActions::Down), PlayerActions::Up) == p,
        p.x > 0 ==> moved(moved(p, PlayerActions::Left), PlayerActions::Right) == p,
{
}

} // verus!
