//! Picking up and throwing things.

use vstd::prelude::*;

verus! {

/// The first entity of `colliding` that can be held.
pub open spec fn first_holdable(colliding: Seq<u64>, holdables: Set<u64>) -> Option<u64>
    decreases colliding.len(),
{
    if colliding.len() == 0 {
        None
    } else if holdables.contains(colliding[0]) {
        Some(colliding[0])
    } else {
        first_holdable(colliding.drop_first(), holdables)
    }
}

fn contains_entity(v: &Vec<u64>, e: u64) -> (r: bool)
    ensures
        r == v@.contains(e),
{
    let mut i: usize = 0;
    while i < v.len()
        invariant
            i <= v@.len(),
            forall|j: int| 0 <= j < i ==> v@[j] != e,
        decreases v@.len() - i,
    {
        if v[i] == e {
            assert(v@[i as int] == e);
            return true;
        }
        i = i + 1;
    }
    false
}

/// What the holder picks up this frame: nothing while it holds something;
/// else, when the pick-up key was just pressed, the first thing it touches
/// that can be held.
pub fn pick_up(holding: bool, pick_pressed: bool, colliding: &Vec<u64>, holdables: &Vec<u64>) -> (r: Option<u64>)
    ensures
        r == (if !holding && pick_pressed {
            first_holdable(colliding@, holdables@.to_set())
        } else {
            None
        }),
{
    if holding || !pick_pressed {
        return None;
    }
    assert(colliding@.skip(0) =~= colliding@);
    let mut i: usize = 0;
    while i < colliding.len()
        invariant
            !holding && pick_pressed,
            i <= colliding@.len(),
            first_holdable(colliding@, holdables@.to_set()) == first_holdable(colliding@.skip(i as int), holdables@.to_set()),
        decreases colliding@.len() - i,
    {
        let e = colliding[i];
        let found = contains_entity(holdables, e);
        assert(colliding@.skip(i as int)[0] == e);
        assert(colliding@.skip(i as int).len() > 0);
        assert(holdables@.to_set().contains(e) == holdables@.contains(e));
        if found {
            return Some(e);
        }
        assert(colliding@.skip(i as int).drop_first() =~= colliding@.skip(i + 1));
        i = i + 1;
    }
    None
}

/// What the holder throws this frame: the thing it holds, when the throw key
/// was just pressed.
pub fn throw(held: Option<u64>, throw_pressed: bool) -> (r: Option<u64>)
    ensures
        r == (if throw_pressed {
            held
        } else {
            None
        }),
{
    if throw_pressed {
        held
    } else {
        None
    }
}

proof fn lemma_first_holdable(colliding: Seq<u64>, holdables: Set<u64>)
    ensures
        first_holdable(colliding, holdables) matches Some(e) ==> colliding.contains(e) && holdables.contains(e),
        first_holdable(colliding, holdables) is None ==> forall|i: int|
            0 <= i < colliding.len() ==> !holdables.contains(#[trigger] colliding[i]),
    decreases colliding.len(),
{
    if colliding.len() > 0 {
        lemma_first_holdable(colliding.drop_first(), holdables);
        if let Some(e) = first_holdable(colliding, holdables) {
            if !holdables.contains(colliding[0]) {
                let k = choose|k: int| 0 <= k < colliding.drop_first().len() && colliding.drop_first()[k] == e;
                assert(colliding[k + 1] == e);
            } else {
                assert(colliding[0] == e);
            }
        } else {
            assert forall|i: int| 0 <= i < colliding.len() implies !holdables.contains(#[trigger] colliding[i]) by {
                if i > 0 {
                    assert(colliding[i] == colliding.drop_first()[i - 1]);
                }
            }
        }
    }
}

/// A holder holds at most one thing: it picks something up only while it
/// holds nothing, so with at most one thing held before a frame there is at
/// most one after it. What it picks up is something it touches that can be
/// held, and when the key was pressed with empty hands it picks something up
/// exactly when it touches anything that can be held.
pub proof fn law_pick_up_holds_one(held: nat, pick_pressed: bool, colliding: Seq<u64>, holdables: Set<u64>)
    requires
        held <= 1,
    ensures
        ({
            let picked = if !(held > 0) && pick_pressed { first_holdable(colliding, holdables) } else { None };
            &&& held + (if picked is Some { 1nat } else { 0nat }) <= 1
            &&& picked matches Some(e) ==> colliding.contains(e) && holdables.contains(e)
            &&& held == 0 && pick_pressed ==> (picked is Some <==> exists|i: int|
                0 <= i < colliding.len() && holdables.contains(#[trigger] colliding[i]))
        }),
{
    lemma_first_holdable(colliding, holdables);
    if let Some(e) = first_holdable(colliding, holdables) {
        let k = choose|k: int| 0 <= k < colliding.len() && colliding[k] == e;
        assert(holdables.contains(colliding[k]));
    }
}

} // verus!
