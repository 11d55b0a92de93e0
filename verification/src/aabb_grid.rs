use vstd::prelude::*;

use crate::math::UVec2;

verus! {

/// An axis-aligned box of grid positions: `min` inclusive, `max` exclusive.
pub struct Aabb {
    min: UVec2,
    max: UVec2,
}

impl Aabb {
    /// The inclusive lower corner.
    pub closed spec fn lo(&self) -> UVec2 {
        self.min
    }

    /// The exclusive upper corner.
    pub closed spec fn hi(&self) -> UVec2 {
        self.max
    }

    /// `pos` lies inside the box.
    pub open spec fn covers(&self, pos: UVec2) -> bool {
        &&& self.lo().x <= pos.x < self.hi().x
        &&& self.lo().y <= pos.y < self.hi().y
    }

    pub fn contains(&self, pos: UVec2) -> (r: bool)
        ensures
            r == self.covers(pos),
    {
        (self.min.x <= pos.x && pos.x < self.max.x) && (self.min.y <= pos.y && pos.y < self.max.y)
    }
}

/// Index of the first box of `s` that covers `pos`.
pub open spec fn first_hit(s: Seq<Aabb>, pos: UVec2) -> Option<int>
    decreases s.len(),
{
    if s.len() == 0 {
        None
    } else {
        match first_hit(s.drop_last(), pos) {
            Some(i) => Some(i),
            None => if s.last().covers(pos) {
                Some(s.len() - 1)
            } else {
                None
            },
        }
    }
}

/// `first_hit` finds the first covering box, and only that.
pub proof fn lemma_first_hit(s: Seq<Aabb>, pos: UVec2)
    ensures
        first_hit(s, pos) matches Some(i) ==> 0 <= i < s.len() && s[i].covers(pos) && forall|j: int|
            0 <= j < i ==> !(#[trigger] s[j]).covers(pos),
        first_hit(s, pos) is None ==> forall|j: int| 0 <= j < s.len() ==> !(#[trigger] s[j]).covers(pos),
    decreases s.len(),
{
    if s.len() > 0 {
        lemma_first_hit(s.drop_last(), pos);
        assert forall|j: int| 0 <= j < s.len() - 1 implies s.drop_last()[j] == s[j] by {}
    }
}

/// A collection of boxes placed on a bounded area.
pub struct AabbCollection {
    aabbs: Vec<Aabb>,
    size: UVec2,
}

impl AabbCollection {
    /// The boxes, in storage order.
    pub closed spec fn boxes(&self) -> Seq<Aabb> {
        self.aabbs@
    }

    /// The area size the collection was made with.
    pub closed spec fn bounds(&self) -> UVec2 {
        self.size
    }

    /// `next` is what `add(pos, extents)` leaves of `self`.
    pub open spec fn add_outcome(&self, pos: UVec2, extents: UVec2, next: AabbCollection) -> bool {
        &&& next.bounds() == self.bounds()
        &&& first_hit(self.boxes(), pos) is Some ==> next.boxes() == self.boxes()
        &&& first_hit(self.boxes(), pos) is None ==> {
            &&& next.boxes().len() == self.boxes().len() + 1
            &&& next.boxes().drop_last() == self.boxes()
            &&& next.boxes().last().lo() == pos
            &&& next.boxes().last().hi() == UVec2 {
                x: (pos.x + extents.x) as u32,
                y: (pos.y + extents.y) as u32,
            }
        }
    }

    pub fn new(size: UVec2) -> (r: Self)
        ensures
            r.boxes().len() == 0,
            r.bounds() == size,
    {
        AabbCollection { aabbs: Vec::new(), size }
    }

    pub fn size(&self) -> (r: UVec2)
        ensures
            r == self.bounds(),
    {
        self.size
    }

    pub fn get_idx(&self, pos: UVec2) -> (r: Option<usize>)
        ensures
            r matches Some(i) ==> first_hit(self.boxes(), pos) == Some(i as int),
            r is None ==> first_hit(self.boxes(), pos) is None,
    {
        let mut i: usize = 0;
        while i < self.aabbs.len()
            invariant
                i <= self.aabbs@.len(),
                first_hit(self.aabbs@.take(i as int), pos) is None,
            decreases self.aabbs@.len() - i,
        {
            assert(self.aabbs@.take(i + 1).drop_last() =~= self.aabbs@.take(i as int));
            if self.aabbs[i].contains(pos) {
                proof {
                    lemma_first_hit(self.aabbs@.take(i as int), pos);
                    lemma_first_hit(self.aabbs@, pos);
                    lemma_first_hit(self.aabbs@.take(i + 1), pos);
                    lemma_hit_of_prefix(self.aabbs@, i as int + 1, pos);
                }
                return Some(i);
            }
            i = i + 1;
        }
        assert(self.aabbs@.take(i as int) =~= self.aabbs@);
        None
    }

    pub fn get(&self, pos: UVec2) -> (r: Option<&Aabb>)
        ensures
            r is Some <==> first_hit(self.boxes(), pos) is Some,
            r matches Some(b) ==> *b == self.boxes()[first_hit(self.boxes(), pos)->0],
    {
        match self.get_idx(pos) {
            Some(i) => {
                proof { lemma_first_hit(self.aabbs@, pos); }
                Some(&self.aabbs[i])
            },
            None => None,
        }
    }

    pub fn get_mut(&mut self, pos: UVec2) -> (r: Option<&mut Aabb>)
        ensures
            r is Some <==> first_hit(old(self).boxes(), pos) is Some,
            final(self).bounds() == old(self).bounds(),
            match first_hit(old(self).boxes(), pos) {
                Some(i) => {
                    &&& r matches Some(b) && *b == old(self).boxes()[i]
                    &&& final(self).boxes() == old(self).boxes().update(i, *final(r->0))
                },
                None => final(self).boxes() == old(self).boxes(),
            },
    {
        match self.get_idx(pos) {
            Some(i) => {
                proof { lemma_first_hit(self.aabbs@, pos); }
                Some(&mut self.aabbs[i])
            },
            None => None,
        }
    }

    pub fn remove(&mut self, pos: UVec2) -> (r: Option<Aabb>)
        ensures
            final(self).bounds() == old(self).bounds(),
            match first_hit(old(self).boxes(), pos) {
                Some(i) => {
                    &&& r == Some(old(self).boxes()[i])
                    &&& final(self).boxes() == old(self).boxes().update(i, old(self).boxes().last()).drop_last()
                },
                None => r is None && final(self).boxes() == old(self).boxes(),
            },
    {
        let idx = self.get_idx(pos);
        match idx {
            Some(i) => {
                proof { lemma_first_hit(self.aabbs@, pos); }
                Some(self.aabbs.swap_remove(i))
            },
            None => None,
        }
    }

    /// Adds the box with corner `pos` and extent `extents` unless `pos` is
    /// already covered.
    pub fn add(&mut self, pos: UVec2, extents: UVec2)
        requires
            pos.x + extents.x <= u32::MAX,
            pos.y + extents.y <= u32::MAX,
        ensures
            final(self).bounds() == old(self).bounds(),
            old(self).add_outcome(pos, extents, *final(self)),
    {
        if self.get(pos).is_none() {
            self.aabbs.push(Aabb { min: pos, max: pos.add_vec(extents) });
            assert(self.aabbs@.drop_last() =~= old(self).aabbs@);
        }
    }
}

/// After `add(pos, extents)` with a non-empty extent, `pos` is covered by some
/// box, and every position covered before is still covered by the same box.
pub proof fn law_add_then_covered(c: AabbCollection, pos: UVec2, extents: UVec2, next: AabbCollection, q: UVec2)
    requires
        c.add_outcome(pos, extents, next),
        pos.x + extents.x <= u32::MAX,
        pos.y + extents.y <= u32::MAX,
        extents.x > 0,
        extents.y > 0,
    ensures
        first_hit(next.boxes(), pos) is Some,
        first_hit(c.boxes(), q) is Some ==> first_hit(next.boxes(), q) == first_hit(c.boxes(), q),
{
    lemma_first_hit(c.boxes(), pos);
    lemma_first_hit(next.boxes(), pos);
    lemma_first_hit(c.boxes(), q);
    lemma_first_hit(next.boxes(), q);
    if first_hit(c.boxes(), pos) is None {
        assert forall|j: int| 0 <= j < c.boxes().len() implies next.boxes()[j] == c.boxes()[j] by {
            assert(next.boxes().drop_last()[j] == next.boxes()[j]);
        }
        assert(next.boxes().last().covers(pos));
    }
}

/// Removing at a covered position takes out exactly one box, the first that
/// covered it; removing at an uncovered position changes nothing.
pub proof fn law_remove_takes_one(c: AabbCollection, pos: UVec2, r: Option<Aabb>, next: AabbCollection)
    requires
        match first_hit(c.boxes(), pos) {
            Some(i) => r == Some(c.boxes()[i]) && next.boxes() == c.boxes().update(i, c.boxes().last()).drop_last(),
            None => r is None && next.boxes() == c.boxes(),
        },
    ensures
        r is Some ==> next.boxes().len() == c.boxes().len() - 1 && r->0.covers(pos),
        r is None ==> next.boxes() == c.boxes(),
{
    lemma_first_hit(c.boxes(), pos);
}

proof fn lemma_hit_of_prefix(s: Seq<Aabb>, n: int, pos: UVec2)
    requires
        0 < n <= s.len(),
        first_hit(s.take(n - 1), pos) is None,
        s[n - 1].covers(pos),
    ensures
        first_hit(s, pos) == Some(n - 1),
{
    lemma_first_hit(s, pos);
    lemma_first_hit(s.take(n - 1), pos);
    assert forall|j: int| 0 <= j < n - 1 implies !(#[trigger] s[j]).covers(pos) by {
        assert(s.take(n - 1)[j] == s[j]);
    }
}

} // verus!
