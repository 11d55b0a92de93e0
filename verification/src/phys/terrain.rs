use vstd::prelude::*;

use crate::collections::{entity_set_contents, EntitySet};

verus! {

/// The directions a pole can be climbed in.
#[derive(Clone, Copy, Debug, PartialEq, Eq, Structural)]
pub enum PoleType {
    Horizontal,
    Vertical,
    Combined,
}

impl Default for PoleType {
    fn default() -> (r: PoleType)
        ensures
            r == PoleType::Horizontal,
    {
        PoleType::Horizontal
    }
}

/// A pole and the directions it is climbed in.
#[derive(Clone, Copy, Debug, PartialEq, Eq, Structural, Default)]
pub struct Pole(pub PoleType);

/// A one-way platform, with the entities passing through it from below.
pub struct Platform(pub EntitySet);

impl Platform {
    pub fn new() -> (p: Platform)
        ensures
            entity_set_contents(p.0) =~= Set::empty(),
    {
        Platform(EntitySet::new())
    }

    /// Whether `e` is passing through the platform.
    pub fn is_passing(&self, e: u64) -> (r: bool)
        ensures
            r == entity_set_contents(self.0).contains(e),
    {
        self.0.contains(e)
    }
}

/// A contact between two colliders as the platform rule reads it: whether
/// any contact point penetrates, and whether every contact normal of each
/// side points up (by at least 60 degrees from the horizontal).
#[derive(Clone, Copy, Debug, PartialEq, Eq, Structural)]
pub struct ContactPair {
    pub e1: u64,
    pub e2: u64,
    pub penetrating: bool,
    pub normal1_up: bool,
    pub normal2_up: bool,
}

/// Index of the first platform of entity `e`.
pub open spec fn platform_of(ps: Seq<(u64, Set<u64>)>, e: u64) -> Option<int>
    decreases ps.len(),
{
    if ps.len() == 0 {
        None
    } else {
        match platform_of(ps.drop_last(), e) {
            Some(i) => Some(i),
            None => if ps.last().0 == e {
                Some(ps.len() - 1)
            } else {
                None
            },
        }
    }
}

proof fn lemma_platform_of(ps: Seq<(u64, Set<u64>)>, e: u64)
    ensures
        platform_of(ps, e) matches Some(i) ==> 0 <= i < ps.len() && ps[i].0 == e && forall|j: int|
            0 <= j < i ==> (#[trigger] ps[j]).0 != e,
        platform_of(ps, e) is None ==> forall|j: int| 0 <= j < ps.len() ==> (#[trigger] ps[j]).0 != e,
    decreases ps.len(),
{
    if ps.len() > 0 {
        lemma_platform_of(ps.drop_last(), e);
        assert forall|j: int| 0 <= j < ps.len() - 1 implies ps.drop_last()[j] == ps[j] by {}
    }
}

/// The platform rule for one contact, on the platforms' pass sets: the new
/// pass sets, and whether the contact is kept (resolved by the physics).
///
/// A contact not touching a platform is kept. An entity already passing
/// through the platform keeps passing while it penetrates (contact dropped)
/// and stops passing once it does not. A collider other than a platform
/// then lands on the platform from above (all normals up: kept), starts
/// passing when it penetrates from elsewhere (dropped), and else is kept.
pub open spec fn platform_step(ps: Seq<(u64, Set<u64>)>, passers: Set<u64>, c: ContactPair) -> (Seq<(u64, Set<u64>)>, bool) {
    let side = if platform_of(ps, c.e1) is Some {
        Some((platform_of(ps, c.e1)->0, c.e2, c.normal1_up))
    } else if platform_of(ps, c.e2) is Some {
        Some((platform_of(ps, c.e2)->0, c.e1, c.normal2_up))
    } else {
        None
    };
    match side {
        None => (ps, true),
        Some((i, other, up)) => {
            let set = ps[i].1;
            if set.contains(other) && c.penetrating {
                (ps, false)
            } else {
                let set1 = set.remove(other);
                if passers.contains(other) && !up && c.penetrating {
                    (ps.update(i, (ps[i].0, set1.insert(other))), false)
                } else {
                    (ps.update(i, (ps[i].0, set1)), true)
                }
            }
        },
    }
}

/// The platform rule applied to the contacts in order: the final pass sets
/// and which contacts are kept.
pub open spec fn platform_steps(ps: Seq<(u64, Set<u64>)>, passers: Set<u64>, cs: Seq<ContactPair>) -> (Seq<(u64, Set<u64>)>, Seq<bool>)
    decreases cs.len(),
{
    if cs.len() == 0 {
        (ps, Seq::empty())
    } else {
        let (ps1, kept) = platform_steps(ps, passers, cs.drop_last());
        let (ps2, k) = platform_step(ps1, passers, cs.last());
        (ps2, kept.push(k))
    }
}

/// The pass sets of the platforms, by platform entity.
pub open spec fn pass_sets(platforms: Seq<(u64, Platform)>) -> Seq<(u64, Set<u64>)> {
    platforms.map_values(|p: (u64, Platform)| (p.0, entity_set_contents((p.1).0)))
}

fn find_platform(platforms: &Vec<(u64, Platform)>, e: u64) -> (r: Option<usize>)
    ensures
        r matches Some(i) ==> platform_of(pass_sets(platforms@), e) == Some(i as int),
        r is None ==> platform_of(pass_sets(platforms@), e) is None,
{
    let ghost ps = pass_sets(platforms@);
    let mut i: usize = 0;
    while i < platforms.len()
        invariant
            i <= platforms@.len(),
            ps == pass_sets(platforms@),
            forall|j: int| 0 <= j < i ==> (#[trigger] ps[j]).0 != e,
        decreases platforms@.len() - i,
    {
        assert(ps[i as int].0 == platforms@[i as int].0);
        if platforms[i].0 == e {
            proof {
                lemma_platform_of(ps, e);
                if let Some(k) = platform_of(ps, e) {
                    assert(k == i as int);
                }
            }
            return Some(i);
        }
        i = i + 1;
    }
    proof { lemma_platform_of(ps, e); }
    None
}

fn contains_entity(v: &Vec<u64>, e: u64) -> (r: bool)
    ensures
        r == v@.contains(e),
{
    let mut i: usize = 0;
    while i < v.len()
        invariant
            i <= v@.len(),
            forall|j: int| 0 <= j < i ==> v@[j] != e,
        decreases v@.len() - i,
    {
        if v[i] == e {
            assert(v@[i as int] == e);
            return true;
        }
        i = i + 1;
    }
    false
}

/// One-way platforms: decides, for each contact in order, whether the
/// physics resolves it, and keeps track of who passes through which
/// platform. `passers` are the colliders that are not platforms.
pub fn handle_platforms(platforms: &mut Vec<(u64, Platform)>, passers: &Vec<u64>, contacts: &Vec<ContactPair>) -> (kept: Vec<bool>)
    ensures
        (pass_sets(final(platforms)@), kept@) == platform_steps(pass_sets(old(platforms)@), passers@.to_set(), contacts@),
{
    let mut kept: Vec<bool> = Vec::new();
    let mut k: usize = 0;
    while k < contacts.len()
        invariant
            k <= contacts@.len(),
            (pass_sets(platforms@), kept@) == platform_steps(
                pass_sets(old(platforms)@),
                passers@.to_set(),
                contacts@.take(k as int),
            ),
        decreases contacts@.len() - k,
    {
        let c = contacts[k];
        let ghost ps = pass_sets(platforms@);
        let ghost expected = platform_step(ps, passers@.to_set(), c);
        let found = match find_platform(platforms, c.e1) {
            Some(i) => Some((i, c.e2, c.normal1_up)),
            None => match find_platform(platforms, c.e2) {
                Some(i) => Some((i, c.e1, c.normal2_up)),
                None => None,
            },
        };
        let keep = match found {
            None => true,
            Some((i, other, up)) => {
                proof { lemma_platform_of(ps, if platform_of(ps, c.e1) is Some { c.e1 } else { c.e2 }); }
                let (e, mut platform) = platforms.remove(i);
                let keep = if platform.0.contains(other) && c.penetrating {
                    false
                } else {
                    platform.0.remove(other);
                    if contains_entity(passers, other) && !up && c.penetrating {
                        platform.0.insert(other);
                        false
                    } else {
                        true
                    }
                };
                platforms.insert(i, (e, platform));
                keep
            },
        };
        kept.push(keep);
        proof {
            assert(pass_sets(platforms@) =~= expected.0);
            assert(contacts@.take(k + 1).drop_last() =~= contacts@.take(k as int));
        }
        k = k + 1;
    }
    assert(contacts@.take(k as int) =~= contacts@);
    kept
}

/// An entity passing through a platform is not stopped by it while it
/// penetrates it; an entity not passing through lands on a platform it
/// meets from above, and is not counted as passing.
pub proof fn law_platform_pass_and_land(ps: Seq<(u64, Set<u64>)>, passers: Set<u64>, c: ContactPair)
    requires
        platform_of(ps, c.e1) is Some,
    ensures
        ({
            let i = platform_of(ps, c.e1)->0;
            &&& ps[i].1.contains(c.e2) && c.penetrating ==> platform_step(ps, passers, c) == (ps, false)
            &&& c.normal1_up && !(ps[i].1.contains(c.e2) && c.penetrating) ==> {
                &&& platform_step(ps, passers, c).1
                &&& !platform_step(ps, passers, c).0[i].1.contains(c.e2)
            }
        }),
{
    lemma_platform_of(ps, c.e1);
}

/// The platform (by index) and the other collider of a contact, if the
/// contact touches a platform.
pub open spec fn contact_side(ps: Seq<(u64, Set<u64>)>, c: ContactPair) -> Option<(int, u64)> {
    if platform_of(ps, c.e1) is Some {
        Some((platform_of(ps, c.e1)->0, c.e2))
    } else if platform_of(ps, c.e2) is Some {
        Some((platform_of(ps, c.e2)->0, c.e1))
    } else {
        None
    }
}

/// The platform entities, in order.
pub open spec fn platform_ids(ps: Seq<(u64, Set<u64>)>) -> Seq<u64> {
    ps.map_values(|p: (u64, Set<u64>)| p.0)
}

proof fn lemma_platform_of_ids(ps: Seq<(u64, Set<u64>)>, qs: Seq<(u64, Set<u64>)>, e: u64)
    requires
        platform_ids(ps) == platform_ids(qs),
    ensures
        platform_of(ps, e) == platform_of(qs, e),
    decreases ps.len(),
{
    assert(ps.len() == platform_ids(ps).len());
    assert(qs.len() == platform_ids(qs).len());
    if ps.len() > 0 {
        assert(platform_ids(ps.drop_last()) =~= platform_ids(ps).drop_last());
        assert(platform_ids(qs.drop_last()) =~= platform_ids(qs).drop_last());
        lemma_platform_of_ids(ps.drop_last(), qs.drop_last(), e);
        assert(platform_ids(ps)[ps.len() - 1] == ps.last().0);
        assert(platform_ids(qs)[qs.len() - 1] == qs.last().0);
    }
}

/// One step keeps the platforms and their order, drops a contact only when it
/// penetrates and leaves the other collider passing, and changes no pass set
/// but the one of the contact's own pair.
proof fn lemma_step_facts(ps: Seq<(u64, Set<u64>)>, passers: Set<u64>, c: ContactPair)
    ensures
        platform_ids(platform_step(ps, passers, c).0) == platform_ids(ps),
        !c.penetrating ==> platform_step(ps, passers, c).1,
        !platform_step(ps, passers, c).1 ==> (contact_side(ps, c) matches Some((i, o)) && 0 <= i < ps.len()
            && platform_step(ps, passers, c).0[i].1.contains(o)),
        forall|i: int, x: u64| 0 <= i < ps.len() && contact_side(ps, c) != Some((i, x))
            ==> (#[trigger] platform_step(ps, passers, c).0[i].1.contains(x)) == ps[i].1.contains(x),
{
    lemma_platform_of(ps, c.e1);
    lemma_platform_of(ps, c.e2);
    let r = platform_step(ps, passers, c).0;
    assert(platform_ids(r) =~= platform_ids(ps));
}

proof fn lemma_steps_ids(ps: Seq<(u64, Set<u64>)>, passers: Set<u64>, cs: Seq<ContactPair>)
    ensures
        platform_ids(platform_steps(ps, passers, cs).0) == platform_ids(ps),
        platform_steps(ps, passers, cs).1.len() == cs.len(),
    decreases cs.len(),
{
    if cs.len() > 0 {
        lemma_steps_ids(ps, passers, cs.drop_last());
        lemma_step_facts(platform_steps(ps, passers, cs.drop_last()).0, passers, cs.last());
    }
}

proof fn lemma_steps_prefix(ps: Seq<(u64, Set<u64>)>, passers: Set<u64>, cs: Seq<ContactPair>, m: int)
    requires
        0 <= m <= cs.len(),
    ensures
        platform_steps(ps, passers, cs.take(m)).1 == platform_steps(ps, passers, cs).1.take(m),
    decreases cs.len(),
{
    lemma_steps_ids(ps, passers, cs);
    if m == cs.len() {
        assert(cs.take(m) =~= cs);
        assert(platform_steps(ps, passers, cs).1.take(m) =~= platform_steps(ps, passers, cs).1);
    } else {
        let cs1 = cs.drop_last();
        lemma_steps_prefix(ps, passers, cs1, m);
        assert(cs.take(m) =~= cs1.take(m));
        lemma_steps_ids(ps, passers, cs1);
        assert(platform_steps(ps, passers, cs).1.take(m) =~= platform_steps(ps, passers, cs1).1.take(m));
    }
}

proof fn lemma_steps_next(ps: Seq<(u64, Set<u64>)>, passers: Set<u64>, cs: Seq<ContactPair>, m: int)
    requires
        0 <= m < cs.len(),
    ensures
        platform_steps(ps, passers, cs.take(m + 1)) == ({
            let (ps1, kept) = platform_steps(ps, passers, cs.take(m));
            let (ps2, k) = platform_step(ps1, passers, cs[m]);
            (ps2, kept.push(k))
        }),
{
    assert(cs.take(m + 1).drop_last() =~= cs.take(m));
    assert(cs.take(m + 1).last() == cs[m]);
}

/// Membership of `x` in the pass set of platform `i` survives contacts
/// `from..to` when none of them is between that platform and `x`.
proof fn lemma_membership_kept(ps: Seq<(u64, Set<u64>)>, passers: Set<u64>, cs: Seq<ContactPair>, from: int, to: int, i: int, x: u64)
    requires
        0 <= from <= to <= cs.len(),
        0 <= i < ps.len(),
        forall|k: int| from <= k < to ==> contact_side(ps, #[trigger] cs[k]) != Some((i, x)),
    ensures
        platform_steps(ps, passers, cs.take(to)).0[i].1.contains(x) == platform_steps(ps, passers, cs.take(from)).0[i].1.contains(x),
    decreases to - from,
{
    if from < to {
        lemma_membership_kept(ps, passers, cs, from, to - 1, i, x);
        let before = platform_steps(ps, passers, cs.take(to - 1)).0;
        lemma_steps_next(ps, passers, cs, to - 1);
        lemma_steps_ids(ps, passers, cs.take(to - 1));
        lemma_platform_of_ids(before, ps, cs[to - 1].e1);
        lemma_platform_of_ids(before, ps, cs[to - 1].e2);
        assert(before.len() == platform_ids(before).len());
        assert(ps.len() == platform_ids(ps).len());
        lemma_step_facts(before, passers, cs[to - 1]);
        assert(contact_side(before, cs[to - 1]) == contact_side(ps, cs[to - 1]));
    }
}

/// Over a whole frame of contacts: a contact that does not penetrate is
/// always resolved; a contact that is dropped penetrates, touches a platform,
/// and leaves the other collider passing through that platform right after
/// it, and still at the end when no later contact is between the same two.
/// The platforms themselves stay the same and in the same order.
pub proof fn law_platforms_drop_only_passing(ps: Seq<(u64, Set<u64>)>, passers: Set<u64>, cs: Seq<ContactPair>, j: int)
    requires
        0 <= j < cs.len(),
    ensures
        ({
            let (fin, kept) = platform_steps(ps, passers, cs);
            &&& kept.len() == cs.len()
            &&& platform_ids(fin) == platform_ids(ps)
            &&& !cs[j].penetrating ==> kept[j]
            &&& !kept[j] ==> {
                &&& cs[j].penetrating
                &&& contact_side(ps, cs[j]) matches Some((i, o))
                &&& 0 <= i < ps.len()
                &&& platform_steps(ps, passers, cs.take(j + 1)).0[i].1.contains(o)
                &&& (forall|k: int| j < k < cs.len() ==> contact_side(ps, #[trigger] cs[k]) != contact_side(ps, cs[j]))
                    ==> fin[i].1.contains(o)
            }
        }),
{
    lemma_steps_ids(ps, passers, cs);
    lemma_steps_prefix(ps, passers, cs, j + 1);
    lemma_steps_next(ps, passers, cs, j);
    let before = platform_steps(ps, passers, cs.take(j)).0;
    lemma_steps_ids(ps, passers, cs.take(j));
    lemma_platform_of_ids(before, ps, cs[j].e1);
    lemma_platform_of_ids(before, ps, cs[j].e2);
    assert(before.len() == platform_ids(before).len());
    assert(ps.len() == platform_ids(ps).len());
    lemma_step_facts(before, passers, cs[j]);
    assert(contact_side(before, cs[j]) == contact_side(ps, cs[j]));
    let kept = platform_steps(ps, passers, cs).1;
    assert(kept[j] == platform_steps(ps, passers, cs.take(j + 1)).1[j]);
    if !kept[j] {
        let (i, o) = contact_side(ps, cs[j])->0;
        if forall|k: int| j < k < cs.len() ==> contact_side(ps, #[trigger] cs[k]) != contact_side(ps, cs[j]) {
            lemma_membership_kept(ps, passers, cs, j + 1, cs.len() as int, i, o);
            assert(cs.take(cs.len() as int) =~= cs);
        }
    }
}

} // verus!
