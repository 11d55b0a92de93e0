//! Entities that live for a limited time.

use vstd::prelude::*;

use crate::phys::movement::Timer;

verus! {

/// How long an entity has left to live.
#[derive(Clone, Copy, Debug, PartialEq, Eq, Structural)]
pub struct Lifetime {
    pub lifetime: Timer,
}

impl Lifetime {
    /// A lifetime of `nanos` nanoseconds that has just started.
    pub fn new(nanos: u64) -> (l: Lifetime)
        ensures
            l.lifetime == (Timer { duration: nanos, elapsed: 0 }),
    {
        Lifetime { lifetime: Timer::new(nanos) }
    }
}

/// Lets `delta` nanoseconds pass on every lifetime and returns, in order,
/// the entities whose lifetime has run out, to be despawned.
pub fn handle_lifetimes(lifetimes: &mut Vec<(u64, Lifetime)>, delta: u64) -> (expired: Vec<u64>)
    requires
        forall|i: int| 0 <= i < old(lifetimes)@.len() ==> (#[trigger] old(lifetimes)@[i]).1.lifetime.elapsed
            <= old(lifetimes)@[i].1.lifetime.duration,
    ensures
        final(lifetimes)@.len() == old(lifetimes)@.len(),
        forall|i: int| 0 <= i < old(lifetimes)@.len() ==> {
            let (e, l) = #[trigger] old(lifetimes)@[i];
            let t = l.lifetime;
            &&& final(lifetimes)@[i].0 == e
            &&& final(lifetimes)@[i].1.lifetime.duration == t.duration
            &&& final(lifetimes)@[i].1.lifetime.elapsed == (if t.elapsed + delta >= t.duration {
                t.duration as int
            } else {
                t.elapsed + delta
            })
        },
        expired@ == old(lifetimes)@.filter(|p: (u64, Lifetime)| p.1.lifetime.elapsed + delta >= p.1.lifetime.duration).map_values(
            |p: (u64, Lifetime)| p.0,
        ),
{
    let ghost start = lifetimes@;
    let ghost expiring = |p: (u64, Lifetime)| p.1.lifetime.elapsed + delta >= p.1.lifetime.duration;
    let mut expired: Vec<u64> = Vec::new();
    let mut i: usize = 0;
    while i < lifetimes.len()
        invariant
            i <= lifetimes@.len(),
            lifetimes@.len() == start.len(),
            forall|j: int| 0 <= j < start.len() ==> (#[trigger] start[j]).1.lifetime.elapsed <= start[j].1.lifetime.duration,
            forall|j: int| i <= j < start.len() ==> #[trigger] lifetimes@[j] == start[j],
            forall|j: int| 0 <= j < i ==> {
                let (e, l) = #[trigger] start[j];
                let t = l.lifetime;
                &&& lifetimes@[j].0 == e
                &&& lifetimes@[j].1.lifetime.duration == t.duration
                &&& lifetimes@[j].1.lifetime.elapsed == (if t.elapsed + delta >= t.duration {
                    t.duration as int
                } else {
                    t.elapsed + delta
                })
            },
            expiring == (|p: (u64, Lifetime)| p.1.lifetime.elapsed + delta >= p.1.lifetime.duration),
            expired@ == start.take(i as int).filter(expiring).map_values(|p: (u64, Lifetime)| p.0),
        decreases start.len() - i,
    {
        let (e, mut l) = lifetimes[i];
        l.lifetime.tick(delta);
        lifetimes.set(i, (e, l));
        if l.lifetime.finished() {
            expired.push(e);
        }
        proof {
            let s = start.take(i + 1);
            assert(s.drop_last() =~= start.take(i as int));
            start.take(i as int).lemma_filter_push(start[i as int], expiring);
            assert(s =~= start.take(i as int).push(start[i as int]));
        }
        i = i + 1;
    }
    assert(start.take(i as int) =~= start);
    expired
}

} // verus!
