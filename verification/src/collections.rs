use vstd::prelude::*;

use crate::editor::tools::ToolData;
use crate::phys::movement::Timer;

verus! {

/// A hash map from cell coordinates to the entities stored in that cell
/// (hashbrown's `HashMap`, which Verus cannot declare directly because of
/// its allocator parameter).
#[verifier::external_body]
pub struct CellMap {
    map: hashbrown::HashMap<(i32, i32), Vec<u64>>,
}

/// What a cell map holds: the entity list of every occupied cell.
pub uninterp spec fn cell_map_contents(m: CellMap) -> Map<(i32, i32), Seq<u64>>;

/// The entities of a cell, or none when the cell is not in the map.
pub open spec fn cell_entities(m: Map<(i32, i32), Seq<u64>>, key: (i32, i32)) -> Seq<u64> {
    if m.contains_key(key) {
        m[key]
    } else {
        seq![]
    }
}

impl CellMap {
    /// `hashbrown::HashMap::default`: an empty map.
    #[verifier::external_body]
    pub(crate) fn new() -> (m: CellMap)
        ensures
            cell_map_contents(m) =~= Map::empty(),
    {
        CellMap { map: hashbrown::HashMap::default() }
    }

    /// `entry(key).or_default()` followed by a push: appends `entity` to the
    /// cell's list, creating an empty list first when the cell is absent.
    #[verifier::external_body]
    pub(crate) fn push_at(&mut self, key: (i32, i32), entity: u64)
        ensures
            cell_map_contents(*final(self)) == cell_map_contents(*old(self)).insert(
                key,
                cell_entities(cell_map_contents(*old(self)), key).push(entity),
            ),
    {
        self.map.entry(key).or_default().push(entity);
    }

    /// `HashMap::get`: the cell's list, if the cell is in the map.
    #[verifier::external_body]
    pub(crate) fn get(&self, key: (i32, i32)) -> (r: Option<&Vec<u64>>)
        ensures
            r is Some <==> cell_map_contents(*self).contains_key(key),
            r matches Some(v) ==> v@ == cell_map_contents(*self)[key],
    {
        self.map.get(&key)
    }

    /// `HashMap::clear`: removes every cell.
    #[verifier::external_body]
    pub(crate) fn clear(&mut self)
        ensures
            cell_map_contents(*final(self)) =~= Map::empty(),
    {
        self.map.clear();
    }
}

/// A hash map from tool ids to tool descriptions (hashbrown's `HashMap`).
#[verifier::external_body]
pub struct ToolMap {
    map: hashbrown::HashMap<usize, ToolData>,
}

/// What a tool map holds.
pub uninterp spec fn tool_map_contents(m: ToolMap) -> Map<usize, ToolData>;

impl ToolMap {
    /// `hashbrown::HashMap::new`: an empty map.
    #[verifier::external_body]
    pub(crate) fn new() -> (m: ToolMap)
        ensures
            tool_map_contents(m) =~= Map::empty(),
    {
        ToolMap { map: hashbrown::HashMap::new() }
    }

    /// `HashMap::insert`: stores `value` under `key` and returns what was
    /// stored there before.
    #[verifier::external_body]
    pub(crate) fn insert(&mut self, key: usize, value: ToolData) -> (r: Option<ToolData>)
        ensures
            tool_map_contents(*final(self)) == tool_map_contents(*old(self)).insert(key, value),
            r == (if tool_map_contents(*old(self)).contains_key(key) {
                Some(tool_map_contents(*old(self))[key])
            } else {
                None
            }),
    {
        self.map.insert(key, value)
    }

    /// `HashMap::get`.
    #[verifier::external_body]
    pub(crate) fn get(&self, key: usize) -> (r: Option<&ToolData>)
        ensures
            r is Some <==> tool_map_contents(*self).contains_key(key),
            r matches Some(v) ==> *v == tool_map_contents(*self)[key],
    {
        self.map.get(&key)
    }

    /// `HashMap::len`: the number of tools.
    #[verifier::external_body]
    pub(crate) fn len(&self) -> (n: usize)
        ensures
            n == tool_map_contents(*self).len(),
    {
        self.map.len()
    }
}

/// A hash map from action numbers to input lock timers (hashbrown's
/// `HashMap`).
#[verifier::external_body]
pub struct ActionTimers {
    map: hashbrown::HashMap<usize, Timer>,
}

/// What an action timer map holds.
pub uninterp spec fn action_timers_contents(m: ActionTimers) -> Map<usize, Timer>;

impl ActionTimers {
    /// `hashbrown::HashMap::default`: an empty map.
    #[verifier::external_body]
    pub(crate) fn new() -> (m: ActionTimers)
        ensures
            action_timers_contents(m) =~= Map::empty(),
    {
        ActionTimers { map: hashbrown::HashMap::default() }
    }

    /// `HashMap::insert`: stores `value` under `key`, dropping what was there.
    #[verifier::external_body]
    pub(crate) fn insert(&mut self, key: usize, value: Timer)
        ensures
            action_timers_contents(*final(self)) == action_timers_contents(*old(self)).insert(key, value),
    {
        self.map.insert(key, value);
    }

    /// `HashMap::get`, the timer copied out.
    #[verifier::external_body]
    pub(crate) fn get(&self, key: usize) -> (r: Option<Timer>)
        ensures
            r is Some <==> action_timers_contents(*self).contains_key(key),
            r matches Some(v) ==> v == action_timers_contents(*self)[key],
    {
        self.map.get(&key).copied()
    }
}

/// A hash set of entities (hashbrown's `HashSet`).
#[verifier::external_body]
pub struct EntitySet {
    set: hashbrown::HashSet<u64>,
}

/// What an entity set holds.
pub uninterp spec fn entity_set_contents(s: EntitySet) -> Set<u64>;

impl EntitySet {
    /// `HashSet::default`: an empty set.
    #[verifier::external_body]
    pub(crate) fn new() -> (s: EntitySet)
        ensures
            entity_set_contents(s) =~= Set::empty(),
    {
        EntitySet { set: hashbrown::HashSet::default() }
    }

    /// `HashSet::contains`.
    #[verifier::external_body]
    pub(crate) fn contains(&self, e: u64) -> (r: bool)
        ensures
            r == entity_set_contents(*self).contains(e),
    {
        self.set.contains(&e)
    }

    /// `HashSet::insert`, discarding whether the entity was new.
    #[verifier::external_body]
    pub(crate) fn insert(&mut self, e: u64)
        ensures
            entity_set_contents(*final(self)) == entity_set_contents(*old(self)).insert(e),
    {
        self.set.insert(e);
    }

    /// `HashSet::remove`, discarding whether the entity was there.
    #[verifier::external_body]
    pub(crate) fn remove(&mut self, e: u64)
        ensures
            entity_set_contents(*final(self)) == entity_set_contents(*old(self)).remove(e),
    {
        self.set.remove(&e);
    }
}

} // verus!
