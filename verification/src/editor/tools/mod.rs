//! Editor tools: the tool set and the placement rules of each tool.

use vstd::prelude::*;

use crate::collections::{tool_map_contents, ToolMap};
use crate::editor::EditorState;
use crate::level::placement::TileProperties;
use crate::tilemap::{TileFlip, TileTextureIndex};

pub mod area;
pub mod erase;
pub mod paint;
pub mod platform;
pub mod pole;
pub mod slope;

verus! {

/// The tools, by the id the editor gives them.
#[derive(Clone, Copy, Debug, PartialEq, Eq, Structural)]
pub enum ToolKind {
    Platform,
    Area,
    Paint,
    Pole,
    Slope,
    Erase,
}

/// The tool with id `id`: platform, area, paint, pole, slope and erase for
/// ids 0 to 5, none for any other id.
pub open spec fn spec_tool_kind(id: ToolId) -> Option<ToolKind> {
    if id == 0 {
        Some(ToolKind::Platform)
    } else if id == 1 {
        Some(ToolKind::Area)
    } else if id == 2 {
        Some(ToolKind::Paint)
    } else if id == 3 {
        Some(ToolKind::Pole)
    } else if id == 4 {
        Some(ToolKind::Slope)
    } else if id == 5 {
        Some(ToolKind::Erase)
    } else {
        None
    }
}

/// The tool that runs when `id` is the active tool.
pub fn tool_kind(id: ToolId) -> (r: Option<ToolKind>)
    ensures
        r == spec_tool_kind(id),
{
    match id {
        0 => Some(ToolKind::Platform),
        1 => Some(ToolKind::Area),
        2 => Some(ToolKind::Paint),
        3 => Some(ToolKind::Pole),
        4 => Some(ToolKind::Slope),
        5 => Some(ToolKind::Erase),
        _ => None,
    }
}

/// What the editor's input did in this frame, as far as the tools read it.
#[derive(Clone, Copy, Debug, PartialEq, Eq, Structural, Default)]
pub struct ToolActions {
    pub apply_just_pressed: bool,
    pub apply_pressed: bool,
    pub apply_just_released: bool,
    pub cycle_mode_just_pressed: bool,
}

/// The properties of an unmirrored tile showing image `id`.
pub open spec fn plain(id: u32) -> TileProperties {
    TileProperties { id: TileTextureIndex(id), flip: TileFlip { x: false, y: false, d: false } }
}

pub fn plain_tile(id: u32) -> (p: TileProperties)
    ensures
        p == plain(id),
{
    TileProperties { id: TileTextureIndex(id), flip: TileFlip { x: false, y: false, d: false } }
}

/// `after` is `before` with the level marked as changed and nothing else.
pub open spec fn marked_unsaved(before: EditorState, after: EditorState) -> bool {
    after == EditorState { unsaved_changes: true, ..before }
}

pub type ToolId = usize;

/// A texture handle of the immediate-mode UI: managed by the UI itself or
/// registered by the user.
#[derive(Clone, Copy, Debug, PartialEq, Eq, Structural, Hash)]
pub enum TextureId {
    Managed(u64),
    User(u64),
}

/// A tool: its id, its name and the icon shown for it.
#[derive(Debug, Clone)]
pub struct ToolData {
    pub id: ToolId,
    pub name: String,
    pub egui_texture_id: Option<TextureId>,
}

/// The tools, by id, and the order they are shown in.
pub struct ToolSet {
    pub tools: ToolMap,
    pub tool_order: Vec<ToolId>,
    max_id: ToolId,
}

impl ToolSet {
    /// The next id to hand out.
    pub closed spec fn next_id(&self) -> ToolId {
        self.max_id
    }

    /// The stored tools, by id.
    pub closed spec fn tools_map(&self) -> Map<usize, ToolData> {
        tool_map_contents(self.tools)
    }

    /// The ids in display order.
    pub closed spec fn order(&self) -> Seq<ToolId> {
        self.tool_order@
    }

    /// Every listed tool is stored exactly once, every stored tool is listed,
    /// each tool knows its own id, and all ids are below the next one.
    pub closed spec fn well_formed(&self) -> bool {
        let m = tool_map_contents(self.tools);
        &&& forall|i: int| 0 <= i < self.tool_order@.len() ==> m.contains_key(#[trigger] self.tool_order@[i])
        &&& forall|k: usize| m.contains_key(k) ==> self.tool_order@.contains(k)
        &&& forall|i: int, j: int| 0 <= i < j < self.tool_order@.len() ==> self.tool_order@[i] != self.tool_order@[j]
        &&& forall|k: usize| #[trigger] m.contains_key(k) ==> m[k].id == k && k < self.next_id()
        &&& m.dom().finite()
        &&& m.len() == self.tool_order@.len()
    }

    /// The number of tools.
    pub fn tool_count(&self) -> (n: usize)
        ensures
            n == self.tools_map().len(),
    {
        self.tools.len()
    }

    pub fn new() -> (t: Self)
        ensures
            t.well_formed(),
            t.tools_map() == Map::<usize, ToolData>::empty(),
            t.order() == Seq::<usize>::empty(),
            t.next_id() == 0,
    {
        ToolSet { tools: ToolMap::new(), tool_order: Vec::new(), max_id: 0 }
    }

    /// Adds a tool with the next free id and no icon.
    /// The tool with id `id`, if there is one.
    pub fn get_tool(&self, id: ToolId) -> (r: Option<&ToolData>)
        ensures
            r is Some <==> self.tools_map().contains_key(id),
            r matches Some(t) ==> *t == self.tools_map()[id],
    {
        self.tools.get(id)
    }

    pub fn add(&mut self, tool_name: &str)
        requires
            old(self).well_formed(),
            old(self).next_id() < usize::MAX,
        ensures
            final(self).well_formed(),
            final(self).next_id() == old(self).next_id() + 1,
            final(self).order() == old(self).order().push(old(self).next_id()),
            final(self).tools_map().dom() == old(self).tools_map().dom().insert(old(self).next_id()),
            forall|k: usize| k != old(self).next_id() && #[trigger] old(self).tools_map().contains_key(k)
                ==> final(self).tools_map()[k] == old(self).tools_map()[k],
            final(self).tools_map()[old(self).next_id()].id == old(self).next_id(),
            final(self).tools_map()[old(self).next_id()].name@ == tool_name@,
            final(self).tools_map()[old(self).next_id()].egui_texture_id is None,
    {
        let tool = ToolData { id: self.max_id, name: tool_name.to_owned(), egui_texture_id: None };
        let ghost old_map = tool_map_contents(self.tools);
        let ghost old_order = self.tool_order@;
        self.tool_order.push(tool.id);
        self.tools.insert(tool.id, tool);
        self.max_id = self.max_id + 1;
        proof {
            let m = tool_map_contents(self.tools);
            assert(!old_map.contains_key(old(self).next_id()));
            assert(m.dom() =~= old_map.dom().insert(old(self).next_id()));
            assert(m.dom().finite());
            assert(m.len() == old_map.len() + 1);
            assert forall|k: usize| m.contains_key(k) implies self.tool_order@.contains(k) by {
                if k == old(self).next_id() {
                    assert(self.tool_order@[self.tool_order@.len() - 1] == k);
                } else {
                    let i = choose|i: int| 0 <= i < old_order.len() && old_order[i] == k;
                    assert(self.tool_order@[i] == k);
                }
            }
            assert forall|i: int, j: int| 0 <= i < j < self.tool_order@.len() implies self.tool_order@[i] != self.tool_order@[j] by {
                if j == self.tool_order@.len() - 1 {
                    assert(old_map.contains_key(old_order[i]));
                }
            }
        }
    }

    /// Gives the tools their icons: the `i`-th tool in display order gets
    /// `ids[i]`.
    pub fn assign_textures(&mut self, ids: &Vec<TextureId>)
        requires
            old(self).well_formed(),
            ids@.len() >= old(self).order().len(),
        ensures
            final(self).well_formed(),
            final(self).order() == old(self).order(),
            final(self).next_id() == old(self).next_id(),
            final(self).tools_map().dom() == old(self).tools_map().dom(),
            forall|i: int| 0 <= i < final(self).order().len() ==> {
                let k = #[trigger] final(self).order()[i];
                &&& final(self).tools_map()[k].id == old(self).tools_map()[k].id
                &&& final(self).tools_map()[k].name@ == old(self).tools_map()[k].name@
                &&& final(self).tools_map()[k].egui_texture_id == Some(ids@[i])
            },
    {
        let ghost orig = tool_map_contents(self.tools);
        let mut idx: usize = 0;
        while idx < self.tool_order.len()
            invariant
                self.well_formed(),
                self.tool_order@ == old(self).tool_order@,
                self.max_id == old(self).max_id,
                orig == tool_map_contents(old(self).tools),
                ids@.len() >= self.tool_order@.len(),
                idx <= self.tool_order@.len(),
                tool_map_contents(self.tools).dom() == orig.dom(),
                forall|i: int| 0 <= i < self.tool_order@.len() ==> {
                    let k = #[trigger] self.tool_order@[i];
                    &&& tool_map_contents(self.tools)[k].id == orig[k].id
                    &&& tool_map_contents(self.tools)[k].name@ == orig[k].name@
                    &&& i < idx ==> tool_map_contents(self.tools)[k].egui_texture_id == Some(ids@[i])
                },
            decreases self.tool_order@.len() - idx,
        {
            let id = self.tool_order[idx];
            let current = self.tools.get(id);
            let updated = match current {
                Some(t) => ToolData { id: t.id, name: t.name.clone(), egui_texture_id: Some(ids[idx]) },
                None => {
                    proof { assert(false); }
                    return;
                },
            };
            let ghost before = tool_map_contents(self.tools);
            self.tools.insert(id, updated);
            proof {
                let m = tool_map_contents(self.tools);
                assert(m.dom() =~= before.dom());
                assert forall|i: int| 0 <= i < self.tool_order@.len() implies {
                    let k = #[trigger] self.tool_order@[i];
                    &&& m[k].id == orig[k].id
                    &&& m[k].name@ == orig[k].name@
                    &&& i < idx + 1 ==> m[k].egui_texture_id == Some(ids@[i])
                } by {
                    let k = self.tool_order@[i];
                    if k == id {
                        assert(i == idx as int);
                    }
                }
            }
            idx = idx + 1;
        }
    }
}

/// A tool as the tool picker shows it: its icon, its name as hover text,
/// and whether it is the active tool.
#[derive(Debug, Clone, PartialEq, Eq)]
pub struct ToolButton {
    pub id: ToolId,
    pub texture: TextureId,
    pub name: String,
    pub selected: bool,
}

/// The view of a tool button.
pub open spec fn tool_button_view(b: ToolButton) -> (ToolId, TextureId, Seq<char>, bool) {
    (b.id, b.texture, b.name@, b.selected)
}

/// The buttons for the tools listed in `order`, in that order: tools without
/// an icon are left out, and the list stops at the first id with no tool.
pub open spec fn tool_buttons_spec(order: Seq<ToolId>, tools: Map<usize, ToolData>, active: ToolId) -> Seq<
    (ToolId, TextureId, Seq<char>, bool),
>
    decreases order.len(),
{
    if order.len() == 0 {
        seq![]
    } else {
        let id = order[0];
        if !tools.contains_key(id) {
            seq![]
        } else {
            let rest = tool_buttons_spec(order.drop_first(), tools, active);
            match tools[id].egui_texture_id {
                Some(t) => seq![(id, t, tools[id].name@, id == active)] + rest,
                None => rest,
            }
        }
    }
}

impl ToolSet {
    /// The buttons of the tool picker, with `active` the active tool.
    pub fn tool_buttons(&self, active: ToolId) -> (r: Vec<ToolButton>)
        ensures
            r@.map_values(|b: ToolButton| tool_button_view(b)) == tool_buttons_spec(self.order(), self.tools_map(), active),
    {
        let mut out: Vec<ToolButton> = Vec::new();
        let mut i: usize = 0;
        let ghost order = self.order();
        let ghost tools = self.tools_map();
        assert(order.skip(0) =~= order);
        assert(out@.map_values(|b: ToolButton| tool_button_view(b)) + tool_buttons_spec(order, tools, active) =~= tool_buttons_spec(
            order,
            tools,
            active,
        ));
        while i < self.tool_order.len()
            invariant
                i <= order.len(),
                order == self.tool_order@,
                tools == self.tools_map(),
                out@.map_values(|b: ToolButton| tool_button_view(b)) + tool_buttons_spec(order.skip(i as int), tools, active)
                    == tool_buttons_spec(order, tools, active),
            decreases order.len() - i,
        {
            let id = self.tool_order[i];
            let ghost rest = order.skip(i as int);
            assert(rest[0] == id);
            assert(rest.drop_first() =~= order.skip(i + 1));
            match self.tools.get(id) {
                None => {
                    assert(out@.map_values(|b: ToolButton| tool_button_view(b)) + Seq::empty() =~= out@.map_values(
                        |b: ToolButton| tool_button_view(b),
                    ));
                    return out;
                },
                Some(t) => {
                    match t.egui_texture_id {
                        Some(texture) => {
                            let b = ToolButton { id, texture, name: t.name.clone(), selected: id == active };
                            let ghost before = out@.map_values(|b: ToolButton| tool_button_view(b));
                            out.push(b);
                            assert(out@.map_values(|b: ToolButton| tool_button_view(b)) =~= before.push(tool_button_view(b)));
                        },
                        None => {},
                    }
                },
            }
            i = i + 1;
        }
        assert(order.skip(i as int) =~= Seq::<ToolId>::empty());
        assert(out@.map_values(|b: ToolButton| tool_button_view(b)) + Seq::empty() =~= out@.map_values(
            |b: ToolButton| tool_button_view(b),
        ));
        out
    }
}

} // verus!
