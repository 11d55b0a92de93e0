//! The level editor: tile images, palettes, tools and editor state.

pub mod palette;
pub mod render;
pub mod tiles;
pub mod tools;

use vstd::prelude::*;

use crate::editor::palette::Palettes;
use crate::editor::tools::{ToolId, ToolSet};
use crate::level::layer::{wrapping_next_layer, Layer};
use crate::level::placement::StorageAccess;
use crate::tilemap::TilemapSize;

verus! {

/// Whether the editor is still loading its assets or showing the map.
#[derive(Debug, Clone, Copy, PartialEq, Eq, Structural, Hash)]
pub enum AppState {
    Loading,
    Display,
}

impl Default for AppState {
    fn default() -> (r: AppState)
        ensures
            r == AppState::Loading,
    {
        AppState::Loading
    }
}

/// Which editor panels are shown.
#[derive(Debug, Clone, Copy, PartialEq, Eq, Structural)]
pub struct EnabledUiElements {
    pub inspector: bool,
    pub tool_panel: bool,
    pub egui_debug: bool,
}

impl Default for EnabledUiElements {
    fn default() -> (r: EnabledUiElements)
        ensures
            r == (EnabledUiElements { inspector: true, tool_panel: true, egui_debug: false }),
    {
        EnabledUiElements { inspector: true, tool_panel: true, egui_debug: false }
    }
}

/// The editor's state: panels, tools, the file being edited and the layer
/// being drawn on.
pub struct EditorState {
    pub enabled: EnabledUiElements,
    pub toolset: ToolSet,
    pub active_tool: ToolId,
    pub current_loaded_path: Option<String>,
    pub unsaved_changes: bool,
    pub current_layer: Layer,
}

impl EditorState {
    /// Forgets the file being edited; nothing is unsaved any more.
    pub fn reset_path(&mut self)
        ensures
            final(self).current_loaded_path is None,
            final(self).unsaved_changes == false,
            final(self).active_tool == old(self).active_tool,
            final(self).current_layer == old(self).current_layer,
            final(self).enabled == old(self).enabled,
            final(self).toolset == old(self).toolset,
    {
        self.current_loaded_path = None;
        self.unsaved_changes = false;
    }

    /// Selects the next tool, going round after the last.
    pub fn next_tool(&mut self)
        requires
            old(self).toolset.well_formed(),
            old(self).toolset.tools_map().len() > 0,
            old(self).active_tool < usize::MAX,
        ensures
            final(self).active_tool == (old(self).active_tool + 1) % (old(self).toolset.tools_map().len() as int),
            final(self).current_layer == old(self).current_layer,
            final(self).current_loaded_path == old(self).current_loaded_path,
            final(self).unsaved_changes == old(self).unsaved_changes,
            final(self).toolset == old(self).toolset,
            final(self).enabled == old(self).enabled,
    {
        let n = self.toolset.tool_count();
        self.active_tool = (self.active_tool + 1) % n;
    }

    /// Draws on the next layer, going round after the back one.
    pub fn next_layer(&mut self)
        ensures
            final(self).current_layer == wrapping_next_layer(old(self).current_layer),
            final(self).active_tool == old(self).active_tool,
            final(self).current_loaded_path == old(self).current_loaded_path,
            final(self).unsaved_changes == old(self).unsaved_changes,
            final(self).toolset == old(self).toolset,
            final(self).enabled == old(self).enabled,
    {
        self.current_layer = self.current_layer.wrapping_next();
    }

    /// The state the editor starts in: all tools gone, nothing loaded,
    /// drawing on the front layer.
    pub fn new_default() -> (s: EditorState)
        ensures
            s.enabled == (EnabledUiElements { inspector: true, tool_panel: true, egui_debug: false }),
            s.toolset.well_formed(),
            s.toolset.tools_map() == Map::<usize, crate::editor::tools::ToolData>::empty(),
            s.active_tool == 0,
            s.current_loaded_path is None,
            s.unsaved_changes == false,
            s.current_layer == Layer::World,
    {
        EditorState {
            enabled: EnabledUiElements::default(),
            toolset: ToolSet::new(),
            active_tool: 0,
            current_loaded_path: None,
            unsaved_changes: false,
            current_layer: Layer::World,
        }
    }
}

/// The editor's keyboard and mouse actions.
#[derive(Debug, Clone, Copy, PartialEq, Eq, Structural, Hash)]
pub enum EditorActions {
    ApplyTool,
    Area,
    Close,
    CycleTool,
    CycleLayer,
    CycleToolMode,
    CyclePalette,
    Load,
    New,
    Save,
    SaveAs,
    ReloadMapDisplay,
}

/// Requests the editor handles: new map, close, save to a path, save under a
/// new name, load from a path.
#[derive(Debug, Clone, PartialEq, Eq)]
pub enum EditorEvent {
    New,
    Close,
    Save(String),
    SaveAs,
    Load(String),
}

/// The file dialogs the editor opens, with the chosen path once known.
#[derive(Debug, Clone, PartialEq, Eq)]
pub enum PickerEvent {
    Save(Option<String>),
    Load(Option<String>),
}

/// What an editor action asks for beyond changing the editor state.
#[derive(Debug, Clone, PartialEq, Eq)]
pub enum EditorEffect {
    /// Send this editor event.
    Send(EditorEvent),
    /// Open a file dialog that reports this picker event.
    OpenPicker(PickerEvent),
}

/// The view of an editor event: which request, and its path's characters.
pub open spec fn event_view(e: EditorEvent) -> (int, Seq<char>) {
    match e {
        EditorEvent::New => (0, seq![]),
        EditorEvent::Close => (1, seq![]),
        EditorEvent::Save(p) => (2, p@),
        EditorEvent::SaveAs => (3, seq![]),
        EditorEvent::Load(p) => (4, p@),
    }
}

/// The view of an editor effect.
pub open spec fn effect_view(e: EditorEffect) -> (int, (int, Seq<char>)) {
    match e {
        EditorEffect::Send(ev) => (0, event_view(ev)),
        EditorEffect::OpenPicker(PickerEvent::Save(p)) => (1, (if p is Some { 1int } else { 0int }, if p is Some { p->0@ } else { seq![] })),
        EditorEffect::OpenPicker(PickerEvent::Load(p)) => (2, (if p is Some { 1int } else { 0int }, if p is Some { p->0@ } else { seq![] })),
    }
}

/// The effects one action has, given the path being edited.
pub open spec fn action_effects(path: Option<Seq<char>>, a: EditorActions) -> Seq<(int, (int, Seq<char>))> {
    match a {
        EditorActions::Close => seq![(0, (1, seq![]))],
        EditorActions::Load => match path {
            Some(p) => seq![(0, (4, p))],
            None => seq![(2, (0, seq![]))],
        },
        EditorActions::New => seq![(0, (0, seq![]))],
        EditorActions::Save => match path {
            Some(p) => seq![(0, (2, p))],
            None => seq![],
        },
        EditorActions::SaveAs => seq![(0, (3, seq![]))],
        _ => seq![],
    }
}

/// The effects of a sequence of actions, in order.
pub open spec fn actions_effects(path: Option<Seq<char>>, actions: Seq<EditorActions>) -> Seq<(int, (int, Seq<char>))>
    decreases actions.len(),
{
    if actions.len() == 0 {
        seq![]
    } else {
        actions_effects(path, actions.drop_last()) + action_effects(path, actions.last())
    }
}

/// How many of the actions are a given one.
pub open spec fn count_action(actions: Seq<EditorActions>, a: EditorActions) -> nat
    decreases actions.len(),
{
    if actions.len() == 0 {
        0
    } else {
        count_action(actions.drop_last(), a) + if actions.last() == a { 1nat } else { 0nat }
    }
}

/// The layer after `k` wrapping steps.
pub open spec fn layer_after(l: Layer, k: nat) -> Layer
    decreases k,
{
    if k == 0 {
        l
    } else {
        wrapping_next_layer(layer_after(l, (k - 1) as nat))
    }
}

/// The path being edited, as characters.
pub open spec fn path_view(p: Option<String>) -> Option<Seq<char>> {
    match p {
        Some(s) => Some(s@),
        None => None,
    }
}

fn clone_path(p: &String) -> (r: String)
    ensures
        r@ == p@,
{
    p.clone()
}

/// Carries out the actions pressed this frame, in order: cycling tools,
/// layers and palettes changes the state, the file actions turn into events
/// or file dialogs. Cycling the tool mode is not handled here.
pub fn apply_editor_actions(editor_state: &mut EditorState, palettes: &mut Palettes, actions: &Vec<EditorActions>) -> (r: Vec<EditorEffect>)
    requires
        count_action(actions@, EditorActions::CycleToolMode) == 0,
        count_action(actions@, EditorActions::CycleTool) > 0 ==> {
            &&& old(editor_state).toolset.well_formed()
            &&& old(editor_state).toolset.tools_map().len() > 0
            &&& old(editor_state).active_tool < usize::MAX
        },
        count_action(actions@, EditorActions::CyclePalette) > 0 ==> {
            &&& old(palettes).all().len() > 0
        },
    ensures
        r@.map_values(|e: EditorEffect| effect_view(e)) == actions_effects(path_view(old(editor_state).current_loaded_path), actions@),
        final(editor_state).current_layer == layer_after(old(editor_state).current_layer, count_action(actions@, EditorActions::CycleLayer)),
        final(editor_state).active_tool == crate::editor::palette::cycle_n(
            old(editor_state).active_tool as int,
            old(editor_state).toolset.tools_map().len() as int,
            count_action(actions@, EditorActions::CycleTool),
        ),
        final(palettes).active() == crate::editor::palette::cycle_n(
            old(palettes).active(),
            old(palettes).all().len() as int,
            count_action(actions@, EditorActions::CyclePalette),
        ),
        final(palettes).all() == old(palettes).all(),
        final(editor_state).current_loaded_path == old(editor_state).current_loaded_path,
        final(editor_state).unsaved_changes == old(editor_state).unsaved_changes,
        final(editor_state).toolset == old(editor_state).toolset,
        final(editor_state).enabled == old(editor_state).enabled,
{
    let mut out: Vec<EditorEffect> = Vec::new();
    let ghost path = path_view(editor_state.current_loaded_path);
    let mut i: usize = 0;
    while i < actions.len()
        invariant
            i <= actions@.len(),
            path == path_view(editor_state.current_loaded_path),
            path == path_view(old(editor_state).current_loaded_path),
            count_action(actions@, EditorActions::CycleToolMode) == 0,
            count_action(actions@, EditorActions::CycleTool) > 0 ==> {
                &&& old(editor_state).toolset.well_formed()
                &&& old(editor_state).toolset.tools_map().len() > 0
                &&& old(editor_state).active_tool < usize::MAX
            },
            count_action(actions@, EditorActions::CyclePalette) > 0 ==> {
                &&& old(palettes).all().len() > 0
            },
            out@.map_values(|e: EditorEffect| effect_view(e)) == actions_effects(path, actions@.take(i as int)),
            editor_state.current_layer == layer_after(old(editor_state).current_layer, count_action(actions@.take(i as int), EditorActions::CycleLayer)),
            editor_state.active_tool == crate::editor::palette::cycle_n(
                old(editor_state).active_tool as int,
                old(editor_state).toolset.tools_map().len() as int,
                count_action(actions@.take(i as int), EditorActions::CycleTool),
            ),
            palettes.active() == crate::editor::palette::cycle_n(
                old(palettes).active(),
                old(palettes).all().len() as int,
                count_action(actions@.take(i as int), EditorActions::CyclePalette),
            ),
            palettes.all() == old(palettes).all(),
            editor_state.current_loaded_path == old(editor_state).current_loaded_path,
            editor_state.unsaved_changes == old(editor_state).unsaved_changes,
            editor_state.toolset == old(editor_state).toolset,
            editor_state.enabled == old(editor_state).enabled,
        decreases actions@.len() - i,
    {
        let ghost prefix = actions@.take(i as int);
        let ghost before = out@;
        assert(actions@.take(i + 1).drop_last() =~= prefix);
        proof {
            lemma_count_prefix(actions@, i as int + 1, EditorActions::CycleToolMode);
            lemma_count_prefix(actions@, i as int + 1, EditorActions::CycleTool);
            lemma_count_prefix(actions@, i as int + 1, EditorActions::CyclePalette);
        }
        let action = actions[i];
        match action {
            EditorActions::Close => {
                out.push(EditorEffect::Send(EditorEvent::Close));
            },
            EditorActions::CycleTool => {
                proof {
                    lemma_cycle_in_range(old(editor_state).active_tool as int, old(editor_state).toolset.tools_map().len() as int,
                        count_action(prefix, EditorActions::CycleTool));
                }
                let _n = editor_state.toolset.tool_count();
                editor_state.next_tool();
            },
            EditorActions::CycleLayer => {
                editor_state.next_layer();
            },
            EditorActions::CyclePalette => {
                proof {
                    old(palettes).lemma_active_nonneg();
                    lemma_cycle_in_range(old(palettes).active(), old(palettes).all().len() as int,
                        count_action(prefix, EditorActions::CyclePalette));
                }
                let _n = palettes.len();
                palettes.cycle();
            },
            EditorActions::Load => {
                match &editor_state.current_loaded_path {
                    Some(p) => {
                        out.push(EditorEffect::Send(EditorEvent::Load(clone_path(p))));
                    },
                    None => {
                        out.push(EditorEffect::OpenPicker(PickerEvent::Load(None)));
                    },
                }
            },
            EditorActions::New => {
                out.push(EditorEffect::Send(EditorEvent::New));
            },
            EditorActions::Save => {
                match &editor_state.current_loaded_path {
                    Some(p) => {
                        out.push(EditorEffect::Send(EditorEvent::Save(clone_path(p))));
                    },
                    None => {},
                }
            },
            EditorActions::SaveAs => {
                out.push(EditorEffect::Send(EditorEvent::SaveAs));
            },
            _ => {},
        }
        proof {
            assert(out@.map_values(|e: EditorEffect| effect_view(e)) =~= before.map_values(|e: EditorEffect| effect_view(e)) + action_effects(path, action));
        }
        i = i + 1;
    }
    assert(actions@.take(i as int) =~= actions@);
    out
}

/// The path a picker event carries, if the dialog chose one.
pub open spec fn picker_path(e: PickerEvent) -> Option<Seq<char>> {
    match e {
        PickerEvent::Save(p) => path_view(p),
        PickerEvent::Load(p) => path_view(p),
    }
}

/// The editor events that picker events turn into: a save or load of each
/// chosen path; dialogs closed without a choice give nothing.
pub open spec fn picker_outcomes(events: Seq<PickerEvent>) -> Seq<(int, Seq<char>)>
    decreases events.len(),
{
    if events.len() == 0 {
        seq![]
    } else {
        let prev = picker_outcomes(events.drop_last());
        match events.last() {
            PickerEvent::Save(Some(p)) => prev.push((2, p@)),
            PickerEvent::Load(Some(p)) => prev.push((4, p@)),
            _ => prev,
        }
    }
}

/// The path being edited after picker events: kept if there is one, else
/// the first path a dialog chose.
pub open spec fn path_after_pickers(path: Option<Seq<char>>, events: Seq<PickerEvent>) -> Option<Seq<char>>
    decreases events.len(),
{
    if events.len() == 0 {
        path
    } else {
        let prev = path_after_pickers(path, events.drop_last());
        if prev is None {
            picker_path(events.last())
        } else {
            prev
        }
    }
}

impl PickerEvent {
    /// Records the dialog's choice: the first of the chosen paths.
    pub fn set_result(&mut self, result: Vec<String>)
        requires
            result@.len() > 0,
        ensures
            *old(self) is Save ==> *final(self) is Save,
            *old(self) is Load ==> *final(self) is Load,
            picker_path(*final(self)) == Some(result@[0]@),
    {
        let first = clone_path(&result[0]);
        *self = match *self {
            PickerEvent::Save(_) => PickerEvent::Save(Some(first)),
            PickerEvent::Load(_) => PickerEvent::Load(Some(first)),
        };
    }
}

/// Handles the choices of file dialogs: every chosen path is saved to or
/// loaded from, and becomes the path being edited if there is none yet.
pub fn handle_picker_events(state: &mut EditorState, picker_events: &Vec<PickerEvent>) -> (r: Vec<EditorEvent>)
    ensures
        r@.map_values(|e: EditorEvent| event_view(e)) == picker_outcomes(picker_events@),
        path_view(final(state).current_loaded_path) == path_after_pickers(
            path_view(old(state).current_loaded_path),
            picker_events@,
        ),
        final(state).active_tool == old(state).active_tool,
        final(state).current_layer == old(state).current_layer,
        final(state).unsaved_changes == old(state).unsaved_changes,
        final(state).toolset == old(state).toolset,
        final(state).enabled == old(state).enabled,
{
    let mut out: Vec<EditorEvent> = Vec::new();
    let mut i: usize = 0;
    while i < picker_events.len()
        invariant
            i <= picker_events@.len(),
            out@.map_values(|e: EditorEvent| event_view(e)) == picker_outcomes(picker_events@.take(i as int)),
            path_view(state.current_loaded_path) == path_after_pickers(
                path_view(old(state).current_loaded_path),
                picker_events@.take(i as int),
            ),
            state.active_tool == old(state).active_tool,
            state.current_layer == old(state).current_layer,
            state.unsaved_changes == old(state).unsaved_changes,
            state.toolset == old(state).toolset,
            state.enabled == old(state).enabled,
        decreases picker_events@.len() - i,
    {
        assert(picker_events@.take(i + 1).drop_last() =~= picker_events@.take(i as int));
        let ghost before = out@;
        match &picker_events[i] {
            PickerEvent::Save(path) => {
                if let Some(path) = path {
                    if state.current_loaded_path.is_none() {
                        state.current_loaded_path = Some(clone_path(path));
                    }
                    out.push(EditorEvent::Save(clone_path(path)));
                    assert(out@.map_values(|e: EditorEvent| event_view(e)) =~= before.map_values(|e: EditorEvent| event_view(e)).push((2, path@)));
                }
            },
            PickerEvent::Load(path) => {
                if let Some(path) = path {
                    if state.current_loaded_path.is_none() {
                        state.current_loaded_path = Some(clone_path(path));
                    }
                    out.push(EditorEvent::Load(clone_path(path)));
                    assert(out@.map_values(|e: EditorEvent| event_view(e)) =~= before.map_values(|e: EditorEvent| event_view(e)).push((4, path@)));
                }
            },
        }
        i = i + 1;
    }
    assert(picker_events@.take(i as int) =~= picker_events@);
    out
}

proof fn lemma_count_prefix(actions: Seq<EditorActions>, n: int, a: EditorActions)
    requires
        0 <= n <= actions.len(),
    ensures
        count_action(actions.take(n), a) <= count_action(actions, a),
        n > 0 && actions[n - 1] == a ==> count_action(actions, a) > 0,
    decreases actions.len(),
{
    if n < actions.len() {
        assert(actions.drop_last().take(n) =~= actions.take(n));
        lemma_count_prefix(actions.drop_last(), n, a);
        if n > 0 && actions[n - 1] == a {
            assert(actions.drop_last()[n - 1] == a);
        }
    } else {
        assert(actions.take(n) =~= actions);
    }
}

proof fn lemma_cycle_in_range(active: int, n: int, k: nat)
    requires
        0 <= active,
        0 < n,
    ensures
        k == 0 ==> crate::editor::palette::cycle_n(active, n, k) == active,
        k > 0 ==> 0 <= crate::editor::palette::cycle_n(active, n, k) < n,
    decreases k,
{
    if k > 0 {
        lemma_cycle_in_range(active, n, (k - 1) as nat);
        vstd::arithmetic::div_mod::lemma_mod_bound(crate::editor::palette::cycle_n(active, n, (k - 1) as nat) + 1, n);
    }
}

/// Closes the level being edited: the tiles of every layer are removed and
/// queued for despawning, and no file is attached any more.
pub fn close_level(storage: &mut StorageAccess, editor_state: &mut EditorState)
    requires
        old(storage)@.well_formed(),
    ensures
        final(storage)@.well_formed(),
        final(storage)@ == old(storage)@.clear(Layer::World).clear(Layer::Near).clear(Layer::Far),
        *final(editor_state) == (EditorState { current_loaded_path: None, unsaved_changes: false, ..*old(editor_state) }),
{
    storage.clear(Layer::World);
    storage.clear(Layer::Near);
    storage.clear(Layer::Far);
    editor_state.reset_path();
}

/// Whether a loading step runs now: it has not run before and everything it
/// reads has finished loading.
pub fn load_step_due(done: bool, ready: &Vec<bool>) -> (r: bool)
    ensures
        r == (!done && forall|i: int| 0 <= i < ready@.len() ==> #[trigger] ready@[i]),
{
    if done {
        return false;
    }
    let mut i: usize = 0;
    while i < ready.len()
        invariant
            i <= ready@.len(),
            forall|j: int| 0 <= j < i ==> #[trigger] ready@[j],
        decreases ready@.len() - i,
    {
        if !ready[i] {
            return false;
        }
        i = i + 1;
    }
    true
}

/// The map to draw into the map image: the world layer's map, when the
/// reload action was just pressed and there is one.
pub fn map_to_render(reload_pressed: bool, world_map: Option<TilemapSize>) -> (r: Option<TilemapSize>)
    ensures
        r == (if reload_pressed { world_map } else { None }),
{
    if reload_pressed {
        world_map
    } else {
        None
    }
}

/// The state to switch to once loading is done: the editor's display, when
/// the palettes, tiles and materials are all loaded.
pub fn finished_loading(palettes_loaded: bool, tiles_loaded: bool, materials_loaded: bool) -> (r: Option<AppState>)
    ensures
        r == (if palettes_loaded && tiles_loaded && materials_loaded {
            Some(AppState::Display)
        } else {
            None
        }),
{
    if palettes_loaded && tiles_loaded && materials_loaded {
        Some(AppState::Display)
    } else {
        None
    }
}

/// A button of a confirmation dialog: its label, and the editor event it
/// sends (none for one that only closes the dialog).
#[derive(Debug, Clone, PartialEq, Eq)]
pub struct DialogButton {
    pub label: String,
    pub event: Option<EditorEvent>,
}

/// A dialog asking the user to confirm.
#[derive(Debug, Clone, PartialEq, Eq)]
pub struct ConfirmationDialog {
    pub title: String,
    pub message: String,
    pub buttons: Vec<DialogButton>,
}

/// The view of a dialog button: its label's characters and its event.
pub open spec fn button_view(b: DialogButton) -> (Seq<char>, Option<(int, Seq<char>)>) {
    (b.label@, match b.event {
        Some(e) => Some(event_view(e)),
        None => None,
    })
}

/// Closing or replacing a level with unsaved changes asks first: cancel,
/// discard the changes (sending `discard`), or save them (to the file being
/// edited, or under a new name when there is none). Without unsaved changes
/// there is nothing to ask.
pub fn unsaved_changes_dialog(state: &EditorState, discard: EditorEvent) -> (r: Option<ConfirmationDialog>)
    ensures
        r is Some <==> state.unsaved_changes,
        r matches Some(d) ==> {
            &&& d.title@ == "Warning: Unsaved Changes"@
            &&& d.message@ == "There are unsaved changes to this map.  Would you like to save them?"@
            &&& d.buttons@.map_values(|b: DialogButton| button_view(b)) == seq![
                ("Cancel"@, None),
                ("Discard Changes"@, Some(event_view(discard))),
                match path_view(state.current_loaded_path) {
                    Some(p) => ("Save"@, Some((2int, p))),
                    None => ("Save As..."@, Some((3int, Seq::<char>::empty()))),
                },
            ]
        },
{
    if !state.unsaved_changes {
        return None;
    }
    let save = match &state.current_loaded_path {
        Some(path) => DialogButton { label: "Save".to_owned(), event: Some(EditorEvent::Save(clone_path(path))) },
        None => DialogButton { label: "Save As...".to_owned(), event: Some(EditorEvent::SaveAs) },
    };
    let mut buttons: Vec<DialogButton> = Vec::new();
    buttons.push(DialogButton { label: "Cancel".to_owned(), event: None });
    buttons.push(DialogButton { label: "Discard Changes".to_owned(), event: Some(discard) });
    buttons.push(save);
    let d = ConfirmationDialog {
        title: "Warning: Unsaved Changes".to_owned(),
        message: "There are unsaved changes to this map.  Would you like to save them?".to_owned(),
        buttons,
    };
    proof {
        let expected = seq![
            ("Cancel"@, None),
            ("Discard Changes"@, Some(event_view(discard))),
            match path_view(state.current_loaded_path) {
                Some(p) => ("Save"@, Some((2int, p))),
                None => ("Save As..."@, Some((3int, Seq::<char>::empty()))),
            },
        ];
        assert(d.buttons@.map_values(|b: DialogButton| button_view(b)) =~= expected);
    }
    Some(d)
}

} // verus!
