//! The agent's picture of the compositor, and what each event makes of it.

use vstd::prelude::*;

use crate::columns::{columns, rank};
use crate::commands::ActionView;
use crate::compositor::{EventView, ListedOutputView, Window, WindowLayout, WorkspaceView};
use crate::config::{config_index, OutputConfigView, RenderMode};
use crate::lookup::first_index;
use crate::percent::{centre_percent, place_percent, start_percent, ScrollPercent};
use crate::windows::{
    by_id, column_of, focus_on, is_focused_pick, is_replacement, tiled_on, windows_by_id,
    with_layouts, workspace_of, workspace_of_opt,
};

verus! {

/// What the agent knows of an output: what is drawn on it, how many workspaces it has and which
/// of them is active.
pub struct OutputView {
    pub name: Seq<char>,
    pub image: Seq<char>,
    pub mode: Option<RenderMode>,
    pub max_workspace_idx: u8,
    pub active_workspace_id: Option<u64>,
    pub active_workspace_idx: Option<u8>,
}

/// All that the agent knows.
#[verifier::ext_equal]
pub struct AgentView {
    pub config: Seq<OutputConfigView>,
    pub outputs: Seq<OutputView>,
    pub workspaces: Seq<WorkspaceView>,
    pub windows: Map<u64, Window>,
}

/// The ids of the workspaces.
pub open spec fn workspace_ids(workspaces: Seq<WorkspaceView>) -> Seq<u64> {
    workspaces.map_values(|w: WorkspaceView| w.id)
}

/// Position of the first workspace with this id.
pub open spec fn workspace_index(workspaces: Seq<WorkspaceView>, id: u64) -> Option<int> {
    first_index(workspace_ids(workspaces), id)
}

/// The names of the outputs.
pub open spec fn output_names(outputs: Seq<OutputView>) -> Seq<Seq<char>> {
    outputs.map_values(|o: OutputView| o.name)
}

/// Position of the first output with this name.
pub open spec fn output_index(outputs: Seq<OutputView>, name: Seq<char>) -> Option<int> {
    first_index(output_names(outputs), name)
}

impl AgentView {
    /// The first workspace with this id.
    pub open spec fn workspace(self, id: u64) -> Option<WorkspaceView> {
        match workspace_index(self.workspaces, id) {
            Some(i) => Some(self.workspaces[i]),
            None => None,
        }
    }

    /// The first output with this name.
    pub open spec fn output(self, name: Seq<char>) -> Option<OutputView> {
        match output_index(self.outputs, name) {
            Some(k) => Some(self.outputs[k]),
            None => None,
        }
    }

    /// The first workspace with this id is there, and is active.
    pub open spec fn is_active(self, id: u64) -> bool {
        match self.workspace(id) {
            Some(w) => w.is_active,
            None => false,
        }
    }
}

// Scroll positions.

/// The column of the active window of the workspace, where that window is tiled on it.
pub open spec fn active_window_column(
    windows: Map<u64, Window>,
    workspace: WorkspaceView,
) -> Option<usize> {
    match workspace.active_window_id {
        Some(k) => if windows.contains_key(k) && tiled_on(windows[k], workspace.id) {
            column_of(windows[k])
        } else {
            None
        },
        None => None,
    }
}

/// The active column of the workspace: that of its active window, else that of the focused window
/// `pick`.
pub open spec fn active_column(
    windows: Map<u64, Window>,
    workspace: WorkspaceView,
    pick: Option<Window>,
) -> Option<usize> {
    match active_window_column(windows, workspace) {
        Some(c) => Some(c),
        None => match pick {
            Some(w) => column_of(w),
            None => None,
        },
    }
}

/// Which of the workspace's columns is active, counted from one, and how many columns there are.
pub open spec fn column_state(m: AgentView, id: u64, pick: Option<Window>) -> Option<(nat, nat)> {
    match m.workspace(id) {
        Some(w) => match active_column(m.windows, w, pick) {
            Some(c) => if columns(m.windows, id).contains(c) {
                Some((rank(columns(m.windows, id), c), columns(m.windows, id).len()))
            } else {
                None
            },
            None => None,
        },
        None => None,
    }
}

/// How far the active column is along its workspace.
pub open spec fn column_percent(state: Option<(nat, nat)>) -> ScrollPercent {
    match state {
        Some(s) => place_percent(s.0 as int, s.1 as int),
        None => centre_percent(),
    }
}

/// `p` is how far the active column is along the workspace, for some focused window.
pub open spec fn is_column_percent(m: AgentView, id: u64, p: ScrollPercent) -> bool {
    exists|pick: Option<Window>| #[trigger]
        is_focused_pick(m.windows, id, pick) && p == column_percent(column_state(m, id, pick))
}

/// Where an image goes in a mode, given how far the active column and the active workspace are.
pub open spec fn image_position(
    mode: RenderMode,
    column: ScrollPercent,
    row: ScrollPercent,
) -> (ScrollPercent, ScrollPercent) {
    match mode {
        RenderMode::Static => (start_percent(), start_percent()),
        RenderMode::ScrollVertical => (centre_percent(), row),
        RenderMode::ScrollHorizontal => (column, centre_percent()),
        RenderMode::ScrollBoth => (column, row),
    }
}

/// The image of an output in this mode follows what happens.
pub open spec fn scrolls(mode: Option<RenderMode>) -> bool {
    match mode {
        Some(RenderMode::Static) => false,
        Some(_) => true,
        None => false,
    }
}

/// `pos` is where the image of output `name` goes in the mode, with the output as it is.
pub open spec fn is_current_position(
    m: AgentView,
    name: Seq<char>,
    mode: RenderMode,
    pos: (ScrollPercent, ScrollPercent),
) -> bool {
    match m.output(name) {
        Some(o) => exists|column: ScrollPercent|
            {
                &&& #[trigger] is_output_column(m, o, column)
                &&& pos == image_position(mode, column, output_row(o))
            },
        None => pos == (start_percent(), start_percent()),
    }
}

/// `p` is how far the active column is along the active workspace of the output.
pub open spec fn is_output_column(m: AgentView, o: OutputView, p: ScrollPercent) -> bool {
    match o.active_workspace_id {
        Some(id) => is_column_percent(m, id, p),
        None => p == centre_percent(),
    }
}

/// How far the active workspace is along the workspaces of the output.
pub open spec fn output_row(o: OutputView) -> ScrollPercent {
    place_percent(
        match o.active_workspace_idx {
            Some(idx) => idx as int,
            None => 1,
        },
        o.max_workspace_idx as int,
    )
}

// Scroll commands.

/// Looking at the workspace leads to an action: its output scrolls, or is not configured.
pub open spec fn responds(m: AgentView, id: u64) -> bool {
    match m.workspace(id) {
        Some(w) => match w.output {
            Some(name) => match m.output(name) {
                Some(o) => scrolls(o.mode),
                None => true,
            },
            None => false,
        },
        None => false,
    }
}

/// `a` is what looking at the workspace leads to.
pub open spec fn is_response(m: AgentView, id: u64, a: ActionView) -> bool {
    &&& m.workspace(id) matches Some(w)
    &&& w.output matches Some(name)
    &&& match m.output(name) {
        Some(o) => {
            &&& scrolls(o.mode)
            &&& exists|column: ScrollPercent|
                {
                    &&& #[trigger] is_column_percent(m, id, column)
                    &&& a == ActionView::Scroll {
                        output: name,
                        position: image_position(
                            o.mode->0,
                            column,
                            place_percent(w.idx as int, o.max_workspace_idx as int),
                        ),
                    }
                }
        },
        None => a == ActionView::OutputNotConfigured(name),
    }
}

/// `actions` is what looking at each of the workspaces in turn leads to.
pub open spec fn are_responses(m: AgentView, ids: Seq<u64>, actions: Seq<ActionView>) -> bool
    decreases ids.len(),
{
    if ids.len() == 0 {
        actions.len() == 0
    } else if responds(m, ids.last()) {
        &&& actions.len() > 0
        &&& is_response(m, ids.last(), actions.last())
        &&& are_responses(m, ids.drop_last(), actions.drop_last())
    } else {
        are_responses(m, ids.drop_last(), actions)
    }
}

/// Looking at one more workspace adds the action that it leads to, if it leads to one.
pub proof fn lemma_push_response(
    m: AgentView,
    ids: Seq<u64>,
    actions: Seq<ActionView>,
    id: u64,
    a: Option<ActionView>,
)
    requires
        are_responses(m, ids, actions),
        match a {
            Some(a) => responds(m, id) && is_response(m, id, a),
            None => !responds(m, id),
        },
    ensures
        are_responses(
            m,
            ids.push(id),
            match a {
                Some(a) => actions.push(a),
                None => actions,
            },
        ),
{
    assert(ids.push(id).drop_last() =~= ids);
    match a {
        Some(a) => {
            assert(actions.push(a).drop_last() =~= actions);
        },
        None => {},
    }
}

/// Those of the ids whose workspace is active.
pub open spec fn only_active(m: AgentView, ids: Seq<u64>) -> Seq<u64> {
    ids.filter(|id: u64| m.is_active(id))
}

/// The ids of the workspaces that are active.
pub open spec fn active_ids(workspaces: Seq<WorkspaceView>) -> Seq<u64> {
    workspaces.filter(|w: WorkspaceView| w.is_active).map_values(|w: WorkspaceView| w.id)
}

/// One more id is among those whose workspace is active if its workspace is.
pub proof fn lemma_only_active_push(m: AgentView, ids: Seq<u64>, i: int)
    requires
        0 <= i < ids.len(),
    ensures
        only_active(m, ids.take(i + 1)) == (if m.is_active(ids[i]) {
            only_active(m, ids.take(i)).push(ids[i])
        } else {
            only_active(m, ids.take(i))
        }),
{
    reveal(Seq::filter);
    assert(ids.take(i + 1).drop_last() =~= ids.take(i));
}

/// One more workspace is among those that are active if it is.
pub proof fn lemma_active_ids_push(workspaces: Seq<WorkspaceView>, i: int)
    requires
        0 <= i < workspaces.len(),
    ensures
        active_ids(workspaces.take(i + 1)) == (if workspaces[i].is_active {
            active_ids(workspaces.take(i)).push(workspaces[i].id)
        } else {
            active_ids(workspaces.take(i))
        }),
{
    reveal(Seq::filter);
    assert(workspaces.take(i + 1).drop_last() =~= workspaces.take(i));
    assert(active_ids(workspaces.take(i + 1)) =~= if workspaces[i].is_active {
        active_ids(workspaces.take(i)).push(workspaces[i].id)
    } else {
        active_ids(workspaces.take(i))
    });
}

// Outputs and workspaces.

/// The largest index of a workspace on the output, 0 if it has none.
pub open spec fn max_idx_on(workspaces: Seq<WorkspaceView>, name: Seq<char>) -> u8
    decreases workspaces.len(),
{
    if workspaces.len() == 0 {
        0
    } else {
        let rest = max_idx_on(workspaces.drop_last(), name);
        let w = workspaces.last();
        if w.output == Some(name) && w.idx > rest {
            w.idx
        } else {
            rest
        }
    }
}

/// The last active workspace on the output, if it has one.
pub open spec fn active_on(workspaces: Seq<WorkspaceView>, name: Seq<char>) -> Option<WorkspaceView>
    decreases workspaces.len(),
{
    if workspaces.len() == 0 {
        None
    } else if workspaces.last().output == Some(name) && workspaces.last().is_active {
        Some(workspaces.last())
    } else {
        active_on(workspaces.drop_last(), name)
    }
}

/// The output, with this workspace as its active one.
pub open spec fn with_active(o: OutputView, w: Option<WorkspaceView>) -> OutputView {
    OutputView {
        active_workspace_id: match w {
            Some(w) => Some(w.id),
            None => None,
        },
        active_workspace_idx: match w {
            Some(w) => Some(w.idx),
            None => None,
        },
        ..o
    }
}

/// Output `k` of the list, with the workspaces that are on it taken from `workspaces`.
pub open spec fn refreshed(
    outputs: Seq<OutputView>,
    k: int,
    workspaces: Seq<WorkspaceView>,
) -> OutputView {
    let name = outputs[k].name;
    if output_index(outputs, name) == Some(k) {
        with_active(
            OutputView { max_workspace_idx: max_idx_on(workspaces, name), ..outputs[k] },
            active_on(workspaces, name),
        )
    } else {
        with_active(OutputView { max_workspace_idx: 0, ..outputs[k] }, None)
    }
}

/// The agent knows these workspaces now.
pub open spec fn with_workspaces(m: AgentView, workspaces: Seq<WorkspaceView>) -> AgentView {
    AgentView {
        outputs: Seq::new(m.outputs.len(), |k: int| refreshed(m.outputs, k, workspaces)),
        workspaces,
        ..m
    }
}

/// The state of an output that is drawn as the entry says, with no workspace on it yet.
pub open spec fn fresh_output(c: OutputConfigView) -> OutputView {
    OutputView {
        name: c.name,
        image: c.image,
        mode: c.mode,
        max_workspace_idx: 0,
        active_workspace_id: None,
        active_workspace_idx: None,
    }
}

/// The listed outputs that are enabled and have an entry in the configuration.
pub open spec fn configured_outputs(
    config: Seq<OutputConfigView>,
    listed: Seq<ListedOutputView>,
) -> Seq<OutputView>
    decreases listed.len(),
{
    if listed.len() == 0 {
        Seq::empty()
    } else {
        let rest = configured_outputs(config, listed.drop_last());
        match config_index(config, listed.last().name) {
            Some(i) => if listed.last().enabled {
                rest.push(fresh_output(config[i]))
            } else {
                rest
            },
            None => rest,
        }
    }
}

/// An agent that knows its configuration and nothing of the compositor.
pub open spec fn unacquainted(config: Seq<OutputConfigView>) -> AgentView {
    AgentView {
        config,
        outputs: Seq::empty(),
        workspaces: Seq::empty(),
        windows: Map::empty(),
    }
}

/// The agent has taken in what the compositor lists.
pub open spec fn acquainted(
    m: AgentView,
    listed: Seq<ListedOutputView>,
    workspaces: Seq<WorkspaceView>,
    windows: Seq<Window>,
) -> AgentView {
    with_workspaces(
        AgentView {
            outputs: m.outputs + configured_outputs(m.config, listed),
            windows: by_id(windows),
            ..m
        },
        workspaces,
    )
}

/// The workspace after the activation of workspace `id`, which is on `output`.
pub open spec fn activated_workspace(
    w: WorkspaceView,
    output: Option<Seq<char>>,
    id: u64,
    focused: bool,
) -> WorkspaceView {
    WorkspaceView {
        is_active: if w.output == output {
            w.id == id
        } else {
            w.is_active
        },
        is_focused: if focused {
            w.id == id
        } else {
            w.is_focused
        },
        ..w
    }
}

/// The output that the first workspace with this id is on, if any.
pub open spec fn output_of_workspace(m: AgentView, id: u64) -> Option<Seq<char>> {
    match m.workspace(id) {
        Some(w) => w.output,
        None => None,
    }
}

/// Workspace `id` was activated.
pub open spec fn activated(m: AgentView, id: u64, focused: bool) -> AgentView {
    let output = output_of_workspace(m, id);
    AgentView {
        workspaces: m.workspaces.map_values(
            |w: WorkspaceView| activated_workspace(w, output, id, focused),
        ),
        outputs: match output {
            Some(name) => match output_index(m.outputs, name) {
                Some(k) => m.outputs.update(k, with_active(m.outputs[k], m.workspace(id))),
                None => m.outputs,
            },
            None => m.outputs,
        },
        ..m
    }
}

/// The workspaces, with another active window on the first one with this id.
pub open spec fn with_active_window(
    workspaces: Seq<WorkspaceView>,
    id: u64,
    active_window_id: Option<u64>,
) -> Seq<WorkspaceView> {
    match workspace_index(workspaces, id) {
        Some(i) => workspaces.update(i, WorkspaceView { active_window_id, ..workspaces[i] }),
        None => workspaces,
    }
}

/// As [`with_active_window`], where there is a workspace to look for.
pub open spec fn with_active_window_on(
    workspaces: Seq<WorkspaceView>,
    id: Option<u64>,
    active_window_id: Option<u64>,
) -> Seq<WorkspaceView> {
    match id {
        Some(id) => with_active_window(workspaces, id, active_window_id),
        None => workspaces,
    }
}

// Windows.

/// A list of one id, or of none.
pub open spec fn listed(id: Option<u64>) -> Seq<u64> {
    match id {
        Some(id) => seq![id],
        None => Seq::empty(),
    }
}

/// The list, with `id` at its end unless it is there.
pub open spec fn push_new(ids: Seq<u64>, id: Option<u64>) -> Seq<u64> {
    match id {
        Some(id) => if ids.contains(id) {
            ids
        } else {
            ids.push(id)
        },
        None => ids,
    }
}

/// A window was opened, or changed.
pub open spec fn window_opened(m: AgentView, window: Window) -> AgentView {
    let windows = m.windows.insert(window.id, window);
    if window.is_focused {
        AgentView {
            windows: focus_on(windows, Some(window.id)),
            workspaces: with_active_window_on(
                m.workspaces,
                window.workspace_id,
                Some(window.id),
            ),
            ..m
        }
    } else {
        AgentView { windows, ..m }
    }
}

/// The workspaces that an opened or changed window concerns: where it was and where it is.
pub open spec fn opened_on(m: AgentView, window: Window) -> Seq<u64> {
    push_new(listed(workspace_of(m.windows, window.id)), window.workspace_id)
}

/// The window is the active one of the workspace that it is on.
pub open spec fn is_active_window(m: AgentView, id: u64) -> bool {
    match workspace_of(m.windows, id) {
        Some(workspace_id) => match m.workspace(workspace_id) {
            Some(w) => w.active_window_id == Some(id),
            None => false,
        },
        None => false,
    }
}

/// Window `id` was closed; if it was active, `pick` is active in its place.
pub open spec fn window_closed(m: AgentView, id: u64, pick: Option<u64>) -> AgentView {
    AgentView {
        windows: m.windows.remove(id),
        workspaces: if is_active_window(m, id) {
            with_active_window_on(m.workspaces, workspace_of(m.windows, id), pick)
        } else {
            m.workspaces
        },
        ..m
    }
}

/// `post` is what closing window `id` makes of `m`, whichever window takes its place.
pub open spec fn is_window_closed(m: AgentView, id: u64, post: AgentView) -> bool {
    if is_active_window(m, id) {
        exists|pick: Option<u64>| #[trigger]
            is_replacement(m.windows.remove(id), workspace_of(m.windows, id)->0, pick) && post
                == window_closed(m, id, pick)
    } else {
        post == window_closed(m, id, None)
    }
}

/// The focus went to window `id`, or to none.
pub open spec fn focus_changed(m: AgentView, id: Option<u64>) -> AgentView {
    AgentView {
        windows: focus_on(m.windows, id),
        workspaces: with_active_window_on(m.workspaces, workspace_of_opt(m.windows, id), id),
        ..m
    }
}

/// The workspaces of the windows that got a new layout, each once, in the order of the changes.
pub open spec fn layouts_changed_on(
    windows: Map<u64, Window>,
    changes: Seq<(u64, WindowLayout)>,
) -> Seq<u64>
    decreases changes.len(),
{
    if changes.len() == 0 {
        Seq::empty()
    } else {
        push_new(
            layouts_changed_on(windows, changes.drop_last()),
            workspace_of(windows, changes.last().0),
        )
    }
}

// Configuration changes.

/// The outputs after one entry of a new configuration.
pub open spec fn entry_applied(outputs: Seq<OutputView>, c: OutputConfigView) -> Seq<OutputView> {
    match output_index(outputs, c.name) {
        Some(k) => if entry_differs(outputs, c) {
            outputs.update(
                k,
                OutputView { image: c.image, mode: Some(c.effective_mode()), ..outputs[k] },
            )
        } else {
            outputs
        },
        None => outputs,
    }
}

/// The entry is for a known output and asks for another image or mode.
pub open spec fn entry_differs(outputs: Seq<OutputView>, c: OutputConfigView) -> bool {
    match output_index(outputs, c.name) {
        Some(k) => {
            ||| outputs[k].image != c.image
            ||| drawn_mode(outputs[k]) != c.effective_mode()
        },
        None => false,
    }
}

/// The mode that the output is drawn in.
pub open spec fn drawn_mode(o: OutputView) -> RenderMode {
    match o.mode {
        Some(mode) => mode,
        None => RenderMode::Static,
    }
}

/// The outputs after all entries of a new configuration, in order.
pub open spec fn config_applied(
    outputs: Seq<OutputView>,
    entries: Seq<OutputConfigView>,
) -> Seq<OutputView>
    decreases entries.len(),
{
    if entries.len() == 0 {
        outputs
    } else {
        entry_applied(config_applied(outputs, entries.drop_last()), entries.last())
    }
}

/// The entries of a new configuration that make a difference when their turn comes.
pub open spec fn effective_entries(
    outputs: Seq<OutputView>,
    entries: Seq<OutputConfigView>,
) -> Seq<OutputConfigView>
    decreases entries.len(),
{
    if entries.len() == 0 {
        Seq::empty()
    } else {
        let rest = effective_entries(outputs, entries.drop_last());
        if entry_differs(config_applied(outputs, entries.drop_last()), entries.last()) {
            rest.push(entries.last())
        } else {
            rest
        }
    }
}

/// `a` draws the output as the entry asks, at the place where the output stands.
pub open spec fn is_redraw(m: AgentView, c: OutputConfigView, a: ActionView) -> bool {
    &&& a matches ActionView::Render { output, image, mode, position }
    &&& output == c.name
    &&& image == c.image
    &&& mode == c.effective_mode()
    &&& is_current_position(m, c.name, mode, position)
}

/// `actions` draws the outputs as the entries ask, one after another.
pub open spec fn are_redraws(
    m: AgentView,
    entries: Seq<OutputConfigView>,
    actions: Seq<ActionView>,
) -> bool {
    &&& actions.len() == entries.len()
    &&& forall|i: int|
        0 <= i < actions.len() ==> is_redraw(m, entries[i], #[trigger] actions[i])
}

/// A new configuration was loaded.
pub open spec fn reconfigured(m: AgentView, entries: Seq<OutputConfigView>) -> AgentView {
    AgentView { config: entries, outputs: config_applied(m.outputs, entries), ..m }
}

// Events.

/// What the event has to be about for the agent to make sense of it.
pub open spec fn is_expected(m: AgentView, e: EventView) -> bool {
    match e {
        EventView::WorkspaceActivated { id, focused } => m.workspace(id) is Some,
        _ => true,
    }
}

/// `post` is what the event makes of `pre`.
pub open spec fn is_after(pre: AgentView, e: EventView, post: AgentView) -> bool {
    match e {
        EventView::WorkspacesChanged { workspaces } => post == with_workspaces(pre, workspaces),
        EventView::WorkspaceActivated { id, focused } => post == activated(pre, id, focused),
        EventView::WorkspaceActiveWindowChanged { workspace_id, active_window_id } => post
            == (AgentView {
            workspaces: with_active_window(pre.workspaces, workspace_id, active_window_id),
            ..pre
        }),
        EventView::WindowsChanged { windows } => post == (AgentView {
            windows: by_id(windows),
            ..pre
        }),
        EventView::WindowOpenedOrChanged { window } => post == window_opened(pre, window),
        EventView::WindowClosed { id } => is_window_closed(pre, id, post),
        EventView::WindowFocusChanged { id } => post == focus_changed(pre, id),
        EventView::WindowLayoutsChanged { changes } => post == (AgentView {
            windows: with_layouts(pre.windows, changes),
            ..pre
        }),
        EventView::Other => post == pre,
    }
}

/// The workspaces that the event makes the agent look at.
pub open spec fn looked_at(pre: AgentView, e: EventView, post: AgentView) -> Seq<u64> {
    match e {
        EventView::WorkspacesChanged { workspaces } => active_ids(post.workspaces),
        EventView::WorkspaceActivated { id, focused } => seq![id],
        EventView::WorkspaceActiveWindowChanged { workspace_id, active_window_id } => only_active(
            post,
            seq![workspace_id],
        ),
        EventView::WindowsChanged { windows } => active_ids(post.workspaces),
        EventView::WindowOpenedOrChanged { window } => only_active(post, opened_on(pre, window)),
        EventView::WindowClosed { id } => only_active(post, listed(workspace_of(pre.windows, id))),
        EventView::WindowFocusChanged { id } => only_active(
            post,
            listed(workspace_of_opt(pre.windows, id)),
        ),
        EventView::WindowLayoutsChanged { changes } => only_active(
            post,
            layouts_changed_on(pre.windows, changes),
        ),
        EventView::Other => Seq::empty(),
    }
}

/// `actions` is what the event leads to. At a change of the workspaces a poke comes before
/// anything moves, at a change of layouts after.
pub open spec fn leads_to(
    pre: AgentView,
    e: EventView,
    post: AgentView,
    actions: Seq<ActionView>,
) -> bool {
    match e {
        EventView::WorkspacesChanged { workspaces } => {
            &&& actions.len() > 0
            &&& actions.first() == ActionView::Poke
            &&& are_responses(post, looked_at(pre, e, post), actions.drop_first())
        },
        EventView::WindowLayoutsChanged { changes } => {
            &&& actions.len() > 0
            &&& actions.last() == ActionView::Poke
            &&& are_responses(post, looked_at(pre, e, post), actions.drop_last())
        },
        _ => are_responses(post, looked_at(pre, e, post), actions),
    }
}

// What holds in every state.

/// The output knows its last workspace and its active workspace.
pub open spec fn output_is_current(workspaces: Seq<WorkspaceView>, o: OutputView) -> bool {
    &&& o.max_workspace_idx == max_idx_on(workspaces, o.name)
    &&& match (o.active_workspace_id, o.active_workspace_idx) {
        (Some(id), Some(idx)) => exists|i: int|
            {
                &&& 0 <= i < workspaces.len()
                &&& (#[trigger] workspaces[i]).output == Some(o.name)
                &&& workspaces[i].is_active
                &&& workspaces[i].id == id
                &&& workspaces[i].idx == idx
            },
        (None, None) => forall|i: int|
            0 <= i < workspaces.len() ==> !((#[trigger] workspaces[i]).output == Some(o.name)
                && workspaces[i].is_active),
        _ => false,
    }
}

impl AgentView {
    /// What the agent knows of windows, workspaces and outputs fits together.
    pub open spec fn inv(self) -> bool {
        &&& self.windows.dom().finite()
        &&& windows_by_id(self.windows)
        &&& forall|k: int|
            0 <= k < self.outputs.len() && output_index(
                self.outputs,
                (#[trigger] self.outputs[k]).name,
            ) == Some(k) ==> output_is_current(self.workspaces, self.outputs[k])
    }
}

} // verus!
