//! What holds of the agent as a whole.

use vstd::prelude::*;

use crate::columns::{columns, in_column};
use crate::commands::{
    Action, ActionView, CommandType, LogLevel, LogLine, RenderThreadCommand,
};
use crate::compositor::{
    copy_name, same_name, EventView, ListedOutputView, Window, WindowLayout, Workspace,
    WorkspaceView,
};
use crate::config::{
    config_index, config_names, DaemonConfig, OutputConfigView, RenderMode,
};
use crate::consistency::{
    lemma_activated_ids, lemma_config_applied, lemma_max_idx_bounds, lemma_with_layouts,
};
use crate::effects::keeps;
use crate::lookup::{first_index, lemma_first_index};
use crate::model::{
    activated, activated_workspace, active_column, active_ids, active_window_column, are_redraws,
    are_responses, column_percent, column_state, config_applied, configured_outputs,
    effective_entries, entry_differs, focus_changed, fresh_output, image_position, is_active_window,
    is_after, is_column_percent, is_current_position, is_expected, is_output_column, is_redraw,
    is_response, is_window_closed, layouts_changed_on, leads_to, listed, looked_at, only_active,
    opened_on, output_index, output_is_current, output_names, output_of_workspace, output_row,
    push_new, reconfigured, refreshed, responds, scrolls, window_closed, window_opened,
    with_active_window, with_workspaces, workspace_ids, workspace_index, AgentView, OutputView,
};
use crate::percent::{place_is_on_axis, place_percent, ScrollPercent};
use crate::processor::NiriProcessor;
use crate::terms::{first_with_id, lemma_first_with_id, none_with_id};
use crate::windows::{
    by_id, column_of, focused_on, is_focused_pick, is_replacement, lemma_focus_on, workspace_of,
    workspace_of_opt,
};

verus! {

/// No two windows have the focus.
pub open spec fn single_focus(windows: Map<u64, Window>) -> bool {
    forall|j: u64, k: u64|
        #![trigger windows[j], windows[k]]
        windows.contains_key(j) && windows.contains_key(k) && windows[j].is_focused
            && windows[k].is_focused ==> j == k
}

/// Both coordinates lie on their axes.
pub open spec fn position_on_axis(position: (ScrollPercent, ScrollPercent)) -> bool {
    position.0.on_axis() && position.1.on_axis()
}

/// An action puts an image, if it puts one, at a place on both axes.
pub open spec fn action_on_axis(a: ActionView) -> bool {
    match a {
        ActionView::Render { output, image, mode, position } => position_on_axis(position),
        ActionView::Scroll { output, position } => position_on_axis(position),
        _ => true,
    }
}

// Activation.

/// An activated workspace is active, every other workspace on its output is not, and those on other
/// outputs stay as they were. If it also got the focus, it alone has it. The output, where it is
/// known, has it as its active workspace.
pub proof fn activation_is_exclusive(m: AgentView, id: u64, focused: bool)
    requires
        m.workspace(id) is Some,
    ensures
        activated(m, id, focused).is_active(id),
        forall|i: int|
            0 <= i < m.workspaces.len() ==> {
                let w = #[trigger] activated(m, id, focused).workspaces[i];
                &&& w.id == m.workspaces[i].id
                &&& w.output == m.workspaces[i].output
                &&& w.output == output_of_workspace(m, id) ==> w.is_active == (w.id == id)
                &&& w.output != output_of_workspace(m, id) ==> w.is_active
                    == m.workspaces[i].is_active
                &&& focused ==> w.is_focused == (w.id == id)
                &&& !focused ==> w.is_focused == m.workspaces[i].is_focused
            },
        output_of_workspace(m, id) matches Some(name) ==> (activated(m, id, focused).output(
            name,
        ) matches Some(o) ==> o.active_workspace_id == Some(id)),
{
    let post: AgentView = activated(m, id, focused);
    lemma_first_index(workspace_ids(m.workspaces), id);
    lemma_activated_ids(m, id, focused);
    let i: int = workspace_index(m.workspaces, id)->0;
    assert(workspace_ids(m.workspaces)[i] == id);
    assert(post.workspaces[i] == activated_workspace(
        m.workspaces[i],
        output_of_workspace(m, id),
        id,
        focused,
    ));
    if let Some(name) = output_of_workspace(m, id) {
        lemma_first_index(output_names(m.outputs), name);
        assert(output_names(post.outputs) =~= output_names(m.outputs));
    }
}

/// Activating a workspace a second time changes nothing.
pub proof fn activation_is_idempotent(m: AgentView, id: u64, focused: bool)
    ensures
        activated(activated(m, id, focused), id, focused) == activated(m, id, focused),
{
    let once: AgentView = activated(m, id, focused);
    let twice: AgentView = activated(once, id, focused);
    lemma_activated_ids(m, id, focused);
    lemma_first_index(workspace_ids(m.workspaces), id);
    if let Some(i) = workspace_index(m.workspaces, id) {
        assert(once.workspaces[i] == activated_workspace(
            m.workspaces[i],
            output_of_workspace(m, id),
            id,
            focused,
        ));
    }
    assert(output_of_workspace(once, id) == output_of_workspace(m, id));
    assert(twice.workspaces =~= once.workspaces);
    if let Some(name) = output_of_workspace(m, id) {
        lemma_first_index(output_names(m.outputs), name);
        assert(output_names(once.outputs) =~= output_names(m.outputs));
    }
    assert(twice.outputs =~= once.outputs);
}

/// Taking in the same workspaces a second time changes nothing.
pub proof fn refresh_is_idempotent(m: AgentView, workspaces: Seq<WorkspaceView>)
    ensures
        with_workspaces(with_workspaces(m, workspaces), workspaces) == with_workspaces(
            m,
            workspaces,
        ),
{
    let once: AgentView = with_workspaces(m, workspaces);
    let twice: AgentView = with_workspaces(once, workspaces);
    assert(output_names(once.outputs) =~= output_names(m.outputs));
    assert forall|k: int| 0 <= k < once.outputs.len() implies twice.outputs[k]
        == #[trigger] once.outputs[k] by {
        assert(once.outputs[k] == refreshed(m.outputs, k, workspaces));
        assert(twice.outputs[k] == refreshed(once.outputs, k, workspaces));
    }
    assert(twice.outputs =~= once.outputs);
}

// Focus.

/// After a change of focus, the window it went to has it and no other. The window is the active one
/// of its workspace.
pub proof fn focus_is_exclusive(m: AgentView, id: Option<u64>)
    ensures
        forall|k: u64| #[trigger]
            m.windows.contains_key(k) ==> focus_changed(m, id).windows[k].is_focused == (Some(k)
                == id),
        focus_changed(m, id).windows.dom() == m.windows.dom(),
        single_focus(focus_changed(m, id).windows),
        workspace_of_opt(m.windows, id) matches Some(w) ==> (focus_changed(m, id).workspace(
            w,
        ) matches Some(workspace) ==> workspace.active_window_id == id),
{
    let post: AgentView = focus_changed(m, id);
    lemma_focus_on(m.windows, id);
    assert forall|k: u64| #[trigger] m.windows.contains_key(k) implies post.windows[k].is_focused
        == (Some(k) == id) by {
        assert(post.windows.contains_key(k));
    }
    if let Some(w) = workspace_of_opt(m.windows, id) {
        lemma_active_window_is_set(m.workspaces, w, id);
    }
}

/// The workspace that gets another active window has it.
proof fn lemma_active_window_is_set(
    workspaces: Seq<WorkspaceView>,
    id: u64,
    active_window_id: Option<u64>,
)
    ensures
        ({
            let post = with_active_window(workspaces, id, active_window_id);
            &&& workspace_ids(post) == workspace_ids(workspaces)
            &&& workspace_index(workspaces, id) matches Some(i) ==> {
                &&& 0 <= i < post.len()
                &&& post[i].active_window_id == active_window_id
            }
        }),
{
    let post: Seq<WorkspaceView> = with_active_window(workspaces, id, active_window_id);
    lemma_first_index(workspace_ids(workspaces), id);
    assert(workspace_ids(post) =~= workspace_ids(workspaces));
}

/// A window that opens with the focus is the only one that has it.
pub proof fn opening_with_focus_is_exclusive(m: AgentView, window: Window)
    requires
        window.is_focused,
    ensures
        forall|k: u64| #[trigger]
            window_opened(m, window).windows.contains_key(k) ==> window_opened(
                m,
                window,
            ).windows[k].is_focused == (k == window.id),
        window_opened(m, window).windows.contains_key(window.id),
{
    lemma_focus_on(m.windows.insert(window.id, window), Some(window.id));
}

/// Events never give the focus to two windows, unless the compositor lists two with it.
pub proof fn events_keep_single_focus(pre: AgentView, e: EventView, post: AgentView)
    requires
        single_focus(pre.windows),
        is_after(pre, e, post),
        e matches EventView::WindowsChanged { windows } ==> single_focus(by_id(windows)),
    ensures
        single_focus(post.windows),
{
    match e {
        EventView::WindowOpenedOrChanged { window } => {
            if window.is_focused {
                opening_with_focus_is_exclusive(pre, window);
            }
        },
        EventView::WindowFocusChanged { id } => {
            focus_is_exclusive(pre, id);
        },
        EventView::WindowLayoutsChanged { changes } => {
            lemma_with_layouts(pre.windows, changes);
            assert forall|j: u64, k: u64|
                #![trigger post.windows[j], post.windows[k]]
                post.windows.contains_key(j) && post.windows.contains_key(k)
                    && post.windows[j].is_focused && post.windows[k].is_focused implies j == k by {
                assert(pre.windows.contains_key(j) && pre.windows.contains_key(k));
                assert(pre.windows[j].is_focused && pre.windows[k].is_focused);
            }
        },
        _ => {},
    }
}

// Windows that come and go.

/// A closed window is gone, all other windows stay as they were, and it is not the active window of
/// its workspace any more.
pub proof fn closed_window_is_forgotten(pre: AgentView, id: u64, post: AgentView)
    requires
        is_window_closed(pre, id, post),
    ensures
        !post.windows.contains_key(id),
        post.windows == pre.windows.remove(id),
        workspace_of(pre.windows, id) matches Some(w) ==> (post.workspace(w) matches Some(
            workspace,
        ) ==> workspace.active_window_id != Some(id)),
{
    if is_active_window(pre, id) {
        let w: u64 = workspace_of(pre.windows, id)->0;
        let pick: Option<u64> = choose|pick: Option<u64>| #[trigger]
            is_replacement(pre.windows.remove(id), w, pick) && post == window_closed(pre, id, pick);
        lemma_active_window_is_set(pre.workspaces, w, pick);
    }
}

/// The window that becomes active in place of a closed one stands in a column of the same
/// workspace.
pub proof fn replacement_stands_in_a_column(pre: AgentView, id: u64, post: AgentView)
    requires
        is_active_window(pre, id),
        is_window_closed(pre, id, post),
    ensures
        ({
            let w = workspace_of(pre.windows, id)->0;
            &&& post.workspace(w) matches Some(workspace)
            &&& is_replacement(post.windows, w, workspace.active_window_id)
        }),
{
    let w: u64 = workspace_of(pre.windows, id)->0;
    let pick: Option<u64> = choose|pick: Option<u64>| #[trigger]
        is_replacement(pre.windows.remove(id), w, pick) && post == window_closed(pre, id, pick);
    lemma_active_window_is_set(pre.workspaces, w, pick);
}

/// The close of an unknown window changes nothing and leads to nothing.
pub proof fn closing_unknown_window_does_nothing(
    pre: AgentView,
    id: u64,
    post: AgentView,
    actions: Seq<ActionView>,
)
    requires
        !pre.windows.contains_key(id),
        is_after(pre, EventView::WindowClosed { id }, post),
        leads_to(pre, EventView::WindowClosed { id }, post, actions),
    ensures
        post == pre,
        actions.len() == 0,
{
    assert(pre.windows.remove(id) =~= pre.windows);
    assert(only_active(post, Seq::empty()) =~= Seq::empty()) by {
        reveal(Seq::filter);
    }
}

/// A new window that did not take the focus, and is closed again, leaves no trace.
pub proof fn close_undoes_open(m: AgentView, window: Window, post: AgentView)
    requires
        !m.windows.contains_key(window.id),
        !window.is_focused,
        !is_active_window(window_opened(m, window), window.id),
        is_window_closed(window_opened(m, window), window.id, post),
    ensures
        post == m,
{
    assert(m.windows.insert(window.id, window).remove(window.id) =~= m.windows);
}

/// Of two listed windows with one id, the later one counts; every id is kept.
pub proof fn later_window_counts(windows: Seq<Window>, i: int)
    requires
        0 <= i < windows.len(),
    ensures
        by_id(windows).contains_key(windows[i].id),
        (forall|j: int| i < j < windows.len() ==> (#[trigger] windows[j]).id != windows[i].id)
            ==> by_id(windows)[windows[i].id] == windows[i],
    decreases windows.len(),
{
    let n: int = windows.len() - 1;
    let init: Seq<Window> = windows.drop_last();
    if i < n {
        later_window_counts(init, i);
        assert(init[i] == windows[i]);
        if forall|j: int| i < j < windows.len() ==> (#[trigger] windows[j]).id != windows[i].id {
            assert(windows[n].id != windows[i].id);
            assert forall|j: int| i < j < init.len() implies (#[trigger] init[j]).id
                != init[i].id by {
                assert(windows[j].id != windows[i].id);
            }
        }
    }
}

/// No workspace is looked at twice for one event about windows.
pub proof fn workspaces_are_refreshed_once(
    m: AgentView,
    window: Window,
    changes: Seq<(u64, WindowLayout)>,
)
    ensures
        opened_on(m, window).no_duplicates(),
        layouts_changed_on(m.windows, changes).no_duplicates(),
    decreases changes.len(),
{
    assert(listed(workspace_of(m.windows, window.id)).no_duplicates());
    if changes.len() > 0 {
        workspaces_are_refreshed_once(m, window, changes.drop_last());
    }
}

/// A layout change concerns exactly the workspaces of the known windows that it names.
pub proof fn layout_changes_concern(
    windows: Map<u64, Window>,
    changes: Seq<(u64, WindowLayout)>,
    id: u64,
)
    ensures
        layouts_changed_on(windows, changes).contains(id) <==> exists|i: int|
            0 <= i < changes.len() && workspace_of(windows, (#[trigger] changes[i]).0) == Some(id),
    decreases changes.len(),
{
    if changes.len() > 0 {
        let n: int = changes.len() - 1;
        let init: Seq<(u64, WindowLayout)> = changes.drop_last();
        let rest: Seq<u64> = layouts_changed_on(windows, init);
        layout_changes_concern(windows, init, id);
        let new: Option<u64> = workspace_of(windows, changes[n].0);
        assert(push_new(rest, new).contains(id) <==> rest.contains(id) || new == Some(id)) by {
            if let Some(w) = new {
                if !rest.contains(w) {
                    assert(rest.push(w)[rest.len() as int] == w);
                    if rest.contains(id) {
                        let j: int = choose|j: int| 0 <= j < rest.len() && rest[j] == id;
                        assert(rest.push(w)[j] == id);
                    }
                    if rest.push(w).contains(id) && id != w {
                        let j: int = choose|j: int|
                            0 <= j < rest.push(w).len() && rest.push(w)[j] == id;
                        assert(rest[j] == id);
                    }
                }
            }
        }
        if rest.contains(id) {
            let i: int = choose|i: int|
                0 <= i < init.len() && workspace_of(windows, (#[trigger] init[i]).0) == Some(id);
            assert(changes[i] == init[i]);
        }
        if exists|i: int|
            0 <= i < changes.len() && workspace_of(windows, (#[trigger] changes[i]).0) == Some(
                id,
            ) {
            let i: int = choose|i: int|
                0 <= i < changes.len() && workspace_of(windows, (#[trigger] changes[i]).0) == Some(
                    id,
                );
            if i < n {
                assert(init[i] == changes[i]);
            }
        }
    }
}

// What events leave alone.

/// No event changes the configuration, which outputs there are, or what is drawn on them.
pub proof fn events_keep_what_is_drawn(pre: AgentView, e: EventView, post: AgentView)
    requires
        is_after(pre, e, post),
    ensures
        post.config == pre.config,
        post.outputs.len() == pre.outputs.len(),
        forall|k: int|
            0 <= k < pre.outputs.len() ==> {
                &&& (#[trigger] post.outputs[k]).name == pre.outputs[k].name
                &&& post.outputs[k].image == pre.outputs[k].image
                &&& post.outputs[k].mode == pre.outputs[k].mode
            },
{
    match e {
        EventView::WorkspaceActivated { id, focused } => {
            if let Some(name) = output_of_workspace(pre, id) {
                lemma_first_index(output_names(pre.outputs), name);
            }
        },
        _ => {},
    }
}

/// Events about windows, and about active windows, leave the outputs alone.
pub proof fn window_events_keep_outputs(pre: AgentView, e: EventView, post: AgentView)
    requires
        is_after(pre, e, post),
        !(e is WorkspacesChanged),
        !(e is WorkspaceActivated),
    ensures
        post.outputs == pre.outputs,
{
}

// Columns and positions.

/// A workspace of finitely many windows has finitely many columns.
pub proof fn lemma_columns_finite(windows: Map<u64, Window>, workspace_id: u64)
    requires
        windows.dom().finite(),
    ensures
        columns(windows, workspace_id).finite(),
{
    let f = |k: u64|
        match column_of(windows[k]) {
            Some(c) => c,
            None => 0usize,
        };
    let image: Set<usize> = windows.dom().map(f);
    windows.dom().lemma_map_finite(f);
    assert forall|c: usize| columns(windows, workspace_id).contains(c) implies image.contains(
        c,
    ) by {
        let k: u64 = choose|k: u64| in_column(windows, workspace_id, k, c);
        assert(windows.dom().contains(k) && f(k) == c);
    }
    assert(columns(windows, workspace_id).subset_of(image));
    vstd::set_lib::lemma_set_subset_finite(image, columns(windows, workspace_id));
}

/// The active column is one of the workspace's columns: its rank is at least one and at most their
/// number.
pub proof fn active_column_is_a_column(m: AgentView, id: u64, pick: Option<Window>)
    requires
        m.windows.dom().finite(),
    ensures
        column_state(m, id, pick) matches Some(s) ==> 1 <= s.0 <= s.1,
{
    let all: Set<usize> = columns(m.windows, id);
    lemma_columns_finite(m.windows, id);
    if let Some(w) = m.workspace(id) {
        if let Some(c) = active_column(m.windows, w, pick) {
            if all.contains(c) {
                let up_to: Set<usize> = all.filter(|d: usize| d <= c);
                assert(up_to.subset_of(all));
                vstd::set_lib::lemma_len_subset(up_to, all);
                assert(up_to.contains(c));
                if up_to.len() == 0 {
                    assert(up_to.is_empty());
                }
            }
        }
    }
}

/// How far the active column is along its workspace is settled where no two windows have the focus.
pub proof fn column_percent_is_settled(m: AgentView, id: u64, p: ScrollPercent, q: ScrollPercent)
    requires
        single_focus(m.windows),
        is_column_percent(m, id, p),
        is_column_percent(m, id, q),
    ensures
        p == q,
{
    let a: Option<Window> = choose|pick: Option<Window>| #[trigger]
        is_focused_pick(m.windows, id, pick) && p == column_percent(column_state(m, id, pick));
    let b: Option<Window> = choose|pick: Option<Window>| #[trigger]
        is_focused_pick(m.windows, id, pick) && q == column_percent(column_state(m, id, pick));
    if let Some(v) = a {
        let j: u64 = choose|k: u64| #[trigger] m.windows.contains_key(k) && m.windows[k] == v;
        assert(focused_on(m.windows[j], id));
        if let Some(w) = b {
            let k: u64 = choose|k: u64| #[trigger] m.windows.contains_key(k) && m.windows[k] == w;
            assert(m.windows[j].is_focused && m.windows[k].is_focused);
        }
    } else if let Some(w) = b {
        let k: u64 = choose|k: u64| #[trigger] m.windows.contains_key(k) && m.windows[k] == w;
        assert(focused_on(m.windows[k], id));
    }
}

/// The active window settles how far the active column is along, whichever windows have the focus.
pub proof fn active_window_settles_column(m: AgentView, id: u64, p: ScrollPercent, q: ScrollPercent)
    requires
        m.workspace(id) matches Some(w) && active_window_column(m.windows, w) is Some,
        is_column_percent(m, id, p),
        is_column_percent(m, id, q),
    ensures
        p == q,
{
}

/// The active column lies on its axis.
pub proof fn column_is_on_axis(m: AgentView, id: u64, p: ScrollPercent)
    requires
        m.windows.dom().finite(),
        is_column_percent(m, id, p),
    ensures
        p.on_axis(),
{
    let pick: Option<Window> = choose|pick: Option<Window>| #[trigger]
        is_focused_pick(m.windows, id, pick) && p == column_percent(column_state(m, id, pick));
    active_column_is_a_column(m, id, pick);
    lemma_columns_fit(m.windows, id);
}

/// There are no more columns than a machine word counts, with finitely many windows.
pub proof fn lemma_columns_fit(windows: Map<u64, Window>, workspace_id: u64)
    requires
        windows.dom().finite(),
    ensures
        columns(windows, workspace_id).len() <= usize::MAX + 1,
{
    lemma_columns_finite(windows, workspace_id);
    let all: Set<int> = vstd::set_lib::set_int_range(0, usize::MAX + 1);
    vstd::set_lib::lemma_int_range(0, usize::MAX + 1);
    let f = |c: usize| c as int;
    let image: Set<int> = columns(windows, workspace_id).map(f);
    assert(image.subset_of(all));
    vstd::set_lib::lemma_len_subset(image, all);
    vstd::set_lib::lemma_map_size(columns(windows, workspace_id), image, f);
}

/// With this workspace as the active one of an output that scrolls, the image of the output stands
/// where looking at the workspace puts it: each place that the one may give, the other may give.
pub proof fn output_stands_where_scrolling_leads(
    m: AgentView,
    id: u64,
    name: Seq<char>,
    mode: RenderMode,
    position: (ScrollPercent, ScrollPercent),
)
    requires
        m.workspace(id) matches Some(w) && w.output == Some(name),
        m.output(name) matches Some(o) && o.mode == Some(mode) && scrolls(o.mode)
            && o.active_workspace_id == Some(id) && o.active_workspace_idx == Some(
            m.workspace(id)->0.idx,
        ),
    ensures
        responds(m, id),
        is_current_position(m, name, mode, position) <==> is_response(
            m,
            id,
            ActionView::Scroll { output: name, position },
        ),
{
    let o: OutputView = m.output(name)->0;
    let row: ScrollPercent = output_row(o);
    if is_current_position(m, name, mode, position) {
        let p: ScrollPercent = choose|p: ScrollPercent| #[trigger]
            is_output_column(m, o, p) && position == image_position(mode, p, row);
        assert(is_column_percent(m, id, p));
    }
    if is_response(m, id, ActionView::Scroll { output: name, position }) {
        let p: ScrollPercent = choose|p: ScrollPercent| #[trigger]
            is_column_percent(m, id, p) && position == image_position(mode, p, row);
        assert(is_output_column(m, o, p));
    }
}

/// A reload draws an output where scrolling left it: with this workspace as the active one of an
/// output that scrolls, the output is drawn anew at the very place where looking at the workspace
/// puts its image, where no two windows have the focus, the active window tells the column, or the
/// column does not matter.
pub proof fn reload_draws_where_scrolling_left(
    m: AgentView,
    id: u64,
    name: Seq<char>,
    mode: RenderMode,
    position: (ScrollPercent, ScrollPercent),
    a: ActionView,
)
    requires
        m.workspace(id) matches Some(w) && w.output == Some(name),
        m.output(name) matches Some(o) && o.mode == Some(mode) && scrolls(o.mode)
            && o.active_workspace_id == Some(id) && o.active_workspace_idx == Some(
            m.workspace(id)->0.idx,
        ),
        single_focus(m.windows) || active_window_column(m.windows, m.workspace(id)->0) is Some
            || mode == RenderMode::ScrollVertical,
        is_current_position(m, name, mode, position),
        is_response(m, id, a),
    ensures
        a == (ActionView::Scroll { output: name, position }),
{
    output_stands_where_scrolling_leads(m, id, name, mode, position);
    if mode != RenderMode::ScrollVertical {
        lemma_response_is_settled(m, id, a, ActionView::Scroll { output: name, position });
    }
}

// Commands.

/// One verbose line goes before each scroll command, and before no other.
pub proof fn scrolls_alone_are_announced(command: CommandType)
    ensures
        command.announced() <==> Action::Handle(command)@ is Scroll,
{
}

/// Every action comes from looking at one of the workspaces.
pub proof fn responses_come_from_workspaces(
    m: AgentView,
    ids: Seq<u64>,
    actions: Seq<ActionView>,
    i: int,
) -> (j: int)
    requires
        are_responses(m, ids, actions),
        0 <= i < actions.len(),
    ensures
        0 <= j < ids.len(),
        is_response(m, ids[j], actions[i]),
    decreases ids.len(),
{
    if responds(m, ids.last()) {
        if i == actions.len() - 1 {
            ids.len() - 1
        } else {
            responses_come_from_workspaces(m, ids.drop_last(), actions.drop_last(), i)
        }
    } else {
        responses_come_from_workspaces(m, ids.drop_last(), actions, i)
    }
}

/// What an event leads to is a poke or comes from one of the workspaces looked at.
pub open spec fn is_poke_or_response(
    m: AgentView,
    ids: Seq<u64>,
    a: ActionView,
) -> bool {
    a == ActionView::Poke || exists|j: int|
        0 <= j < ids.len() && is_response(m, #[trigger] ids[j], a)
}

/// Every action that an event leads to is a poke, or comes from a workspace that the event makes
/// the agent look at.
pub proof fn actions_come_from_workspaces(
    pre: AgentView,
    e: EventView,
    post: AgentView,
    actions: Seq<ActionView>,
    i: int,
)
    requires
        leads_to(pre, e, post, actions),
        0 <= i < actions.len(),
    ensures
        is_poke_or_response(post, looked_at(pre, e, post), actions[i]),
{
    let ids: Seq<u64> = looked_at(pre, e, post);
    match e {
        EventView::WorkspacesChanged { workspaces } => {
            if i > 0 {
                let j: int = responses_come_from_workspaces(post, ids, actions.drop_first(), i - 1);
                assert(is_response(post, ids[j], actions[i]));
            }
        },
        EventView::WindowLayoutsChanged { changes } => {
            if i < actions.len() - 1 {
                let j: int = responses_come_from_workspaces(post, ids, actions.drop_last(), i);
                assert(is_response(post, ids[j], actions[i]));
            }
        },
        _ => {
            let j: int = responses_come_from_workspaces(post, ids, actions, i);
            assert(is_response(post, ids[j], actions[i]));
        },
    }
}

/// What looking at workspaces leads to is settled where no two windows have the focus.
pub proof fn responses_are_settled(
    m: AgentView,
    ids: Seq<u64>,
    a: Seq<ActionView>,
    b: Seq<ActionView>,
)
    requires
        single_focus(m.windows),
        are_responses(m, ids, a),
        are_responses(m, ids, b),
    ensures
        a == b,
    decreases ids.len(),
{
    if ids.len() > 0 {
        let id: u64 = ids.last();
        if responds(m, id) {
            responses_are_settled(m, ids.drop_last(), a.drop_last(), b.drop_last());
            lemma_response_is_settled(m, id, a.last(), b.last());
            assert(a =~= a.drop_last().push(a.last()));
            assert(b =~= b.drop_last().push(b.last()));
        } else {
            responses_are_settled(m, ids.drop_last(), a, b);
        }
    } else {
        assert(a =~= b);
    }
}

/// What looking at a workspace leads to is settled where no two windows have the focus, and where
/// the active window tells the column.
proof fn lemma_response_is_settled(m: AgentView, id: u64, a: ActionView, b: ActionView)
    requires
        single_focus(m.windows) || active_window_column(m.windows, m.workspace(id)->0) is Some,
        is_response(m, id, a),
        is_response(m, id, b),
    ensures
        a == b,
{
    let w: WorkspaceView = m.workspace(id)->0;
    let name: Seq<char> = w.output->0;
    if let Some(o) = m.output(name) {
        let row: ScrollPercent = place_percent(w.idx as int, o.max_workspace_idx as int);
        let p: ScrollPercent = choose|p: ScrollPercent|
            {
                &&& #[trigger] is_column_percent(m, id, p)
                &&& a == ActionView::Scroll {
                    output: name,
                    position: image_position(o.mode->0, p, row),
                }
            };
        let q: ScrollPercent = choose|q: ScrollPercent|
            {
                &&& #[trigger] is_column_percent(m, id, q)
                &&& b == ActionView::Scroll {
                    output: name,
                    position: image_position(o.mode->0, q, row),
                }
            };
        if single_focus(m.windows) {
            column_percent_is_settled(m, id, p, q);
        } else {
            active_window_settles_column(m, id, p, q);
        }
    }
}

/// What an event leads to is settled where no two windows have the focus.
pub proof fn actions_are_settled(
    pre: AgentView,
    e: EventView,
    post: AgentView,
    a: Seq<ActionView>,
    b: Seq<ActionView>,
)
    requires
        single_focus(post.windows),
        leads_to(pre, e, post, a),
        leads_to(pre, e, post, b),
    ensures
        a == b,
{
    let ids: Seq<u64> = looked_at(pre, e, post);
    match e {
        EventView::WorkspacesChanged { workspaces } => {
            responses_are_settled(post, ids, a.drop_first(), b.drop_first());
            assert(a =~= seq![a.first()] + a.drop_first());
            assert(b =~= seq![b.first()] + b.drop_first());
        },
        EventView::WindowLayoutsChanged { changes } => {
            responses_are_settled(post, ids, a.drop_last(), b.drop_last());
            assert(a =~= a.drop_last().push(a.last()));
            assert(b =~= b.drop_last().push(b.last()));
        },
        _ => {
            responses_are_settled(post, ids, a, b);
        },
    }
}

/// The activation of a workspace on an output that scrolls moves the image of that output, and
/// nothing else happens.
pub proof fn activation_moves_its_output(
    pre: AgentView,
    id: u64,
    focused: bool,
    post: AgentView,
    actions: Seq<ActionView>,
    name: Seq<char>,
)
    requires
        output_of_workspace(pre, id) == Some(name),
        pre.output(name) matches Some(o) && scrolls(o.mode),
        is_after(pre, EventView::WorkspaceActivated { id, focused }, post),
        leads_to(pre, EventView::WorkspaceActivated { id, focused }, post, actions),
    ensures
        actions.len() == 1,
        actions[0] matches ActionView::Scroll { output, position } && output == name,
{
    let e: EventView = EventView::WorkspaceActivated { id, focused };
    reveal_with_fuel(are_responses, 2);
    lemma_activated_ids(pre, id, focused);
    lemma_first_index(workspace_ids(pre.workspaces), id);
    lemma_first_index(output_names(pre.outputs), name);
    events_keep_what_is_drawn(pre, e, post);
    assert(output_names(post.outputs) =~= output_names(pre.outputs));
    let i: int = workspace_index(pre.workspaces, id)->0;
    assert(post.workspaces[i].output == pre.workspaces[i].output);
    let k: int = output_index(pre.outputs, name)->0;
    assert(post.outputs[k].mode == pre.outputs[k].mode);
    assert(responds(post, id));
    assert(seq![id].drop_last() =~= Seq::empty());
}

/// An event moves only images of known outputs in a scrolling mode, and draws none anew.
pub proof fn only_scrolling_outputs_move(
    pre: AgentView,
    e: EventView,
    post: AgentView,
    actions: Seq<ActionView>,
    i: int,
)
    requires
        leads_to(pre, e, post, actions),
        0 <= i < actions.len(),
    ensures
        !(actions[i] is Render),
        actions[i] matches ActionView::Scroll { output, position } ==> (post.output(
            output,
        ) matches Some(o) && scrolls(o.mode)),
        actions[i] matches ActionView::OutputNotConfigured(name) ==> post.output(name) is None,
{
    actions_come_from_workspaces(pre, e, post, actions, i);
}

/// The render threads are poked when the workspaces change, before anything moves, and when layouts
/// change, after everything moved; never else.
pub proof fn pokes_come_first_or_last(
    pre: AgentView,
    e: EventView,
    post: AgentView,
    actions: Seq<ActionView>,
    i: int,
)
    requires
        leads_to(pre, e, post, actions),
        0 <= i < actions.len(),
    ensures
        actions[i] == ActionView::Poke <==> {
            ||| e is WorkspacesChanged && i == 0
            ||| e is WindowLayoutsChanged && i == actions.len() - 1
        },
{
    let ids: Seq<u64> = looked_at(pre, e, post);
    match e {
        EventView::WorkspacesChanged { workspaces } => {
            if i > 0 {
                let j: int = responses_come_from_workspaces(post, ids, actions.drop_first(), i - 1);
                assert(is_response(post, ids[j], actions[i]));
            }
        },
        EventView::WindowLayoutsChanged { changes } => {
            if i < actions.len() - 1 {
                let j: int = responses_come_from_workspaces(post, ids, actions.drop_last(), i);
                assert(is_response(post, ids[j], actions[i]));
            }
        },
        _ => {
            let j: int = responses_come_from_workspaces(post, ids, actions, i);
            assert(is_response(post, ids[j], actions[i]));
        },
    }
}

/// The agent looks only at active workspaces, where the compositor gives no id twice.
pub proof fn only_active_workspaces_count(pre: AgentView, e: EventView, post: AgentView, i: int)
    requires
        workspace_ids(post.workspaces).no_duplicates(),
        is_expected(pre, e),
        is_after(pre, e, post),
        0 <= i < looked_at(pre, e, post).len(),
    ensures
        post.is_active(looked_at(pre, e, post)[i]),
{
    match e {
        EventView::WorkspacesChanged { workspaces } => {
            lemma_active_ids_are_active(post, i);
        },
        EventView::WindowsChanged { windows } => {
            lemma_active_ids_are_active(post, i);
        },
        EventView::WorkspaceActivated { id, focused } => {
            activation_is_exclusive(pre, id, focused);
        },
        EventView::WorkspaceActiveWindowChanged { workspace_id, active_window_id } => {
            seq![workspace_id].lemma_filter_pred(|id: u64| post.is_active(id), i);
        },
        EventView::WindowOpenedOrChanged { window } => {
            opened_on(pre, window).lemma_filter_pred(|id: u64| post.is_active(id), i);
        },
        EventView::WindowClosed { id } => {
            listed(workspace_of(pre.windows, id)).lemma_filter_pred(
                |id: u64| post.is_active(id),
                i,
            );
        },
        EventView::WindowFocusChanged { id } => {
            listed(workspace_of_opt(pre.windows, id)).lemma_filter_pred(
                |id: u64| post.is_active(id),
                i,
            );
        },
        EventView::WindowLayoutsChanged { changes } => {
            layouts_changed_on(pre.windows, changes).lemma_filter_pred(
                |id: u64| post.is_active(id),
                i,
            );
        },
        EventView::Other => {},
    }
}

/// Where no id occurs twice, the active ids are those of active workspaces.
proof fn lemma_active_ids_are_active(m: AgentView, i: int)
    requires
        workspace_ids(m.workspaces).no_duplicates(),
        0 <= i < active_ids(m.workspaces).len(),
    ensures
        m.is_active(active_ids(m.workspaces)[i]),
{
    let pred = |w: WorkspaceView| w.is_active;
    let active: Seq<WorkspaceView> = m.workspaces.filter(pred);
    m.workspaces.lemma_filter_pred(pred, i);
    m.workspaces.lemma_filter_contains_rev(pred, active[i]);
    let id: u64 = active[i].id;
    let j: int = choose|j: int| 0 <= j < m.workspaces.len() && m.workspaces[j] == active[i];
    let ids: Seq<u64> = workspace_ids(m.workspaces);
    lemma_first_index(ids, id);
    assert(ids[j] == id);
    let k: int = first_index(ids, id)->0;
    assert(ids[k] == ids[j]);
}

/// The row of a workspace on a known output lies on its axis.
proof fn lemma_row_on_axis(m: AgentView, i: int, name: Seq<char>)
    requires
        m.inv(),
        0 <= i < m.workspaces.len(),
        m.workspaces[i].output == Some(name),
        m.output(name) is Some,
    ensures
        place_percent(
            m.workspaces[i].idx as int,
            m.output(name)->0.max_workspace_idx as int,
        ).on_axis(),
{
    lemma_first_index(output_names(m.outputs), name);
    let k: int = output_index(m.outputs, name)->0;
    assert(output_names(m.outputs)[k] == name);
    assert(output_is_current(m.workspaces, m.outputs[k]));
    lemma_max_idx_bounds(m.workspaces, name);
    place_is_on_axis(m.workspaces[i].idx as int, m.outputs[k].max_workspace_idx as int);
}

/// Looking at a workspace puts an image nowhere but on its axes.
proof fn lemma_response_on_axis(m: AgentView, id: u64, a: ActionView)
    requires
        m.inv(),
        is_response(m, id, a),
    ensures
        action_on_axis(a),
{
    lemma_first_index(workspace_ids(m.workspaces), id);
    let i: int = workspace_index(m.workspaces, id)->0;
    let name: Seq<char> = m.workspaces[i].output->0;
    if let Some(o) = m.output(name) {
        let row: ScrollPercent = place_percent(
            m.workspaces[i].idx as int,
            o.max_workspace_idx as int,
        );
        let column: ScrollPercent = choose|column: ScrollPercent|
            {
                &&& #[trigger] is_column_percent(m, id, column)
                &&& a == ActionView::Scroll {
                    output: name,
                    position: image_position(o.mode->0, column, row),
                }
            };
        column_is_on_axis(m, id, column);
        lemma_row_on_axis(m, i, name);
    }
}

/// Every image stays on its axes: an event moves none below 0 or above 100 percent.
pub proof fn events_move_images_on_axis(
    pre: AgentView,
    e: EventView,
    post: AgentView,
    actions: Seq<ActionView>,
    i: int,
)
    requires
        post.inv(),
        leads_to(pre, e, post, actions),
        0 <= i < actions.len(),
    ensures
        action_on_axis(actions[i]),
{
    let ids: Seq<u64> = looked_at(pre, e, post);
    actions_come_from_workspaces(pre, e, post, actions, i);
    if actions[i] != ActionView::Poke {
        let j: int = choose|j: int|
            0 <= j < ids.len() && is_response(post, #[trigger] ids[j], actions[i]);
        lemma_response_on_axis(post, ids[j], actions[i]);
    }
}

/// Every image stays on its axes: looking at workspaces, as at the opening of a session, moves none
/// below 0 or above 100 percent.
pub proof fn responses_move_images_on_axis(
    m: AgentView,
    ids: Seq<u64>,
    actions: Seq<ActionView>,
    i: int,
)
    requires
        m.inv(),
        are_responses(m, ids, actions),
        0 <= i < actions.len(),
    ensures
        action_on_axis(actions[i]),
{
    let j: int = responses_come_from_workspaces(m, ids, actions, i);
    lemma_response_on_axis(m, ids[j], actions[i]);
}

/// Every image stays on its axes: a new configuration draws none below 0 or above 100 percent.
pub proof fn redraws_put_images_on_axis(
    m: AgentView,
    entries: Seq<OutputConfigView>,
    actions: Seq<ActionView>,
    i: int,
)
    requires
        m.inv(),
        are_redraws(m, entries, actions),
        0 <= i < actions.len(),
    ensures
        action_on_axis(actions[i]),
{
    let c: OutputConfigView = entries[i];
    assert(is_redraw(m, c, actions[i]));
    let mode: RenderMode = c.effective_mode();
    let position: (ScrollPercent, ScrollPercent) = actions[i]->Render_position;
    if let Some(o) = m.output(c.name) {
        let column: ScrollPercent = choose|column: ScrollPercent|
            {
                &&& #[trigger] is_output_column(m, o, column)
                &&& position == image_position(mode, column, output_row(o))
            };
        if let Some(id) = o.active_workspace_id {
            column_is_on_axis(m, id, column);
        }
        lemma_first_index(output_names(m.outputs), c.name);
        let k: int = output_index(m.outputs, c.name)->0;
        assert(output_names(m.outputs)[k] == c.name);
        assert(output_is_current(m.workspaces, m.outputs[k]));
        if let (Some(id), Some(idx)) = (o.active_workspace_id, o.active_workspace_idx) {
            let j: int = choose|j: int|
                {
                    &&& 0 <= j < m.workspaces.len()
                    &&& (#[trigger] m.workspaces[j]).output == Some(o.name)
                    &&& m.workspaces[j].is_active
                    &&& m.workspaces[j].id == id
                    &&& m.workspaces[j].idx == idx
                };
            lemma_row_on_axis(m, j, c.name);
        } else {
            place_is_on_axis(1, o.max_workspace_idx as int);
        }
    }
}

// Configuration.

/// None of the entries asks for anything but what is drawn.
pub open spec fn settled(outputs: Seq<OutputView>, entries: Seq<OutputConfigView>) -> bool {
    forall|i: int| 0 <= i < entries.len() ==> !entry_differs(outputs, #[trigger] entries[i])
}

/// Where none of the entries asks for anything else, the configuration has no effect.
pub proof fn settled_configuration_has_no_effect(
    outputs: Seq<OutputView>,
    entries: Seq<OutputConfigView>,
)
    requires
        settled(outputs, entries),
    ensures
        config_applied(outputs, entries) == outputs,
        effective_entries(outputs, entries).len() == 0,
    decreases entries.len(),
{
    if entries.len() > 0 {
        let init: Seq<OutputConfigView> = entries.drop_last();
        assert forall|i: int| 0 <= i < init.len() implies !entry_differs(
            outputs,
            #[trigger] init[i],
        ) by {
            assert(init[i] == entries[i]);
        }
        settled_configuration_has_no_effect(outputs, init);
        assert(!entry_differs(outputs, entries[entries.len() - 1]));
    }
}

/// A configuration with at most one entry for each output takes hold: afterwards every known output
/// is drawn as its entry asks.
pub proof fn configuration_takes_hold(outputs: Seq<OutputView>, entries: Seq<OutputConfigView>)
    requires
        config_names(entries).no_duplicates(),
    ensures
        settled(config_applied(outputs, entries), entries),
    decreases entries.len(),
{
    if entries.len() > 0 {
        let n: int = entries.len() - 1;
        let init: Seq<OutputConfigView> = entries.drop_last();
        let c: OutputConfigView = entries[n];
        let before: Seq<OutputView> = config_applied(outputs, init);
        let after: Seq<OutputView> = config_applied(outputs, entries);
        assert forall|i: int, j: int|
            0 <= i < init.len() && 0 <= j < init.len() && i != j implies config_names(init)[i]
            != config_names(init)[j] by {
            assert(config_names(entries)[i] != config_names(entries)[j]);
        }
        configuration_takes_hold(outputs, init);
        lemma_config_applied(outputs, init);
        lemma_config_applied(outputs, entries);
        lemma_first_index(output_names(before), c.name);
        assert forall|i: int| 0 <= i < entries.len() implies !entry_differs(
            after,
            #[trigger] entries[i],
        ) by {
            lemma_first_index(output_names(before), entries[i].name);
            if i < n {
                assert(init[i] == entries[i]);
                assert(!entry_differs(before, init[i]));
                assert(config_names(entries)[i] != config_names(entries)[n]);
                if let Some(k) = output_index(before, entries[i].name) {
                    assert(output_names(before)[k] == entries[i].name);
                    if let Some(at) = output_index(before, c.name) {
                        assert(output_names(before)[at] == c.name);
                        assert(k != at);
                    }
                    assert(after[k] == before[k]);
                }
            }
        }
    }
}

/// Loading the same configuration a second time draws nothing and changes nothing, where it has at
/// most one entry for each output.
pub proof fn reload_is_idempotent(
    m: AgentView,
    entries: Seq<OutputConfigView>,
    actions: Seq<ActionView>,
)
    requires
        config_names(entries).no_duplicates(),
        are_redraws(
            reconfigured(m, entries),
            effective_entries(reconfigured(m, entries).outputs, entries),
            actions,
        ),
    ensures
        reconfigured(reconfigured(m, entries), entries) == reconfigured(m, entries),
        actions.len() == 0,
{
    configuration_takes_hold(m.outputs, entries);
    settled_configuration_has_no_effect(config_applied(m.outputs, entries), entries);
}

/// A new configuration leaves workspaces and windows alone, and changes of the outputs only what is
/// drawn on them.
pub proof fn reload_keeps_the_rest(m: AgentView, entries: Seq<OutputConfigView>)
    ensures
        reconfigured(m, entries).workspaces == m.workspaces,
        reconfigured(m, entries).windows == m.windows,
        output_names(reconfigured(m, entries).outputs) == output_names(m.outputs),
        forall|k: int|
            0 <= k < m.outputs.len() ==> (#[trigger] reconfigured(m, entries).outputs[k])
                == (OutputView {
                image: reconfigured(m, entries).outputs[k].image,
                mode: reconfigured(m, entries).outputs[k].mode,
                ..m.outputs[k]
            }),
{
    lemma_config_applied(m.outputs, entries);
    assert forall|k: int| 0 <= k < m.outputs.len() implies (#[trigger] reconfigured(
        m,
        entries,
    ).outputs[k]) == (OutputView {
        image: reconfigured(m, entries).outputs[k].image,
        mode: reconfigured(m, entries).outputs[k].mode,
        ..m.outputs[k]
    }) by {
        assert(config_applied(m.outputs, entries)[k].name == m.outputs[k].name);
    }
}

/// The listed output is enabled and configured, and `o` is its state as its first entry says.
pub open spec fn takes_up(
    config: Seq<OutputConfigView>,
    listed: ListedOutputView,
    o: OutputView,
) -> bool {
    match config_index(config, listed.name) {
        Some(c) => listed.enabled && o == fresh_output(config[c]),
        None => false,
    }
}

/// The agent takes up exactly the listed outputs that are enabled and configured, and draws each as
/// its first entry says.
pub proof fn outputs_taken_up(
    config: Seq<OutputConfigView>,
    listed: Seq<ListedOutputView>,
    o: OutputView,
)
    ensures
        configured_outputs(config, listed).contains(o) <==> exists|i: int|
            0 <= i < listed.len() && takes_up(config, #[trigger] listed[i], o),
    decreases listed.len(),
{
    if listed.len() > 0 {
        let n: int = listed.len() - 1;
        let init: Seq<ListedOutputView> = listed.drop_last();
        let rest: Seq<OutputView> = configured_outputs(config, init);
        let all: Seq<OutputView> = configured_outputs(config, listed);
        outputs_taken_up(config, init, o);
        if all.contains(o) {
            let j: int = choose|j: int| 0 <= j < all.len() && all[j] == o;
            if j < rest.len() {
                assert(rest[j] == o);
                let i: int = choose|i: int|
                    0 <= i < init.len() && takes_up(config, #[trigger] init[i], o);
                assert(takes_up(config, listed[i], o));
            } else {
                assert(takes_up(config, listed[n], o));
            }
        }
        if exists|i: int| 0 <= i < listed.len() && takes_up(config, #[trigger] listed[i], o) {
            let i: int = choose|i: int|
                0 <= i < listed.len() && takes_up(config, #[trigger] listed[i], o);
            if i < n {
                assert(takes_up(config, init[i], o));
                let j: int = choose|j: int| 0 <= j < rest.len() && rest[j] == o;
                assert(all[j] == o);
            } else {
                assert(all[rest.len() as int] == o);
            }
        }
    }
}

// Messages.

/// A failed read is worth a debug line; an unknown output and a queue that cannot be locked are
/// worth a log line.
pub proof fn levels_of_lines(line: LogLine, level: LogLevel)
    requires
        call_ensures(LogLine::level, (&line,), level),
    ensures
        level is Debug <==> line is EventReadFailed,
        level is Log <==> line is OutputNotConfigured || line is QueueLockFailed,
{
}

/// A log line names the output or the reason that it is about.
pub proof fn texts_of_lines(line: LogLine, text: String)
    requires
        call_ensures(LogLine::text, (&line,), text),
    ensures
        line matches LogLine::OutputNotConfigured(name) ==> text@ == name@
            + " not found in config; ignoring"@,
        line matches LogLine::EventReadFailed(reason) ==> text@ == "event read failed "@ + reason@,
        line matches LogLine::QueueLockFailed(reason) ==> text@ == "error acquiring channel lock: "@
            + reason@,
{
}

/// A verbose line goes before a command if and only if the command scrolls.
pub proof fn announced_commands(command: CommandType, announced: bool)
    requires
        call_ensures(CommandType::is_announced, (&command,), announced),
    ensures
        announced <==> command matches CommandType::Tc(RenderThreadCommand::Scroll(_)),
{
}

/// A poke is the command to look again at which outputs there are.
pub proof fn pokes_are_commands(a: Action)
    requires
        call_ensures(NiriProcessor::poke, (), a),
    ensures
        a == Action::Handle(CommandType::Tc(RenderThreadCommand::Poke)),
{
}

/// Of the workspaces with an id, the first is found, as it is; without one, none is found.
pub proof fn first_workspace_is_found(p: NiriProcessor, id: u64, res: Option<&Workspace>)
    requires
        call_ensures(NiriProcessor::get_workspace, (&p, id), res),
    ensures
        res matches Some(w) ==> exists|i: int| #[trigger]
            first_with_id(p@.workspaces, id, i) && keeps(*w, p@.workspaces[i]),
        res is None ==> none_with_id(p@.workspaces, id),
{
    lemma_first_with_id(p@, id);
}

/// Two optional names are the same if both are there and read the same, or neither is there. A copy
/// of a name is the same.
pub proof fn names_are_compared(a: Option<String>, b: Option<String>, same: bool, c: Option<String>)
    requires
        call_ensures(same_name, (&a, &b), same),
        call_ensures(copy_name, (&a,), c),
    ensures
        same <==> (a is None && b is None || a is Some && b is Some && a->0@ == b->0@),
        a is None <==> c is None,
        a is Some && c is Some ==> a->0@ == c->0@,
{
}

/// Of the entries for an output, the first is found; without one, none is found.
pub proof fn first_entry_is_found(config: DaemonConfig, name: String, res: Option<usize>)
    requires
        call_ensures(DaemonConfig::find_output, (&config, &name), res),
    ensures
        res matches Some(i) ==> {
            &&& i < config.outputs@.len()
            &&& config.outputs@[i as int].name@ == name@
            &&& forall|j: int| 0 <= j < i ==> (#[trigger] config.outputs@[j]).name@ != name@
        },
        res is None ==> forall|j: int|
            0 <= j < config.outputs@.len() ==> (#[trigger] config.outputs@[j]).name@ != name@,
{
    let names: Seq<Seq<char>> = config_names(config@);
    lemma_first_index(names, name@);
    assert forall|j: int| 0 <= j < config.outputs@.len() implies names[j]
        == (#[trigger] config.outputs@[j]).name@ by {}
    if let Some(i) = res {
        assert(names[i as int] == name@);
        assert forall|j: int| 0 <= j < i implies (#[trigger] config.outputs@[j]).name@ != name@ by {
            assert(names[j] != name@);
        }
    }
}

} // verus!
