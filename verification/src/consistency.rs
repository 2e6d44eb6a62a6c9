//! Every event and every new configuration keeps the agent's knowledge consistent.

use vstd::prelude::*;

use crate::compositor::{EventView, Window, WindowLayout, WorkspaceView};
use crate::config::{OutputConfigView, RenderMode};
use crate::lookup::lemma_first_index;
use crate::model::{
    activated, activated_workspace, active_on, column_state, config_applied, entry_applied,
    image_position, is_after, is_column_percent, is_current_position, is_output_column, max_idx_on,
    output_index, output_is_current, output_names, output_of_workspace, output_row, reconfigured,
    refreshed, window_closed, with_active, with_active_window, with_workspaces, workspace_ids,
    workspace_index, AgentView, OutputView,
};
use crate::percent::ScrollPercent;
use crate::windows::{
    by_id, lemma_focus_on, windows_by_id, with_layouts, workspace_of, workspace_of_opt,
};

verus! {

/// The largest index on an output depends only on where the workspaces are.
pub proof fn lemma_max_idx_same(a: Seq<WorkspaceView>, b: Seq<WorkspaceView>, name: Seq<char>)
    requires
        a.len() == b.len(),
        forall|i: int|
            0 <= i < a.len() ==> (#[trigger] a[i]).output == b[i].output && a[i].idx == b[i].idx,
    ensures
        max_idx_on(a, name) == max_idx_on(b, name),
    decreases a.len(),
{
    if a.len() > 0 {
        let n: int = a.len() - 1;
        assert(a[n].output == b[n].output && a[n].idx == b[n].idx);
        assert forall|i: int| 0 <= i < n implies (#[trigger] a.drop_last()[i]).output
            == b.drop_last()[i].output && a.drop_last()[i].idx == b.drop_last()[i].idx by {
            assert(a[i].output == b[i].output && a[i].idx == b[i].idx);
        }
        lemma_max_idx_same(a.drop_last(), b.drop_last(), name);
    }
}

/// No workspace on the output has a larger index, and unless the index is 0 some workspace has it.
pub proof fn lemma_max_idx_bounds(workspaces: Seq<WorkspaceView>, name: Seq<char>)
    ensures
        max_idx_on(workspaces, name) > 0 ==> exists|i: int|
            {
                &&& 0 <= i < workspaces.len()
                &&& (#[trigger] workspaces[i]).output == Some(name)
                &&& workspaces[i].idx == max_idx_on(workspaces, name)
            },
        forall|i: int|
            0 <= i < workspaces.len() && (#[trigger] workspaces[i]).output == Some(name)
                ==> workspaces[i].idx <= max_idx_on(workspaces, name),
    decreases workspaces.len(),
{
    if workspaces.len() > 0 {
        let init: Seq<WorkspaceView> = workspaces.drop_last();
        lemma_max_idx_bounds(init, name);
        if max_idx_on(workspaces, name) > 0 {
            if max_idx_on(workspaces, name) == max_idx_on(init, name) {
                let i: int = choose|i: int|
                    {
                        &&& 0 <= i < init.len()
                        &&& (#[trigger] init[i]).output == Some(name)
                        &&& init[i].idx == max_idx_on(init, name)
                    };
                assert(workspaces[i] == init[i]);
            } else {
                assert(workspaces[workspaces.len() - 1].output == Some(name));
            }
        }
        assert forall|i: int|
            0 <= i < workspaces.len() && (#[trigger] workspaces[i]).output == Some(
                name,
            ) implies workspaces[i].idx <= max_idx_on(workspaces, name) by {
            if i < workspaces.len() - 1 {
                assert(init[i] == workspaces[i]);
            }
        }
    }
}

/// The active workspace on an output is one of the workspaces; where none is found, none is
/// active.
pub proof fn lemma_active_on(workspaces: Seq<WorkspaceView>, name: Seq<char>)
    ensures
        match active_on(workspaces, name) {
            Some(w) => w.output == Some(name) && w.is_active && exists|i: int|
                0 <= i < workspaces.len() && #[trigger] workspaces[i] == w,
            None => forall|i: int|
                0 <= i < workspaces.len() ==> !((#[trigger] workspaces[i]).output == Some(name)
                    && workspaces[i].is_active),
        },
    decreases workspaces.len(),
{
    if workspaces.len() > 0 {
        let n: int = workspaces.len() - 1;
        let init: Seq<WorkspaceView> = workspaces.drop_last();
        lemma_active_on(init, name);
        if workspaces[n].output == Some(name) && workspaces[n].is_active {
            assert(active_on(workspaces, name) == Some(workspaces[n]));
        } else {
            match active_on(init, name) {
                Some(w) => {
                    let i: int = choose|i: int| 0 <= i < init.len() && #[trigger] init[i] == w;
                    assert(workspaces[i] == w);
                },
                None => {
                    assert forall|i: int| 0 <= i < workspaces.len() implies !((
                    #[trigger] workspaces[i]).output == Some(name) && workspaces[i].is_active) by {
                        if i < n {
                            assert(init[i] == workspaces[i]);
                        }
                    }
                },
            }
        }
    }
}

/// Another set of workspaces leaves the agent consistent, whatever it was before.
pub proof fn lemma_with_workspaces(m: AgentView, workspaces: Seq<WorkspaceView>)
    requires
        m.windows.dom().finite(),
        windows_by_id(m.windows),
    ensures
        with_workspaces(m, workspaces).inv(),
        output_names(with_workspaces(m, workspaces).outputs) == output_names(m.outputs),
{
    let post: AgentView = with_workspaces(m, workspaces);
    assert(output_names(post.outputs) =~= output_names(m.outputs));
    assert forall|k: int|
        0 <= k < post.outputs.len() && output_index(
            post.outputs,
            (#[trigger] post.outputs[k]).name,
        ) == Some(k) implies output_is_current(post.workspaces, post.outputs[k]) by {
        let name: Seq<char> = m.outputs[k].name;
        assert(post.outputs[k] == refreshed(m.outputs, k, workspaces));
        lemma_active_on(workspaces, name);
    }
}

/// Another active window on a workspace leaves the agent consistent.
pub proof fn lemma_with_active_window(m: AgentView, id: u64, active_window_id: Option<u64>)
    requires
        m.inv(),
    ensures
        (AgentView {
            workspaces: with_active_window(m.workspaces, id, active_window_id),
            ..m
        }).inv(),
{
    let post: AgentView = AgentView {
        workspaces: with_active_window(m.workspaces, id, active_window_id),
        ..m
    };
    lemma_first_index(workspace_ids(m.workspaces), id);
    assert(post.workspaces.len() == m.workspaces.len());
    assert forall|i: int| 0 <= i < m.workspaces.len() implies {
        &&& (#[trigger] post.workspaces[i]).id == m.workspaces[i].id
        &&& post.workspaces[i].idx == m.workspaces[i].idx
        &&& post.workspaces[i].output == m.workspaces[i].output
        &&& post.workspaces[i].is_active == m.workspaces[i].is_active
    } by {}
    assert forall|k: int|
        0 <= k < post.outputs.len() && output_index(
            post.outputs,
            (#[trigger] post.outputs[k]).name,
        ) == Some(k) implies output_is_current(post.workspaces, post.outputs[k]) by {
        let o: OutputView = m.outputs[k];
        assert(output_is_current(m.workspaces, o));
        lemma_max_idx_same(post.workspaces, m.workspaces, o.name);
        if let (Some(w), Some(idx)) = (o.active_workspace_id, o.active_workspace_idx) {
            let i: int = choose|i: int|
                {
                    &&& 0 <= i < m.workspaces.len()
                    &&& (#[trigger] m.workspaces[i]).output == Some(o.name)
                    &&& m.workspaces[i].is_active
                    &&& m.workspaces[i].id == w
                    &&& m.workspaces[i].idx == idx
                };
            assert(post.workspaces[i].output == Some(o.name));
        }
    }
}

/// The activation of a workspace leaves the agent consistent.
pub proof fn lemma_activated(m: AgentView, id: u64, focused: bool)
    requires
        m.inv(),
    ensures
        activated(m, id, focused).inv(),
        output_names(activated(m, id, focused).outputs) == output_names(m.outputs),
{
    let post: AgentView = activated(m, id, focused);
    let output: Option<Seq<char>> = output_of_workspace(m, id);
    lemma_first_index(workspace_ids(m.workspaces), id);
    if let Some(name) = output {
        lemma_first_index(output_names(m.outputs), name);
    }
    assert(output_names(post.outputs) =~= output_names(m.outputs));
    assert forall|i: int| 0 <= i < m.workspaces.len() implies (#[trigger] post.workspaces[i])
        == activated_workspace(m.workspaces[i], output, id, focused) by {}
    assert forall|k: int|
        0 <= k < post.outputs.len() && output_index(
            post.outputs,
            (#[trigger] post.outputs[k]).name,
        ) == Some(k) implies output_is_current(post.workspaces, post.outputs[k]) by {
        let o: OutputView = m.outputs[k];
        assert(output_names(m.outputs)[k] == o.name);
        assert(post.outputs[k].name == o.name);
        assert(output_is_current(m.workspaces, o));
        lemma_max_idx_same(post.workspaces, m.workspaces, o.name);
        if output == Some(o.name) {
            let i: int = workspace_index(m.workspaces, id)->0;
            assert(workspace_ids(m.workspaces)[i] == id);
            assert(post.outputs[k] == with_active(o, Some(m.workspaces[i])));
            assert(post.workspaces[i].output == Some(o.name));
        } else {
            assert(post.outputs[k] == o);
            if let (Some(w), Some(idx)) = (o.active_workspace_id, o.active_workspace_idx) {
                let i: int = choose|i: int|
                    {
                        &&& 0 <= i < m.workspaces.len()
                        &&& (#[trigger] m.workspaces[i]).output == Some(o.name)
                        &&& m.workspaces[i].is_active
                        &&& m.workspaces[i].id == w
                        &&& m.workspaces[i].idx == idx
                    };
                assert(post.workspaces[i].output == Some(o.name));
            }
        }
    }
}

/// A new configuration changes what is drawn on outputs and nothing else about them.
pub proof fn lemma_config_applied(outputs: Seq<OutputView>, entries: Seq<OutputConfigView>)
    ensures
        config_applied(outputs, entries).len() == outputs.len(),
        output_names(config_applied(outputs, entries)) == output_names(outputs),
        forall|k: int|
            0 <= k < outputs.len() ==> {
                &&& (#[trigger] config_applied(outputs, entries)[k]).name == outputs[k].name
                &&& config_applied(outputs, entries)[k].max_workspace_idx
                    == outputs[k].max_workspace_idx
                &&& config_applied(outputs, entries)[k].active_workspace_id
                    == outputs[k].active_workspace_id
                &&& config_applied(outputs, entries)[k].active_workspace_idx
                    == outputs[k].active_workspace_idx
            },
    decreases entries.len(),
{
    if entries.len() > 0 {
        let rest: Seq<OutputView> = config_applied(outputs, entries.drop_last());
        let c: OutputConfigView = entries.last();
        lemma_config_applied(outputs, entries.drop_last());
        lemma_first_index(output_names(rest), c.name);
        assert(config_applied(outputs, entries) == entry_applied(rest, c));
        assert forall|k: int| 0 <= k < outputs.len() implies {
            &&& (#[trigger] config_applied(outputs, entries)[k]).name == outputs[k].name
            &&& config_applied(outputs, entries)[k].max_workspace_idx
                == outputs[k].max_workspace_idx
            &&& config_applied(outputs, entries)[k].active_workspace_id
                == outputs[k].active_workspace_id
            &&& config_applied(outputs, entries)[k].active_workspace_idx
                == outputs[k].active_workspace_idx
        } by {
            assert(rest[k].name == outputs[k].name);
        }
    }
    assert(output_names(config_applied(outputs, entries)) =~= output_names(outputs));
}

/// A new configuration leaves the agent consistent.
pub proof fn reconfiguration_keeps_inv(m: AgentView, entries: Seq<OutputConfigView>)
    requires
        m.inv(),
    ensures
        reconfigured(m, entries).inv(),
{
    let post: AgentView = reconfigured(m, entries);
    lemma_config_applied(m.outputs, entries);
    assert forall|k: int|
        0 <= k < post.outputs.len() && output_index(
            post.outputs,
            (#[trigger] post.outputs[k]).name,
        ) == Some(k) implies output_is_current(post.workspaces, post.outputs[k]) by {
        assert(post.outputs[k].name == m.outputs[k].name);
        assert(output_is_current(m.workspaces, m.outputs[k]));
    }
}

/// The image and the mode of an output do not matter for where its image goes.
pub proof fn lemma_position_unaffected(
    m: AgentView,
    entries: Seq<OutputConfigView>,
    name: Seq<char>,
    mode: RenderMode,
    pos: (ScrollPercent, ScrollPercent),
)
    ensures
        is_current_position(
            AgentView { outputs: config_applied(m.outputs, entries), ..m },
            name,
            mode,
            pos,
        ) == is_current_position(m, name, mode, pos),
{
    let post: AgentView = AgentView { outputs: config_applied(m.outputs, entries), ..m };
    lemma_config_applied(m.outputs, entries);
    lemma_first_index(output_names(m.outputs), name);
    if let Some(k) = output_index(m.outputs, name) {
        let o: OutputView = m.outputs[k];
        let q: OutputView = post.outputs[k];
        assert(q.name == o.name);
        assert forall|id: u64, p: ScrollPercent| #[trigger]
            is_column_percent(post, id, p) == is_column_percent(m, id, p) by {
            assert forall|pick: Option<Window>|
                column_state(post, id, pick) == column_state(m, id, pick) by {
                assert(post.workspace(id) == m.workspace(id));
            }
        }
        assert forall|p: ScrollPercent| #[trigger]
            is_output_column(post, q, p) == is_output_column(m, o, p) by {}
        assert(output_row(q) == output_row(o));
        assert(post.output(name) == Some(q));
        if is_current_position(post, name, mode, pos) {
            let p: ScrollPercent = choose|p: ScrollPercent|
                {
                    &&& #[trigger] is_output_column(post, q, p)
                    &&& pos == image_position(mode, p, output_row(q))
                };
            assert(is_output_column(m, o, p));
        }
        if is_current_position(m, name, mode, pos) {
            let p: ScrollPercent = choose|p: ScrollPercent|
                {
                    &&& #[trigger] is_output_column(m, o, p)
                    &&& pos == image_position(mode, p, output_row(o))
                };
            assert(is_output_column(post, q, p));
        }
    }
}

/// The activation of a workspace leaves the ids of the workspaces as they are.
pub proof fn lemma_activated_ids(m: AgentView, id: u64, focused: bool)
    ensures
        workspace_ids(activated(m, id, focused).workspaces) == workspace_ids(m.workspaces),
{
    assert(workspace_ids(activated(m, id, focused).workspaces) =~= workspace_ids(m.workspaces));
}

/// Windows that are put in a map by their ids are there under their ids.
pub proof fn lemma_by_id(windows: Seq<Window>)
    ensures
        by_id(windows).dom().finite(),
        windows_by_id(by_id(windows)),
    decreases windows.len(),
{
    if windows.len() > 0 {
        lemma_by_id(windows.drop_last());
    }
}

/// New layouts change nothing but layouts.
pub proof fn lemma_with_layouts(windows: Map<u64, Window>, changes: Seq<(u64, WindowLayout)>)
    ensures
        with_layouts(windows, changes).dom() == windows.dom(),
        forall|k: u64| #[trigger]
            windows.contains_key(k) ==> with_layouts(windows, changes)[k] == (Window {
                layout: with_layouts(windows, changes)[k].layout,
                ..windows[k]
            }),
        windows_by_id(windows) ==> windows_by_id(with_layouts(windows, changes)),
    decreases changes.len(),
{
    if changes.len() > 0 {
        lemma_with_layouts(windows, changes.drop_last());
    }
    assert(with_layouts(windows, changes).dom() =~= windows.dom());
    assert forall|k: u64| windows_by_id(windows) && #[trigger] with_layouts(
        windows,
        changes,
    ).contains_key(k) implies with_layouts(windows, changes)[k].id == k by {
        assert(windows.contains_key(k));
    }
}

/// The agent's knowledge stays consistent whatever event comes in.
pub proof fn events_keep_inv(pre: AgentView, e: EventView, post: AgentView)
    requires
        pre.inv(),
        is_after(pre, e, post),
    ensures
        post.inv(),
{
    match e {
        EventView::WorkspacesChanged { workspaces } => {
            lemma_with_workspaces(pre, workspaces);
        },
        EventView::WorkspaceActivated { id, focused } => {
            lemma_activated(pre, id, focused);
        },
        EventView::WorkspaceActiveWindowChanged { workspace_id, active_window_id } => {
            lemma_with_active_window(pre, workspace_id, active_window_id);
        },
        EventView::WindowsChanged { windows } => {
            lemma_by_id(windows);
        },
        EventView::WindowOpenedOrChanged { window } => {
            lemma_focus_on(pre.windows.insert(window.id, window), Some(window.id));
            if window.is_focused {
                if let Some(id) = window.workspace_id {
                    lemma_with_active_window(pre, id, Some(window.id));
                }
            }
        },
        EventView::WindowClosed { id } => {
            if let Some(w) = workspace_of(pre.windows, id) {
                assert forall|pick: Option<u64>| post == window_closed(
                    pre,
                    id,
                    pick,
                ) implies post.inv() by {
                    lemma_with_active_window(pre, w, pick);
                }
            }
        },
        EventView::WindowFocusChanged { id } => {
            lemma_focus_on(pre.windows, id);
            if let Some(w) = workspace_of_opt(pre.windows, id) {
                lemma_with_active_window(pre, w, id);
            }
        },
        EventView::WindowLayoutsChanged { changes } => {
            lemma_with_layouts(pre.windows, changes);
        },
        EventView::Other => {},
    }
}

} // verus!
