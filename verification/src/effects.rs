//! What each event does to the agent's knowledge, field by field.

use vstd::prelude::*;

use crate::commands::Action;
use crate::compositor::{
    workspace_views, Event, Window, WindowLayout, Workspace, WorkspaceView,
};
use crate::config::DaemonConfig;
use crate::consistency::{lemma_active_on, lemma_max_idx_bounds, lemma_with_layouts};
use crate::model::{
    activated, active_on, is_active_window, max_idx_on, refreshed, window_closed,
    with_active_window, with_workspaces, workspace_index, AgentView, OutputView,
};
use crate::processor::NiriProcessor;
use crate::session::{QueuePoll, Turn};
use crate::terms::{
    first_named, first_with_id, lemma_first_named, lemma_first_with_id, none_with_id,
};
use crate::windows::{by_id, is_replacement, lemma_focus_on, with_layouts, workspace_of};

verus! {

/// The processor takes in the event, by itself or in a turn of a session, and asks for `actions`.
pub open spec fn takes_in(p: &mut NiriProcessor, e: Event, actions: Seq<Action>) -> bool {
    ||| exists|v: Vec<Action>| #[trigger]
        call_ensures(NiriProcessor::process, (p, e), v) && v@ == actions
    ||| exists|t: Turn| #[trigger]
        call_ensures(NiriProcessor::after_read, (p, Ok(e)), t) && t.actions@ == actions
}

// Workspaces.

/// Activating a workspace changes of each workspace nothing but whether it is active and whether it
/// has the focus. On the output of the activated workspace, that one alone is active; elsewhere
/// nothing changes. The focus goes to the activated workspace alone, or stays where it is. Of the
/// outputs, only the one that the workspace is on learns of its active workspace.
pub proof fn activation_changes(
    p: &mut NiriProcessor,
    id: u64,
    focused: bool,
    actions: Seq<Action>,
    i: int,
)
    requires
        takes_in(p, Event::WorkspaceActivated { id, focused }, actions) || call_ensures(
            NiriProcessor::handle_workspace_activated,
            (p, id, focused),
            (),
        ),
        first_with_id(old(p)@.workspaces, id, i),
    ensures
        final(p)@.config == old(p)@.config,
        final(p)@.windows == old(p)@.windows,
        final(p)@.workspaces.len() == old(p)@.workspaces.len(),
        forall|j: int|
            0 <= j < old(p)@.workspaces.len() ==> {
                let w = old(p)@.workspaces[j];
                let v = #[trigger] final(p)@.workspaces[j];
                &&& v.id == w.id
                &&& v.idx == w.idx
                &&& v.output == w.output
                &&& v.active_window_id == w.active_window_id
                &&& w.output == old(p)@.workspaces[i].output ==> v.is_active == (w.id == id)
                &&& w.output != old(p)@.workspaces[i].output ==> v.is_active == w.is_active
                &&& focused ==> v.is_focused == (w.id == id)
                &&& !focused ==> v.is_focused == w.is_focused
            },
        final(p)@.outputs.len() == old(p)@.outputs.len(),
        forall|k: int|
            0 <= k < old(p)@.outputs.len() ==> {
                let o = old(p)@.outputs[k];
                let q = #[trigger] final(p)@.outputs[k];
                &&& q.name == o.name
                &&& q.image == o.image
                &&& q.mode == o.mode
                &&& q.max_workspace_idx == o.max_workspace_idx
                &&& old(p)@.workspaces[i].output == Some(o.name) && first_named(
                    old(p)@.outputs,
                    o.name,
                    k,
                ) ==> {
                    &&& q.active_workspace_id == Some(id)
                    &&& q.active_workspace_idx == Some(old(p)@.workspaces[i].idx)
                }
                &&& !(old(p)@.workspaces[i].output == Some(o.name) && first_named(
                    old(p)@.outputs,
                    o.name,
                    k,
                )) ==> q == o
            },
{
    let pre: AgentView = old(p)@;
    lemma_first_with_id(pre, id);
    assert(final(p)@ == activated(pre, id, focused));
    if let Some(name) = pre.workspaces[i].output {
        lemma_first_named(pre.outputs, name);
    }
}

/// Activating a workspace that is not known makes the workspaces without an output inactive, takes
/// the focus from all workspaces if it got the focus, and does nothing else.
pub proof fn activation_of_unknown_changes(p: &mut NiriProcessor, id: u64, focused: bool)
    requires
        call_ensures(NiriProcessor::handle_workspace_activated, (p, id, focused), ()),
        none_with_id(old(p)@.workspaces, id),
    ensures
        final(p)@.config == old(p)@.config,
        final(p)@.windows == old(p)@.windows,
        final(p)@.outputs == old(p)@.outputs,
        final(p)@.workspaces.len() == old(p)@.workspaces.len(),
        forall|j: int|
            0 <= j < old(p)@.workspaces.len() ==> {
                let w = old(p)@.workspaces[j];
                let v = #[trigger] final(p)@.workspaces[j];
                &&& v.id == w.id
                &&& v.idx == w.idx
                &&& v.output == w.output
                &&& v.active_window_id == w.active_window_id
                &&& v.is_active == (w.is_active && w.output is Some)
                &&& v.is_focused == (w.is_focused && !focused)
            },
{
    let pre: AgentView = old(p)@;
    lemma_first_with_id(pre, id);
    assert(final(p)@ == activated(pre, id, focused));
}

/// The active workspace on an output is the last one that is active there.
proof fn lemma_last_active(workspaces: Seq<WorkspaceView>, name: Seq<char>)
    ensures
        active_on(workspaces, name) matches Some(w) ==> exists|i: int|
            {
                &&& 0 <= i < workspaces.len()
                &&& #[trigger] workspaces[i] == w
                &&& w.output == Some(name)
                &&& w.is_active
                &&& forall|j: int|
                    i < j < workspaces.len() ==> !((#[trigger] workspaces[j]).output == Some(name)
                        && workspaces[j].is_active)
            },
    decreases workspaces.len(),
{
    if workspaces.len() > 0 && active_on(workspaces, name) is Some {
        let w: WorkspaceView = active_on(workspaces, name)->0;
        let n: int = workspaces.len() - 1;
        let init: Seq<WorkspaceView> = workspaces.drop_last();
        if workspaces[n].output == Some(name) && workspaces[n].is_active {
            assert(workspaces[n] == w);
        } else {
            lemma_last_active(init, name);
            let i: int = choose|i: int|
                {
                    &&& 0 <= i < init.len()
                    &&& #[trigger] init[i] == w
                    &&& w.output == Some(name)
                    &&& w.is_active
                    &&& forall|j: int|
                        i < j < init.len() ==> !((#[trigger] init[j]).output == Some(name)
                            && init[j].is_active)
                };
            assert(workspaces[i] == w);
            assert forall|j: int| i < j < workspaces.len() implies !((
            #[trigger] workspaces[j]).output == Some(name) && workspaces[j].is_active) by {
                if j < n {
                    assert(init[j] == workspaces[j]);
                }
            }
        }
    }
}

/// The output's last place is the largest index of a workspace on it, 0 without one, and its active
/// workspace is the last one that is active there. `listed` are the workspaces.
pub open spec fn learns(listed: Seq<Workspace>, q: OutputView) -> bool {
    let on = |j: int| listed[j].output is Some && listed[j].output->0@ == q.name;
    &&& forall|j: int|
        0 <= j < listed.len() && on(j) ==> (#[trigger] listed[j]).idx <= q.max_workspace_idx
    &&& q.max_workspace_idx == 0 || exists|j: int|
        0 <= j < listed.len() && on(j) && (#[trigger] listed[j]).idx == q.max_workspace_idx
    &&& (q.active_workspace_id is Some) == (q.active_workspace_idx is Some)
    &&& q.active_workspace_id is None ==> forall|j: int|
        0 <= j < listed.len() ==> !((#[trigger] listed[j]).is_active && on(j))
    &&& q.active_workspace_id is Some ==> exists|j: int|
        {
            &&& 0 <= j < listed.len()
            &&& on(j)
            &&& (#[trigger] listed[j]).is_active
            &&& listed[j].id == q.active_workspace_id->0
            &&& listed[j].idx == q.active_workspace_idx->0
            &&& forall|l: int|
                j < l < listed.len() ==> !((#[trigger] listed[l]).is_active && on(l))
        }
}

/// The kept workspace is the listed one.
pub open spec fn keeps(listed: Workspace, w: WorkspaceView) -> bool {
    &&& w.id == listed.id
    &&& w.idx == listed.idx
    &&& w.output is Some == listed.output is Some
    &&& w.output matches Some(name) ==> name == listed.output->0@
    &&& w.is_active == listed.is_active
    &&& w.is_focused == listed.is_focused
    &&& w.active_window_id == listed.active_window_id
}

/// An output learns what the listed workspaces tell of it.
pub proof fn lemma_learns(m: AgentView, listed: Seq<Workspace>, k: int)
    requires
        0 <= k < m.outputs.len(),
    ensures
        first_named(m.outputs, m.outputs[k].name, k) ==> learns(
            listed,
            refreshed(m.outputs, k, workspace_views(listed)),
        ),
        !first_named(m.outputs, m.outputs[k].name, k) ==> {
            let q = refreshed(m.outputs, k, workspace_views(listed));
            &&& q.max_workspace_idx == 0
            &&& q.active_workspace_id is None
            &&& q.active_workspace_idx is None
        },
{
    let name: Seq<char> = m.outputs[k].name;
    let all: Seq<WorkspaceView> = workspace_views(listed);
    let q: OutputView = refreshed(m.outputs, k, all);
    lemma_first_named(m.outputs, name);
    lemma_max_idx_bounds(all, name);
    lemma_active_on(all, name);
    lemma_last_active(all, name);
    if first_named(m.outputs, name, k) {
        assert forall|j: int|
            0 <= j < listed.len() && listed[j].output is Some && listed[j].output->0@
                == name implies (#[trigger] listed[j]).idx <= q.max_workspace_idx by {
            assert(all[j].output == Some(name));
        }
        if q.max_workspace_idx > 0 {
            let j: int = choose|j: int|
                {
                    &&& 0 <= j < all.len()
                    &&& (#[trigger] all[j]).output == Some(name)
                    &&& all[j].idx == max_idx_on(all, name)
                };
            assert(listed[j].output is Some && listed[j].output->0@ == name);
        }
        match active_on(all, name) {
            Some(w) => {
                let i: int = choose|i: int|
                    {
                        &&& 0 <= i < all.len()
                        &&& #[trigger] all[i] == w
                        &&& w.output == Some(name)
                        &&& w.is_active
                        &&& forall|j: int|
                            i < j < all.len() ==> !((#[trigger] all[j]).output == Some(name)
                                && all[j].is_active)
                    };
                assert(listed[i].output is Some && listed[i].output->0@ == name);
                assert forall|l: int| i < l < listed.len() implies !((
                #[trigger] listed[l]).is_active && listed[l].output is Some && listed[l].output->0@
                    == name) by {
                    assert(!(all[l].output == Some(name) && all[l].is_active));
                }
            },
            None => {
                assert forall|j: int| 0 <= j < listed.len() implies !((
                #[trigger] listed[j]).is_active && listed[j].output is Some && listed[j].output->0@
                    == name) by {
                    assert(!(all[j].output == Some(name) && all[j].is_active));
                }
            },
        }
    }
}

/// A change of the workspaces puts the listed ones in place of all others, as they are listed. Each
/// output learns its last and its active workspace from the list; of two outputs with one name the
/// first does, and the other has no workspaces. Nothing else changes.
pub proof fn workspaces_are_replaced(
    p: &mut NiriProcessor,
    listed: Vec<Workspace>,
    actions: Seq<Action>,
)
    requires
        takes_in(p, Event::WorkspacesChanged { workspaces: listed }, actions) || call_ensures(
            NiriProcessor::update_workspaces,
            (p, &listed),
            (),
        ),
    ensures
        final(p)@.config == old(p)@.config,
        final(p)@.windows == old(p)@.windows,
        final(p)@.workspaces.len() == listed@.len(),
        forall|j: int|
            0 <= j < listed@.len() ==> keeps(listed@[j], #[trigger] final(p)@.workspaces[j]),
        final(p)@.outputs.len() == old(p)@.outputs.len(),
        forall|k: int|
            0 <= k < old(p)@.outputs.len() ==> {
                let o = old(p)@.outputs[k];
                let q = #[trigger] final(p)@.outputs[k];
                &&& q.name == o.name
                &&& q.image == o.image
                &&& q.mode == o.mode
                &&& first_named(old(p)@.outputs, o.name, k) ==> learns(listed@, q)
                &&& !first_named(old(p)@.outputs, o.name, k) ==> {
                    &&& q.max_workspace_idx == 0
                    &&& q.active_workspace_id is None
                    &&& q.active_workspace_idx is None
                }
            },
{
    let pre: AgentView = old(p)@;
    assert(final(p)@ == with_workspaces(pre, workspace_views(listed@)));
    assert forall|k: int| 0 <= k < pre.outputs.len() implies {
        let o = pre.outputs[k];
        let q = #[trigger] final(p)@.outputs[k];
        &&& first_named(pre.outputs, o.name, k) ==> learns(listed@, q)
        &&& !first_named(pre.outputs, o.name, k) ==> {
            &&& q.max_workspace_idx == 0
            &&& q.active_workspace_id is None
            &&& q.active_workspace_idx is None
        }
    } by {
        lemma_learns(pre, listed@, k);
    }
}

/// `post` has another active window on the first workspace with this id, and is `pre` else.
pub open spec fn active_window_set(
    pre: Seq<WorkspaceView>,
    id: u64,
    active: Option<u64>,
    post: Seq<WorkspaceView>,
) -> bool {
    &&& post.len() == pre.len()
    &&& forall|j: int|
        0 <= j < pre.len() ==> {
            let w = pre[j];
            let v = #[trigger] post[j];
            &&& v.id == w.id
            &&& v.idx == w.idx
            &&& v.output == w.output
            &&& v.is_active == w.is_active
            &&& v.is_focused == w.is_focused
            &&& v.active_window_id == (if first_with_id(pre, id, j) {
                active
            } else {
                w.active_window_id
            })
        }
}

/// The model sets the active window of the first workspace with the id.
proof fn lemma_active_window_set(m: AgentView, id: u64, active: Option<u64>)
    ensures
        active_window_set(
            m.workspaces,
            id,
            active,
            with_active_window(m.workspaces, id, active),
        ),
{
    lemma_first_with_id(m, id);
}

/// A change of the active window of a workspace changes that, on the first workspace with the id,
/// and nothing else.
pub proof fn active_window_changes(
    p: &mut NiriProcessor,
    workspace_id: u64,
    active_window_id: Option<u64>,
    actions: Seq<Action>,
)
    requires
        takes_in(
            p,
            Event::WorkspaceActiveWindowChanged { workspace_id, active_window_id },
            actions,
        ) || call_ensures(
            NiriProcessor::handle_workspace_active_window_changed,
            (p, workspace_id, active_window_id),
            (),
        ),
    ensures
        final(p)@.config == old(p)@.config,
        final(p)@.outputs == old(p)@.outputs,
        final(p)@.windows == old(p)@.windows,
        active_window_set(
            old(p)@.workspaces,
            workspace_id,
            active_window_id,
            final(p)@.workspaces,
        ),
{
    lemma_active_window_set(old(p)@, workspace_id, active_window_id);
}

// Windows.

/// A change of the windows puts the listed ones in place of all others: of those listed with one
/// id, the last is kept under it. Nothing else changes.
pub proof fn windows_are_replaced(p: &mut NiriProcessor, listed: Vec<Window>, actions: Seq<Action>)
    requires
        takes_in(p, Event::WindowsChanged { windows: listed }, actions) || call_ensures(
            NiriProcessor::update_windows,
            (p, listed),
            (),
        ),
    ensures
        final(p)@.config == old(p)@.config,
        final(p)@.outputs == old(p)@.outputs,
        final(p)@.workspaces == old(p)@.workspaces,
        kept_by_id(listed@, final(p)@.windows),
{
    lemma_kept_by_id(listed@);
}

/// The last window listed with an id is kept under it, and nothing else is kept.
pub open spec fn kept_by_id(listed: Seq<Window>, windows: Map<u64, Window>) -> bool {
    &&& forall|k: u64| #[trigger]
        windows.contains_key(k) ==> exists|i: int|
            {
                &&& 0 <= i < listed.len()
                &&& #[trigger] listed[i] == windows[k]
                &&& listed[i].id == k
                &&& forall|j: int| i < j < listed.len() ==> (#[trigger] listed[j]).id != k
            }
    &&& forall|i: int|
        0 <= i < listed.len() ==> windows.contains_key((#[trigger] listed[i]).id)
}

/// The model keeps windows by their ids.
pub proof fn lemma_kept_by_id(listed: Seq<Window>)
    ensures
        kept_by_id(listed, by_id(listed)),
    decreases listed.len(),
{
    if listed.len() > 0 {
        let n: int = listed.len() - 1;
        let init: Seq<Window> = listed.drop_last();
        let windows: Map<u64, Window> = by_id(listed);
        lemma_kept_by_id(init);
        assert forall|k: u64| #[trigger] windows.contains_key(k) implies exists|i: int|
            {
                &&& 0 <= i < listed.len()
                &&& #[trigger] listed[i] == windows[k]
                &&& listed[i].id == k
                &&& forall|j: int| i < j < listed.len() ==> (#[trigger] listed[j]).id != k
            } by {
            if k == listed[n].id {
                assert(listed[n] == windows[k]);
            } else {
                assert(by_id(init).contains_key(k));
                let i: int = choose|i: int|
                    {
                        &&& 0 <= i < init.len()
                        &&& #[trigger] init[i] == by_id(init)[k]
                        &&& init[i].id == k
                        &&& forall|j: int| i < j < init.len() ==> (#[trigger] init[j]).id != k
                    };
                assert(listed[i] == windows[k]);
                assert forall|j: int| i < j < listed.len() implies (#[trigger] listed[j]).id
                    != k by {
                    if j < n {
                        assert(init[j] == listed[j]);
                    }
                }
            }
        }
        assert forall|i: int| 0 <= i < listed.len() implies windows.contains_key(
            (#[trigger] listed[i]).id,
        ) by {
            if i < n {
                assert(init[i] == listed[i]);
            }
        }
    }
}

/// A window that opens, or changes, is known as it is told. All other windows stay, but for the
/// focus, which they lose if the window has it. Then the window is also the active one of the
/// workspace that it is on. Nothing else changes.
pub proof fn window_opens(
    p: &mut NiriProcessor,
    window: Window,
    actions: Seq<Action>,
    res: Vec<u64>,
)
    requires
        takes_in(p, Event::WindowOpenedOrChanged { window }, actions) || call_ensures(
            NiriProcessor::handle_window_opened_or_changed,
            (p, window),
            res,
        ),
    ensures
        final(p)@.config == old(p)@.config,
        final(p)@.outputs == old(p)@.outputs,
        final(p)@.windows.contains_key(window.id),
        final(p)@.windows[window.id] == window,
        forall|k: u64|
            k != window.id ==> {
                &&& #[trigger] final(p)@.windows.contains_key(k) == old(p)@.windows.contains_key(k)
                &&& final(p)@.windows.contains_key(k) ==> same_but_focus(
                    old(p)@.windows[k],
                    final(p)@.windows[k],
                )
                &&& final(p)@.windows.contains_key(k) ==> final(p)@.windows[k].is_focused == (
                old(p)@.windows[k].is_focused && !window.is_focused)
            },
        window.is_focused && window.workspace_id is Some ==> active_window_set(
            old(p)@.workspaces,
            window.workspace_id->0,
            Some(window.id),
            final(p)@.workspaces,
        ),
        !(window.is_focused && window.workspace_id is Some) ==> final(p)@.workspaces
            == old(p)@.workspaces,
{
    let pre: AgentView = old(p)@;
    if let Some(id) = window.workspace_id {
        lemma_active_window_set(pre, id, Some(window.id));
    }
    lemma_focus_on(pre.windows.insert(window.id, window), Some(window.id));
    assert forall|k: u64| k != window.id implies #[trigger] final(p)@.windows.contains_key(k)
        == pre.windows.contains_key(k) by {
        assert(pre.windows.insert(window.id, window).contains_key(k)
            == pre.windows.contains_key(k));
    }
}

/// The windows differ at most in whether they have the focus.
pub open spec fn same_but_focus(w: Window, v: Window) -> bool {
    &&& v.id == w.id
    &&& v.workspace_id == w.workspace_id
    &&& v.is_floating == w.is_floating
    &&& v.layout == w.layout
}

/// A closed window is not known any more, and all others stay as they were. If it was the active
/// window of the first workspace with the id that it was on, another window that is tiled on that
/// workspace and has a place is active there, or none if there is no such window. Nothing else
/// changes.
pub proof fn window_closes(p: &mut NiriProcessor, id: u64, actions: Seq<Action>, res: Option<u64>)
    requires
        takes_in(p, Event::WindowClosed { id }, actions) || call_ensures(
            NiriProcessor::handle_window_closed,
            (p, id),
            res,
        ),
    ensures
        final(p)@.config == old(p)@.config,
        final(p)@.outputs == old(p)@.outputs,
        !final(p)@.windows.contains_key(id),
        forall|k: u64|
            k != id ==> {
                &&& #[trigger] final(p)@.windows.contains_key(k) == old(p)@.windows.contains_key(k)
                &&& final(p)@.windows.contains_key(k) ==> final(p)@.windows[k]
                    == old(p)@.windows[k]
            },
        ({
            let w = old(p)@.windows[id].workspace_id->0;
            let was_active = old(p)@.windows.contains_key(id)
                && old(p)@.windows[id].workspace_id is Some && exists|i: int| #[trigger]
                first_with_id(old(p)@.workspaces, w, i)
                    && old(p)@.workspaces[i].active_window_id == Some(id);
            &&& !was_active ==> final(p)@.workspaces == old(p)@.workspaces
            &&& was_active ==> exists|pick: Option<u64>| #[trigger]
                takes_over(final(p)@.windows, w, pick) && active_window_set(
                    old(p)@.workspaces,
                    w,
                    pick,
                    final(p)@.workspaces,
                )
        }),
{
    let pre: AgentView = old(p)@;
    let post: AgentView = final(p)@;
    if pre.windows.contains_key(id) {
        if let Some(w) = pre.windows[id].workspace_id {
            lemma_first_with_id(pre, w);
            if is_active_window(pre, id) {
                let pick: Option<u64> = choose|pick: Option<u64>| #[trigger]
                    is_replacement(pre.windows.remove(id), workspace_of(pre.windows, id)->0, pick)
                        && post == window_closed(pre, id, pick);
                lemma_active_window_set(pre, w, pick);
                assert(takes_over(post.windows, w, pick));
                let i: int = workspace_index(pre.workspaces, w)->0;
                assert(first_with_id(pre.workspaces, w, i));
            }
        }
    }
}

/// `pick` is a window that is tiled on the workspace and has a place there, or there is none.
pub open spec fn takes_over(windows: Map<u64, Window>, id: u64, pick: Option<u64>) -> bool {
    match pick {
        Some(k) => {
            &&& windows.contains_key(k)
            &&& windows[k].workspace_id == Some(id)
            &&& !windows[k].is_floating
            &&& windows[k].layout.pos_in_scrolling_layout is Some
        },
        None => forall|k: u64| #[trigger]
            windows.contains_key(k) ==> !(windows[k].workspace_id == Some(id)
                && !windows[k].is_floating
                && windows[k].layout.pos_in_scrolling_layout is Some),
    }
}

/// A change of focus gives it to the named window alone, or takes it from all. Else the windows
/// stay as they were. The named window, if known, is the active one of the workspace that it is on.
/// Nothing else changes.
pub proof fn focus_changes(
    p: &mut NiriProcessor,
    id: Option<u64>,
    actions: Seq<Action>,
    res: Option<u64>,
)
    requires
        takes_in(p, Event::WindowFocusChanged { id }, actions) || call_ensures(
            NiriProcessor::handle_window_focus_changed,
            (p, id),
            res,
        ),
    ensures
        final(p)@.config == old(p)@.config,
        final(p)@.outputs == old(p)@.outputs,
        forall|k: u64|
            {
                &&& #[trigger] final(p)@.windows.contains_key(k) == old(p)@.windows.contains_key(k)
                &&& final(p)@.windows.contains_key(k) ==> {
                    &&& same_but_focus(old(p)@.windows[k], final(p)@.windows[k])
                    &&& final(p)@.windows[k].is_focused <==> id == Some(k)
                }
            },
        ({
            let on = old(p)@.windows[id->0].workspace_id;
            let known = id is Some && old(p)@.windows.contains_key(id->0) && on is Some;
            &&& known ==> active_window_set(
                old(p)@.workspaces,
                on->0,
                id,
                final(p)@.workspaces,
            )
            &&& !known ==> final(p)@.workspaces == old(p)@.workspaces
        }),
{
    let pre: AgentView = old(p)@;
    lemma_focus_on(pre.windows, id);
    if let Some(k) = id {
        if let Some(w) = pre.windows[k].workspace_id {
            lemma_active_window_set(pre, w, id);
        }
    }
    assert forall|k: u64| #[trigger] final(p)@.windows.contains_key(k)
        == pre.windows.contains_key(k) by {
        assert(final(p)@.windows.dom() == pre.windows.dom());
    }
}

/// A window that no change names keeps its layout.
proof fn lemma_layout_kept(windows: Map<u64, Window>, changes: Seq<(u64, WindowLayout)>, k: u64)
    requires
        windows.contains_key(k),
        forall|i: int| 0 <= i < changes.len() ==> (#[trigger] changes[i]).0 != k,
    ensures
        with_layouts(windows, changes)[k] == windows[k],
    decreases changes.len(),
{
    if changes.len() > 0 {
        let init: Seq<(u64, WindowLayout)> = changes.drop_last();
        assert forall|i: int| 0 <= i < init.len() implies (#[trigger] init[i]).0 != k by {
            assert(changes[i].0 != k);
        }
        lemma_layout_kept(windows, init, k);
        assert(changes[changes.len() - 1].0 != k);
    }
}

/// A known window has the layout of the last change that names it.
proof fn lemma_layout_taken(windows: Map<u64, Window>, changes: Seq<(u64, WindowLayout)>, i: int)
    requires
        0 <= i < changes.len(),
        windows.contains_key(changes[i].0),
        forall|j: int| i < j < changes.len() ==> (#[trigger] changes[j]).0 != changes[i].0,
    ensures
        with_layouts(windows, changes)[changes[i].0].layout == changes[i].1,
    decreases changes.len(),
{
    let n: int = changes.len() - 1;
    let init: Seq<(u64, WindowLayout)> = changes.drop_last();
    lemma_with_layouts(windows, init);
    if i < n {
        assert(changes[n].0 != changes[i].0);
        assert forall|j: int| i < j < init.len() implies (#[trigger] init[j]).0 != init[i].0 by {
            assert(changes[j].0 != changes[i].0);
        }
        lemma_layout_taken(windows, init, i);
    }
}

/// After a change of layouts, every known window that is named has the layout of the last change
/// that names it, and every known window that is not named keeps its layout. The windows stay as
/// they were else, and nothing else changes.
pub proof fn layouts_change(
    p: &mut NiriProcessor,
    changes: Vec<(u64, WindowLayout)>,
    actions: Seq<Action>,
    res: Vec<u64>,
)
    requires
        takes_in(p, Event::WindowLayoutsChanged { changes }, actions) || call_ensures(
            NiriProcessor::handle_window_layouts_changed,
            (p, changes),
            res,
        ),
    ensures
        final(p)@.config == old(p)@.config,
        final(p)@.outputs == old(p)@.outputs,
        final(p)@.workspaces == old(p)@.workspaces,
        forall|k: u64|
            {
                &&& #[trigger] final(p)@.windows.contains_key(k) == old(p)@.windows.contains_key(k)
                &&& old(p)@.windows.contains_key(k) ==> {
                    let w = old(p)@.windows[k];
                    let v = final(p)@.windows[k];
                    &&& v.id == w.id
                    &&& v.workspace_id == w.workspace_id
                    &&& v.is_focused == w.is_focused
                    &&& v.is_floating == w.is_floating
                    &&& (forall|i: int|
                        0 <= i < changes@.len() ==> (#[trigger] changes@[i]).0 != k) ==> v.layout
                        == w.layout
                }
            },
        forall|i: int|
            0 <= i < changes@.len() && old(p)@.windows.contains_key((#[trigger] changes@[i]).0) && (
            forall|j: int| i < j < changes@.len() ==> (#[trigger] changes@[j]).0 != changes@[i].0)
                ==> final(p)@.windows[changes@[i].0].layout == changes@[i].1,
{
    let pre: AgentView = old(p)@;
    let post: AgentView = final(p)@;
    assert(post.windows == with_layouts(pre.windows, changes@));
    lemma_with_layouts(pre.windows, changes@);
    assert forall|k: u64|
        {
            &&& #[trigger] post.windows.contains_key(k) == pre.windows.contains_key(k)
            &&& pre.windows.contains_key(k) ==> {
                let w = pre.windows[k];
                let v = post.windows[k];
                &&& v.id == w.id
                &&& v.workspace_id == w.workspace_id
                &&& v.is_focused == w.is_focused
                &&& v.is_floating == w.is_floating
                &&& (forall|i: int| 0 <= i < changes@.len() ==> (#[trigger] changes@[i]).0 != k)
                    ==> v.layout == w.layout
            }
        } by {
        if pre.windows.contains_key(k) && forall|i: int|
            0 <= i < changes@.len() ==> (#[trigger] changes@[i]).0 != k {
            lemma_layout_kept(pre.windows, changes@, k);
        }
    }
    assert forall|i: int|
        0 <= i < changes@.len() && pre.windows.contains_key((#[trigger] changes@[i]).0) && (forall|
            j: int,
        |
            i < j < changes@.len() ==> (#[trigger] changes@[j]).0
                != changes@[i].0) implies post.windows[changes@[i].0].layout == changes@[i].1 by {
        lemma_layout_taken(pre.windows, changes@, i);
    }
}

/// Any other event changes nothing and leads to nothing.
pub proof fn other_events_change_nothing(p: &mut NiriProcessor, actions: Seq<Action>)
    requires
        takes_in(p, Event::Other, actions),
    ensures
        final(p)@ == old(p)@,
        actions.len() == 0,
{
}

// What is accepted.

/// Every event can be taken in at any time, but for the activation of a workspace that is not
/// known. Afterwards the next one can be.
pub proof fn events_are_accepted(p: &mut NiriProcessor, e: Event, actions: Seq<Action>)
    requires
        old(p).wf(),
        e matches Event::WorkspaceActivated { id, focused } ==> exists|i: int|
            first_with_id(old(p)@.workspaces, id, i),
    ensures
        call_requires(NiriProcessor::process, (p, e)),
        call_requires(NiriProcessor::after_read, (p, Ok(e))),
        takes_in(p, e, actions) ==> final(p).wf(),
{
    if let Event::WorkspaceActivated { id, focused } = e {
        lemma_first_with_id(old(p)@, id);
    }
}

/// A look at a workspace needs a known workspace and nothing else.
pub proof fn looks_are_accepted(p: NiriProcessor, id: u64, i: int)
    requires
        first_with_id(p@.workspaces, id, i),
    ensures
        call_requires(NiriProcessor::gen_scroll_cmd_for_workspace_id, (&p, id)),
{
    lemma_first_with_id(p@, id);
}

/// A failed read, any outcome of a poll and any configuration can be dealt with at any time.
pub proof fn turns_are_accepted(
    p: &mut NiriProcessor,
    reason: String,
    poll: QueuePoll,
    config: DaemonConfig,
)
    requires
        old(p).wf(),
    ensures
        call_requires(NiriProcessor::after_read, (p, Err(reason))),
        call_requires(NiriProcessor::after_poll, (p, poll)),
        call_requires(NiriProcessor::update_config, (p, config)),
{
}

} // verus!
