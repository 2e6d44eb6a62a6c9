//! Which workspaces an event makes the agent look at, and what the looks lead to.

use vstd::prelude::*;

use crate::commands::{action_views, Action, CommandType, RenderThreadCommand};
use crate::compositor::{Event, Window, WindowLayout, Workspace, WorkspaceView};
use crate::effects::takes_in;
use crate::laws::{layout_changes_concern, workspaces_are_refreshed_once};
use crate::model::{
    active_ids, are_responses, layouts_changed_on, listed, only_active, opened_on, AgentView,
};
use crate::placement::{lemma_answers, lemma_answers_all};
use crate::processor::NiriProcessor;
use crate::terms::{answers, answers_all, first_with_id, lemma_first_with_id};
use crate::windows::workspace_of;

verus! {

/// The first workspace with this id is active.
pub open spec fn shows(m: AgentView, id: u64) -> bool {
    exists|i: int| #[trigger] first_with_id(m.workspaces, id, i) && m.workspaces[i].is_active
}

/// Those of the ids whose workspace is active, in order.
pub open spec fn shown(m: AgentView, ids: Seq<u64>) -> Seq<u64> {
    ids.filter(|id: u64| shows(m, id))
}

/// The model picks out the ids whose workspace is active.
proof fn lemma_shown(m: AgentView, ids: Seq<u64>)
    ensures
        only_active(m, ids) == shown(m, ids),
{
    let f = |id: u64| m.is_active(id);
    let g = |id: u64| shows(m, id);
    assert forall|id: u64| #[trigger] f(id) == g(id) by {
        lemma_first_with_id(m, id);
    }
    assert(f =~= g);
}

/// One look leads to one answer or to none.
proof fn lemma_one_look(m: AgentView, id: u64, i: int, actions: Seq<Action>)
    requires
        m.windows.dom().finite(),
        first_with_id(m.workspaces, id, i),
        are_responses(m, seq![id], action_views(actions)),
    ensures
        actions.len() <= 1,
        answers(
            m,
            i,
            if actions.len() == 0 {
                None
            } else {
                Some(actions[0])
            },
        ),
{
    reveal_with_fuel(are_responses, 2);
    assert(seq![id].drop_last() =~= Seq::empty());
    lemma_answers(
        m,
        id,
        i,
        if actions.len() == 0 {
            None
        } else {
            Some(actions[0])
        },
    );
}

/// When the workspaces change, the render threads are poked, and then every active workspace is
/// looked at, in the order of the list.
pub proof fn changed_workspaces_are_looked_at(
    p: &mut NiriProcessor,
    workspaces: Vec<Workspace>,
    actions: Seq<Action>,
)
    requires
        takes_in(p, Event::WorkspacesChanged { workspaces }, actions),
    ensures
        actions.len() > 0,
        actions[0] == Action::Handle(CommandType::Tc(RenderThreadCommand::Poke)),
        answers_all(
            final(p)@,
            final(p)@.workspaces.filter(|w: WorkspaceView| w.is_active).map_values(
                |w: WorkspaceView| w.id,
            ),
            actions.skip(1),
        ),
{
    assert(action_views(actions).drop_first() =~= action_views(actions.skip(1)));
    assert(action_views(actions)[0] == actions[0]@);
    lemma_answers_all(final(p)@, active_ids(final(p)@.workspaces), actions.skip(1));
}

/// When a workspace is activated, that workspace is looked at, and nothing else happens.
pub proof fn activated_workspace_is_looked_at(
    p: &mut NiriProcessor,
    id: u64,
    focused: bool,
    actions: Seq<Action>,
    i: int,
)
    requires
        takes_in(p, Event::WorkspaceActivated { id, focused }, actions),
        first_with_id(final(p)@.workspaces, id, i),
    ensures
        actions.len() <= 1,
        answers(
            final(p)@,
            i,
            if actions.len() == 0 {
                None
            } else {
                Some(actions[0])
            },
        ),
{
    lemma_one_look(final(p)@, id, i, actions);
}

/// When a workspace gets another active window, it is looked at if it is active, and nothing else
/// happens.
pub proof fn workspace_with_changed_window_is_looked_at(
    p: &mut NiriProcessor,
    workspace_id: u64,
    active_window_id: Option<u64>,
    actions: Seq<Action>,
)
    requires
        takes_in(
            p,
            Event::WorkspaceActiveWindowChanged { workspace_id, active_window_id },
            actions,
        ),
    ensures
        answers_all(final(p)@, shown(final(p)@, seq![workspace_id]), actions),
{
    lemma_shown(final(p)@, seq![workspace_id]);
    lemma_answers_all(final(p)@, shown(final(p)@, seq![workspace_id]), actions);
}

/// When the windows change, every active workspace is looked at, in the order in which they were
/// listed, and nothing else happens.
pub proof fn changed_windows_are_looked_at(
    p: &mut NiriProcessor,
    windows: Vec<Window>,
    actions: Seq<Action>,
)
    requires
        takes_in(p, Event::WindowsChanged { windows }, actions),
    ensures
        answers_all(
            final(p)@,
            final(p)@.workspaces.filter(|w: WorkspaceView| w.is_active).map_values(
                |w: WorkspaceView| w.id,
            ),
            actions,
        ),
{
    lemma_answers_all(final(p)@, active_ids(final(p)@.workspaces), actions);
}

/// When a window opens or changes, the workspace where it was and then the one where it is are
/// looked at, once if they are one, those that are active; nothing else happens.
pub proof fn opened_window_is_looked_at(
    p: &mut NiriProcessor,
    window: Window,
    actions: Seq<Action>,
)
    requires
        takes_in(p, Event::WindowOpenedOrChanged { window }, actions),
    ensures
        answers_all(final(p)@, shown(final(p)@, was_and_is(old(p)@.windows, window)), actions),
{
    let ids: Seq<u64> = was_and_is(old(p)@.windows, window);
    lemma_was_and_is(old(p)@, window);
    lemma_shown(final(p)@, ids);
    lemma_answers_all(final(p)@, shown(final(p)@, ids), actions);
}

/// The workspace where the window was, if it was known and on one, and the one where it is, if it
/// is on one and was not there before.
pub open spec fn was_and_is(windows: Map<u64, Window>, window: Window) -> Seq<u64> {
    let was = if windows.contains_key(window.id) {
        windows[window.id].workspace_id
    } else {
        None
    };
    match (was, window.workspace_id) {
        (None, None) => seq![],
        (None, Some(b)) => seq![b],
        (Some(a), None) => seq![a],
        (Some(a), Some(b)) => if a == b {
            seq![a]
        } else {
            seq![a, b]
        },
    }
}

/// The model lists the workspaces that a window was and is on.
proof fn lemma_was_and_is(m: AgentView, window: Window)
    ensures
        opened_on(m, window) == was_and_is(m.windows, window),
{
    if let Some(a) = workspace_of(m.windows, window.id) {
        assert(seq![a][0] == a);
        assert(seq![a].contains(a));
    }
    assert(opened_on(m, window) =~= was_and_is(m.windows, window));
}

/// A window that opens or changes concerns the workspace where it was and then the one where it is.
pub proof fn opened_window_concerns(p: &mut NiriProcessor, window: Window, res: Vec<u64>)
    requires
        call_ensures(NiriProcessor::handle_window_opened_or_changed, (p, window), res),
    ensures
        res@ == was_and_is(old(p)@.windows, window),
{
    lemma_was_and_is(old(p)@, window);
}

/// When a window closes, the workspace that it was on is looked at if it is active; nothing else
/// happens.
pub proof fn closed_window_is_looked_at(p: &mut NiriProcessor, id: u64, actions: Seq<Action>)
    requires
        takes_in(p, Event::WindowClosed { id }, actions),
    ensures
        old(p)@.windows.contains_key(id) && old(p)@.windows[id].workspace_id is Some
            ==> answers_all(
            final(p)@,
            shown(final(p)@, seq![old(p)@.windows[id].workspace_id->0]),
            actions,
        ),
        !(old(p)@.windows.contains_key(id) && old(p)@.windows[id].workspace_id is Some)
            ==> actions.len() == 0,
{
    let ids: Seq<u64> = listed(workspace_of(old(p)@.windows, id));
    lemma_nothing_shown(final(p)@);
    lemma_shown(final(p)@, ids);
    lemma_answers_all(final(p)@, shown(final(p)@, ids), actions);
}

/// Of no ids, none is picked out.
proof fn lemma_nothing_shown(m: AgentView)
    ensures
        only_active(m, Seq::empty()) == Seq::<u64>::empty(),
{
    reveal(Seq::filter);
}

/// A closed window concerns the workspace that it was on.
pub proof fn closed_window_concerns(p: &mut NiriProcessor, id: u64, res: Option<u64>)
    requires
        call_ensures(NiriProcessor::handle_window_closed, (p, id), res),
    ensures
        old(p)@.windows.contains_key(id) ==> res == old(p)@.windows[id].workspace_id,
        !old(p)@.windows.contains_key(id) ==> res is None,
{
}

/// When the focus changes, the workspace of the window that it goes to is looked at if it is
/// active; nothing else happens.
pub proof fn focused_window_is_looked_at(
    p: &mut NiriProcessor,
    id: Option<u64>,
    actions: Seq<Action>,
)
    requires
        takes_in(p, Event::WindowFocusChanged { id }, actions),
    ensures
        ({
            let on = old(p)@.windows[id->0].workspace_id;
            let known = id is Some && old(p)@.windows.contains_key(id->0) && on is Some;
            &&& known ==> answers_all(final(p)@, shown(final(p)@, seq![on->0]), actions)
            &&& !known ==> actions.len() == 0
        }),
{
    if let Some(k) = id {
        let ids: Seq<u64> = listed(workspace_of(old(p)@.windows, k));
        lemma_shown(final(p)@, ids);
        lemma_answers_all(final(p)@, shown(final(p)@, ids), actions);
    }
    lemma_nothing_shown(final(p)@);
}

/// The focus concerns the workspace of the window that it goes to.
pub proof fn focused_window_concerns(p: &mut NiriProcessor, id: Option<u64>, res: Option<u64>)
    requires
        call_ensures(NiriProcessor::handle_window_focus_changed, (p, id), res),
    ensures
        ({
            let known = id is Some && old(p)@.windows.contains_key(id->0);
            &&& known ==> res == old(p)@.windows[id->0].workspace_id
            &&& !known ==> res is None
        }),
{
}

/// The window is known and on the workspace.
pub open spec fn is_on(windows: Map<u64, Window>, k: u64, id: u64) -> bool {
    windows.contains_key(k) && windows[k].workspace_id == Some(id)
}

/// One of the changes names a known window on the workspace.
pub open spec fn reached(
    windows: Map<u64, Window>,
    changes: Seq<(u64, WindowLayout)>,
    id: u64,
) -> bool {
    exists|i: int| 0 <= i < changes.len() && is_on(windows, (#[trigger] changes[i]).0, id)
}

/// `ids` are the workspaces of the known windows that the changes name, each once, in the order in
/// which the changes come to them.
pub open spec fn concerned(
    windows: Map<u64, Window>,
    changes: Seq<(u64, WindowLayout)>,
    ids: Seq<u64>,
) -> bool {
    &&& ids.no_duplicates()
    &&& forall|id: u64| #[trigger]
        ids.contains(id) <==> reached(windows, changes, id)
    &&& forall|a: int, b: int, j: int|
        0 <= a < b < ids.len() && 0 <= j < changes.len() && #[trigger] is_on(
            windows,
            changes[j].0,
            ids[b],
        ) ==> #[trigger] reached(windows, changes.take(j), ids[a])
}

/// The model lists the workspaces that the changes name.
proof fn lemma_concerned_ids(windows: Map<u64, Window>, changes: Seq<(u64, WindowLayout)>, id: u64)
    ensures
        layouts_changed_on(windows, changes).contains(id) <==> reached(windows, changes, id),
{
    layout_changes_concern(windows, changes, id);
    if layouts_changed_on(windows, changes).contains(id) {
        let i: int = choose|i: int|
            0 <= i < changes.len() && workspace_of(windows, (#[trigger] changes[i]).0) == Some(id);
        assert(is_on(windows, changes[i].0, id));
    }
    if reached(windows, changes, id) {
        let i: int = choose|i: int|
            0 <= i < changes.len() && is_on(windows, (#[trigger] changes[i]).0, id);
        assert(workspace_of(windows, changes[i].0) == Some(id));
    }
}

/// The model lists them in the order in which the changes come to them.
proof fn lemma_concerned_order(
    windows: Map<u64, Window>,
    changes: Seq<(u64, WindowLayout)>,
    a: int,
    b: int,
    j: int,
) -> (i: int)
    requires
        0 <= a < b < layouts_changed_on(windows, changes).len(),
        0 <= j < changes.len(),
        is_on(windows, changes[j].0, layouts_changed_on(windows, changes)[b]),
    ensures
        0 <= i < j,
        is_on(windows, changes[i].0, layouts_changed_on(windows, changes)[a]),
    decreases changes.len(),
{
    let ids: Seq<u64> = layouts_changed_on(windows, changes);
    let n: int = changes.len() - 1;
    let init: Seq<(u64, WindowLayout)> = changes.drop_last();
    let rest: Seq<u64> = layouts_changed_on(windows, init);
    assert(ids[a] == rest[a]);
    lemma_concerned_ids(windows, init, ids[b]);
    lemma_concerned_ids(windows, init, ids[a]);
    assert(rest.contains(rest[a]));
    if j < n {
        assert(init[j] == changes[j]);
        assert(rest.contains(ids[b]));
        if b >= rest.len() {
            assert(ids == rest.push(ids[b]));
        }
        lemma_concerned_order(windows, init, a, b, j)
    } else {
        let i: int = choose|i: int|
            0 <= i < init.len() && is_on(windows, (#[trigger] init[i]).0, rest[a]);
        i
    }
}

/// The model lists the workspaces that changed layouts concern.
proof fn lemma_concerned(m: AgentView, window: Window, changes: Seq<(u64, WindowLayout)>)
    ensures
        concerned(m.windows, changes, layouts_changed_on(m.windows, changes)),
{
    let ids: Seq<u64> = layouts_changed_on(m.windows, changes);
    workspaces_are_refreshed_once(m, window, changes);
    assert forall|id: u64| #[trigger] ids.contains(id) <==> reached(m.windows, changes, id) by {
        lemma_concerned_ids(m.windows, changes, id);
    }
    assert forall|a: int, b: int, j: int|
        0 <= a < b < ids.len() && 0 <= j < changes.len() && #[trigger] is_on(
            m.windows,
            changes[j].0,
            ids[b],
        ) implies #[trigger] reached(m.windows, changes.take(j), ids[a]) by {
        let i: int = lemma_concerned_order(m.windows, changes, a, b, j);
        assert(is_on(m.windows, changes.take(j)[i].0, ids[a]));
    }
}

/// When layouts change, the workspaces of the known windows that they name are looked at, each
/// once, those that are active, and then the render threads are poked.
pub proof fn changed_layouts_are_looked_at(
    p: &mut NiriProcessor,
    changes: Vec<(u64, WindowLayout)>,
    actions: Seq<Action>,
)
    requires
        takes_in(p, Event::WindowLayoutsChanged { changes }, actions),
    ensures
        actions.len() > 0,
        actions.last() == Action::Handle(CommandType::Tc(RenderThreadCommand::Poke)),
        exists|ids: Seq<u64>| #[trigger]
            concerned(old(p)@.windows, changes@, ids) && answers_all(
                final(p)@,
                shown(final(p)@, ids),
                actions.drop_last(),
            ),
{
    let ids: Seq<u64> = layouts_changed_on(old(p)@.windows, changes@);
    assert(action_views(actions).drop_last() =~= action_views(actions.drop_last()));
    assert(action_views(actions).last() == actions.last()@);
    lemma_concerned(old(p)@, arbitrary(), changes@);
    lemma_shown(final(p)@, ids);
    lemma_answers_all(final(p)@, shown(final(p)@, ids), actions.drop_last());
}

/// Changed layouts concern the workspaces of the known windows that they name, each once, in the
/// order in which the changes come to them.
pub proof fn changed_layouts_concern(
    p: &mut NiriProcessor,
    changes: Vec<(u64, WindowLayout)>,
    res: Vec<u64>,
)
    requires
        call_ensures(NiriProcessor::handle_window_layouts_changed, (p, changes), res),
    ensures
        concerned(old(p)@.windows, changes@, res@),
{
    lemma_concerned(old(p)@, arbitrary(), changes@);
}

/// Putting the images back in place looks at every active workspace, in the order in which they
/// were listed.
pub proof fn active_workspaces_are_looked_at(p: NiriProcessor, actions: Vec<Action>)
    requires
        p.wf(),
        call_ensures(NiriProcessor::reseat_scroll_positions, (&p,), actions),
    ensures
        answers_all(
            p@,
            p@.workspaces.filter(|w: WorkspaceView| w.is_active).map_values(
                |w: WorkspaceView| w.id,
            ),
            actions@,
        ),
{
    lemma_answers_all(p@, active_ids(p@.workspaces), actions@);
}

/// Of a list of workspaces, those that are active are looked at, in order.
pub proof fn listed_workspaces_are_looked_at(p: NiriProcessor, ids: Vec<u64>, actions: Vec<Action>)
    requires
        p.wf(),
        call_ensures(NiriProcessor::emit_scroll_for_active_workspaces, (&p, &ids), actions),
    ensures
        answers_all(p@, shown(p@, ids@), actions@),
{
    lemma_shown(p@, ids@);
    lemma_answers_all(p@, shown(p@, ids@), actions@);
}

} // verus!
