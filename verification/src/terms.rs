//! Plain words for what the compositor reports and what is drawn. The laws speak in them, so that
//! they can be read without the rest of the model.

use vstd::prelude::*;

use crate::commands::{Action, CommandType, LogLine, RenderThreadCommand, ScrollCommand};
use crate::compositor::{Window, WorkspaceView};
use crate::config::RenderMode;
use crate::lookup::{first_index, lemma_first_index};
use crate::model::{
    output_index, output_names, workspace_ids, workspace_index, AgentView, OutputView,
};
use crate::percent::ScrollPercent;

verus! {

/// The workspace at `i` is the first one with this id.
pub open spec fn first_with_id(workspaces: Seq<WorkspaceView>, id: u64, i: int) -> bool {
    &&& 0 <= i < workspaces.len()
    &&& workspaces[i].id == id
    &&& forall|j: int| 0 <= j < i ==> (#[trigger] workspaces[j]).id != id
}

/// No workspace has this id.
pub open spec fn none_with_id(workspaces: Seq<WorkspaceView>, id: u64) -> bool {
    forall|j: int| 0 <= j < workspaces.len() ==> (#[trigger] workspaces[j]).id != id
}

/// The output at `k` is the first one with this name.
pub open spec fn first_named(outputs: Seq<OutputView>, name: Seq<char>, k: int) -> bool {
    &&& 0 <= k < outputs.len()
    &&& outputs[k].name == name
    &&& forall|j: int| 0 <= j < k ==> (#[trigger] outputs[j]).name != name
}

/// No output has this name.
pub open spec fn none_named(outputs: Seq<OutputView>, name: Seq<char>) -> bool {
    forall|j: int| 0 <= j < outputs.len() ==> (#[trigger] outputs[j]).name != name
}

/// The window is tiled on the workspace, in column `c`, at whatever height.
pub open spec fn stands_in(w: Window, id: u64, c: usize) -> bool {
    &&& w.workspace_id == Some(id)
    &&& !w.is_floating
    &&& w.layout.pos_in_scrolling_layout matches Some(pos)
    &&& pos.0 == c
}

/// Some window is tiled on the workspace in column `c`.
pub open spec fn occupied(windows: Map<u64, Window>, id: u64, c: usize) -> bool {
    exists|k: u64| #[trigger] windows.contains_key(k) && stands_in(windows[k], id, c)
}

/// How many of the workspace's occupied columns are at or before column `c`, and how many there are
/// in all.
pub open spec fn ranked(windows: Map<u64, Window>, id: u64, c: usize) -> (nat, nat) {
    (
        Set::new(|d: usize| d <= c && occupied(windows, id, d)).len(),
        Set::new(|d: usize| occupied(windows, id, d)).len(),
    )
}

/// The window is tiled on the workspace and has the focus.
pub open spec fn has_focus_on(w: Window, id: u64) -> bool {
    w.workspace_id == Some(id) && !w.is_floating && w.is_focused
}

/// `s` tells the active column of the workspace and how many columns there are. The active window
/// tells the active column if it is tiled on the workspace and has a place; else a window does that
/// is tiled there and has the focus; else nothing does.
pub open spec fn tells_column(
    windows: Map<u64, Window>,
    w: WorkspaceView,
    s: Option<(nat, nat)>,
) -> bool {
    if w.active_window_id is Some && windows.contains_key(w.active_window_id->0)
        && windows[w.active_window_id->0].workspace_id == Some(w.id)
        && !windows[w.active_window_id->0].is_floating
        && windows[w.active_window_id->0].layout.pos_in_scrolling_layout is Some {
        s == Some(
            ranked(
                windows,
                w.id,
                (windows[w.active_window_id->0].layout.pos_in_scrolling_layout->0).0,
            ),
        )
    } else {
        ||| exists|f: u64| #[trigger]
            windows.contains_key(f) && has_focus_on(windows[f], w.id) && s == (
            match windows[f].layout.pos_in_scrolling_layout {
                Some(pos) => Some(ranked(windows, w.id, pos.0)),
                None => None,
            })
        ||| s is None && forall|f: u64| #[trigger]
            windows.contains_key(f) ==> !has_focus_on(windows[f], w.id)
    }
}

/// `p` is the middle of the axis.
pub open spec fn in_the_middle(p: ScrollPercent) -> bool {
    p.steps == 1 && p.span == 2
}

/// `p` is where place `i` of `n` equally spaced places lies: the first at the start of the axis,
/// the last at its end, and in the middle if there is no second place.
pub open spec fn lies_at(p: ScrollPercent, i: int, n: int) -> bool {
    if n <= 1 {
        in_the_middle(p)
    } else {
        &&& p.span == n - 1
        &&& p.steps == (if i <= 1 {
            0
        } else {
            i - 1
        })
    }
}

/// `p` is where the active column of the workspace lies among its columns, the middle if none is
/// active.
pub open spec fn lies_at_column(
    windows: Map<u64, Window>,
    w: WorkspaceView,
    p: ScrollPercent,
) -> bool {
    exists|s: Option<(nat, nat)>| #[trigger]
        tells_column(windows, w, s) && match s {
            Some(s) => lies_at(p, s.0 as int, s.1 as int),
            None => in_the_middle(p),
        }
}

/// `c` moves the image of the output by the mode: up and down with the workspace, sideways with the
/// active column, or both.
pub open spec fn follows(
    m: AgentView,
    w: WorkspaceView,
    o: OutputView,
    mode: RenderMode,
    c: ScrollCommand,
) -> bool {
    &&& c.output@ == o.name
    &&& match mode {
        RenderMode::Static => false,
        RenderMode::ScrollVertical => {
            &&& in_the_middle(c.position_x)
            &&& lies_at(c.position_y, w.idx as int, o.max_workspace_idx as int)
        },
        RenderMode::ScrollHorizontal => {
            &&& lies_at_column(m.windows, w, c.position_x)
            &&& in_the_middle(c.position_y)
        },
        RenderMode::ScrollBoth => {
            &&& lies_at_column(m.windows, w, c.position_x)
            &&& lies_at(c.position_y, w.idx as int, o.max_workspace_idx as int)
        },
    }
}

/// `p` is where the active column of the output's active workspace lies, the middle if there is no
/// such workspace.
pub open spec fn lies_at_column_of(m: AgentView, o: OutputView, p: ScrollPercent) -> bool {
    match o.active_workspace_id {
        None => in_the_middle(p),
        Some(id) => {
            &&& none_with_id(m.workspaces, id) ==> in_the_middle(p)
            &&& forall|i: int| #[trigger]
                first_with_id(m.workspaces, id, i) ==> lies_at_column(
                    m.windows,
                    m.workspaces[i],
                    p,
                )
        },
    }
}

/// `p` is where the output's active workspace lies among its workspaces. Without an active
/// workspace the first place counts.
pub open spec fn lies_at_row_of(o: OutputView, p: ScrollPercent) -> bool {
    match o.active_workspace_idx {
        Some(idx) => lies_at(p, idx as int, o.max_workspace_idx as int),
        None => lies_at(p, 1, o.max_workspace_idx as int),
    }
}

/// `at` is where the image of the output belongs in the mode: a static image, and one on an unknown
/// output, at the start of both axes.
pub open spec fn belongs_at(
    m: AgentView,
    name: Seq<char>,
    mode: RenderMode,
    at: (ScrollPercent, ScrollPercent),
) -> bool {
    let at_start = at.0.steps == 0 && at.0.span == 1 && at.1.steps == 0 && at.1.span == 1;
    &&& none_named(m.outputs, name) ==> at_start
    &&& forall|k: int| #[trigger]
        first_named(m.outputs, name, k) ==> match mode {
            RenderMode::Static => at_start,
            RenderMode::ScrollVertical => {
                &&& in_the_middle(at.0)
                &&& lies_at_row_of(m.outputs[k], at.1)
            },
            RenderMode::ScrollHorizontal => {
                &&& lies_at_column_of(m, m.outputs[k], at.0)
                &&& in_the_middle(at.1)
            },
            RenderMode::ScrollBoth => {
                &&& lies_at_column_of(m, m.outputs[k], at.0)
                &&& lies_at_row_of(m.outputs[k], at.1)
            },
        }
}

/// `a` is what a look at the workspace at `i` has to lead to.
pub open spec fn answers(m: AgentView, i: int, a: Option<Action>) -> bool {
    match m.workspaces[i].output {
        None => a is None,
        Some(name) => {
            &&& none_named(m.outputs, name) ==> (a matches Some(
                Action::Log(LogLine::OutputNotConfigured(s)),
            ) && s@ == name)
            &&& forall|k: int| #[trigger]
                first_named(m.outputs, name, k) ==> match m.outputs[k].mode {
                    None | Some(RenderMode::Static) => a is None,
                    Some(mode) => {
                        &&& a matches Some(
                            Action::Handle(CommandType::Tc(RenderThreadCommand::Scroll(c))),
                        )
                        &&& follows(m, m.workspaces[i], m.outputs[k], mode, c)
                    },
                }
        },
    }
}

/// `actions` is what a look at the workspaces with these ids has to lead to, one after another.
pub open spec fn answers_all(m: AgentView, ids: Seq<u64>, actions: Seq<Action>) -> bool {
    exists|each: Seq<Option<Action>>|
        {
            &&& #[trigger] each.len() == ids.len()
            &&& forall|j: int, i: int|
                0 <= j < ids.len() && #[trigger] first_with_id(m.workspaces, ids[j], i)
                    ==> answers(m, i, each[j])
            &&& actions == each.filter(|a: Option<Action>| a is Some).map_values(
                |a: Option<Action>| a->0,
            )
        }
}

/// The first workspace with an id is what the model finds.
pub proof fn lemma_first_with_id(m: AgentView, id: u64)
    ensures
        match workspace_index(m.workspaces, id) {
            Some(i) => first_with_id(m.workspaces, id, i) && m.workspace(id) == Some(
                m.workspaces[i],
            ),
            None => none_with_id(m.workspaces, id) && m.workspace(id) is None,
        },
        forall|i: int|
            first_with_id(m.workspaces, id, i) ==> workspace_index(m.workspaces, id) == Some(i),
        none_with_id(m.workspaces, id) ==> workspace_index(m.workspaces, id) is None,
{
    let ids: Seq<u64> = workspace_ids(m.workspaces);
    lemma_first_index(ids, id);
    assert forall|j: int| 0 <= j < ids.len() implies ids[j] == (#[trigger] m.workspaces[j]).id by {}
    if let Some(i) = first_index(ids, id) {
        assert forall|j: int| 0 <= j < i implies (#[trigger] m.workspaces[j]).id != id by {
            assert(ids[j] != id);
        }
        assert(ids[i] == id);
        assert(m.workspaces[i].id == id);
    } else {
        assert forall|j: int| 0 <= j < m.workspaces.len() implies (#[trigger] m.workspaces[j]).id
            != id by {
            assert(ids[j] != id);
        }
    }
    assert forall|i: int| first_with_id(m.workspaces, id, i) implies workspace_index(
        m.workspaces,
        id,
    ) == Some(i) by {
        let k: int = first_index(ids, id)->0;
        assert(m.workspaces[i].id == id);
        assert(k == i);
    }
}

/// The first output with a name is what the model finds.
pub proof fn lemma_first_named(outputs: Seq<OutputView>, name: Seq<char>)
    ensures
        match output_index(outputs, name) {
            Some(k) => first_named(outputs, name, k),
            None => none_named(outputs, name),
        },
        forall|k: int| first_named(outputs, name, k) ==> output_index(outputs, name) == Some(k),
        none_named(outputs, name) ==> output_index(outputs, name) is None,
{
    let names: Seq<Seq<char>> = output_names(outputs);
    lemma_first_index(names, name);
    if let Some(i) = first_index(names, name) {
        assert forall|j: int| 0 <= j < i implies (#[trigger] outputs[j]).name != name by {
            assert(names[j] != name);
        }
        assert(names[i] == name);
        assert(outputs[i].name == name);
    } else {
        assert forall|j: int| 0 <= j < outputs.len() implies (#[trigger] outputs[j]).name
            != name by {
            assert(names[j] != name);
        }
    }
    assert forall|k: int| first_named(outputs, name, k) implies output_index(outputs, name) == Some(
        k,
    ) by {
        let i: int = first_index(names, name)->0;
        assert(outputs[k].name == name);
        assert(i == k);
    }
}

} // verus!
