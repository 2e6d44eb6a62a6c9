//! Where images go: sideways with the active column, up and down with the active workspace.

use vstd::prelude::*;

use crate::columns::{columns, in_column, rank};
use crate::commands::{action_views, Action, ActionView, CommandType, RenderThreadCommand};
use crate::compositor::{Window, WorkspaceView};
use crate::config::RenderMode;
use crate::laws::{active_column_is_a_column, lemma_columns_fit};
use crate::model::{
    active_column, active_window_column, are_responses, column_percent, column_state,
    image_position, is_column_percent, is_current_position, is_output_column, is_response,
    output_row, responds, AgentView, OutputView,
};
use crate::percent::{
    centre, index_scroll_percent, place_percent, start, workspace_scroll_percent, ScrollPercent,
};
use crate::processor::NiriProcessor;
use crate::terms::{
    answers, answers_all, belongs_at, first_named, first_with_id, follows, has_focus_on,
    in_the_middle, lemma_first_named, lemma_first_with_id, lies_at_column, lies_at_column_of,
    lies_at_row_of, none_with_id, occupied, ranked, stands_in, tells_column,
};
use crate::windows::{focused_on, is_focused_pick};

verus! {

// Places on an axis.

/// Of two places or more, the first lies at the start of the axis and each further one a step on,
/// the last at the end. What lies before the first place is at the start too. Where there is no
/// second place, the image goes to the middle.
pub proof fn places_are_equally_spaced(i: usize, n: usize, p: ScrollPercent)
    requires
        call_ensures(index_scroll_percent, (i, n), p),
    ensures
        n >= 2 ==> p.span == n - 1,
        n >= 2 && i >= 1 ==> p.steps == i - 1,
        n >= 2 && i == 0 ==> p.steps == 0,
        n <= 1 ==> p.steps == 1 && p.span == 2,
{
}

/// Workspaces are equally spaced on their axis, as places are.
pub proof fn workspaces_are_equally_spaced(i: u8, n: u8, p: ScrollPercent)
    requires
        call_ensures(workspace_scroll_percent, (i, n), p),
    ensures
        n >= 2 ==> p.span == n - 1,
        n >= 2 && i >= 1 ==> p.steps == i - 1,
        n >= 2 && i == 0 ==> p.steps == 0,
        n <= 1 ==> p.steps == 1 && p.span == 2,
{
}

/// The start is at 0 percent and the centre at 50.
pub proof fn fixed_places(s: ScrollPercent, c: ScrollPercent)
    requires
        call_ensures(start, (), s),
        call_ensures(centre, (), c),
    ensures
        s.steps == 0 && s.span > 0,
        c.steps + c.steps == c.span && c.span > 0,
{
}

// Columns.

/// The model's columns are those that a window occupies.
proof fn lemma_columns(windows: Map<u64, Window>, id: u64, c: usize)
    ensures
        columns(windows, id).contains(c) <==> occupied(windows, id, c),
        (rank(columns(windows, id), c), columns(windows, id).len()) == ranked(windows, id, c),
{
    assert forall|d: usize| columns(windows, id).contains(d) <==> #[trigger] occupied(
        windows,
        id,
        d,
    ) by {
        if columns(windows, id).contains(d) {
            let k: u64 = choose|k: u64| in_column(windows, id, k, d);
            assert(windows.contains_key(k) && stands_in(windows[k], id, d));
        }
        if occupied(windows, id, d) {
            let k: u64 = choose|k: u64| #[trigger]
                windows.contains_key(k) && stands_in(windows[k], id, d);
            assert(in_column(windows, id, k, d));
        }
    }
    assert(columns(windows, id) =~= Set::new(|d: usize| occupied(windows, id, d)));
    assert(columns(windows, id).filter(|d: usize| d <= c) =~= Set::new(
        |d: usize| d <= c && occupied(windows, id, d),
    ));
}

/// What the model says of the active column is what the windows tell.
proof fn lemma_tells_column(m: AgentView, id: u64, i: int, pick: Option<Window>)
    requires
        first_with_id(m.workspaces, id, i),
        is_focused_pick(m.windows, id, pick),
    ensures
        tells_column(m.windows, m.workspaces[i], column_state(m, id, pick)),
{
    lemma_first_with_id(m, id);
    let w: WorkspaceView = m.workspaces[i];
    if let Some(c) = active_column(m.windows, w, pick) {
        lemma_columns(m.windows, id, c);
    }
    match active_window_column(m.windows, w) {
        Some(c) => {
            let k: u64 = w.active_window_id->0;
            assert(m.windows.contains_key(k) && stands_in(m.windows[k], id, c));
        },
        None => {
            match pick {
                Some(v) => {
                    let f: u64 = choose|f: u64| #[trigger]
                        m.windows.contains_key(f) && m.windows[f] == v;
                    assert(has_focus_on(m.windows[f], id));
                    if let Some(pos) = v.layout.pos_in_scrolling_layout {
                        assert(stands_in(m.windows[f], id, pos.0));
                        assert(occupied(m.windows, id, pos.0));
                    }
                },
                None => {
                    assert forall|f: u64| #[trigger] m.windows.contains_key(f) implies
                        !has_focus_on(m.windows[f], id) by {
                        assert(!focused_on(m.windows[f], id));
                    }
                },
            }
        },
    }
}

/// The active column is told by the windows.
pub proof fn windows_tell_the_column(
    p: NiriProcessor,
    id: u64,
    i: int,
    res: Option<(usize, usize)>,
)
    requires
        call_ensures(NiriProcessor::get_active_column_scroll_state, (&p, id), res),
        first_with_id(p@.workspaces, id, i),
    ensures
        tells_column(
            p@.windows,
            p@.workspaces[i],
            match res {
                Some(s) => Some((s.0 as nat, s.1 as nat)),
                None => None,
            },
        ),
{
    let pick: Option<Window> = choose|pick: Option<Window>| #[trigger]
        is_focused_pick(p@.windows, id, pick) && match res {
            Some(s) => column_state(p@, id, pick) == Some((s.0 as nat, s.1 as nat)),
            None => column_state(p@, id, pick) is None,
        };
    lemma_tells_column(p@, id, i, pick);
}

/// Where the active window of a workspace is tiled on it in column `c`, in whatever tile of the
/// column, its rank is the number of columns up to `c` that hold a tiled window, and the columns
/// are counted the same way. No focused window changes that.
pub proof fn active_window_tells_the_column(
    p: NiriProcessor,
    id: u64,
    i: int,
    k: u64,
    c: usize,
    t: usize,
    focused: Option<Window>,
    res: Option<(usize, usize)>,
)
    requires
        call_ensures(NiriProcessor::get_active_column_scroll_state, (&p, id), res) || call_ensures(
            NiriProcessor::column_scroll_state,
            (&p, id, focused),
            res,
        ),
        0 <= i < p@.workspaces.len(),
        p@.workspaces[i].id == id,
        forall|j: int| 0 <= j < i ==> (#[trigger] p@.workspaces[j]).id != id,
        p@.workspaces[i].active_window_id == Some(k),
        p@.windows.contains_key(k),
        p@.windows[k].workspace_id == Some(id),
        !p@.windows[k].is_floating,
        p@.windows[k].layout.pos_in_scrolling_layout == Some((c, t)),
    ensures
        res is Some,
        (res->0).0 == Set::new(
            |d: usize|
                d <= c && exists|j: u64|
                    {
                        &&& #[trigger] p@.windows.contains_key(j)
                        &&& p@.windows[j].workspace_id == Some(id)
                        &&& !p@.windows[j].is_floating
                        &&& p@.windows[j].layout.pos_in_scrolling_layout matches Some(at)
                        &&& at.0 == d
                    },
        ).len(),
        (res->0).1 == Set::new(
            |d: usize|
                exists|j: u64|
                    {
                        &&& #[trigger] p@.windows.contains_key(j)
                        &&& p@.windows[j].workspace_id == Some(id)
                        &&& !p@.windows[j].is_floating
                        &&& p@.windows[j].layout.pos_in_scrolling_layout matches Some(at)
                        &&& at.0 == d
                    },
        ).len(),
{
    let m: AgentView = p@;
    lemma_first_with_id(m, id);
    assert(first_with_id(m.workspaces, id, i));
    lemma_columns(m.windows, id, c);
    assert(stands_in(m.windows[k], id, c));
    assert(occupied(m.windows, id, c));
    assert(active_window_column(m.windows, m.workspaces[i]) == Some(c));
    assert((res->0).0 == ranked(m.windows, id, c).0 && (res->0).1 == ranked(m.windows, id, c).1);
    assert(Set::new(|d: usize| d <= c && occupied(m.windows, id, d)) =~= Set::new(
        |d: usize|
            d <= c && exists|j: u64|
                {
                    &&& #[trigger] p@.windows.contains_key(j)
                    &&& p@.windows[j].workspace_id == Some(id)
                    &&& !p@.windows[j].is_floating
                    &&& p@.windows[j].layout.pos_in_scrolling_layout matches Some(at)
                    &&& at.0 == d
                },
    ));
    assert(Set::new(|d: usize| occupied(m.windows, id, d)) =~= Set::new(
        |d: usize|
            exists|j: u64|
                {
                    &&& #[trigger] p@.windows.contains_key(j)
                    &&& p@.windows[j].workspace_id == Some(id)
                    &&& !p@.windows[j].is_floating
                    &&& p@.windows[j].layout.pos_in_scrolling_layout matches Some(at)
                    &&& at.0 == d
                },
    ));
}

/// At which height of their columns windows stand does not matter: where the windows differ in that
/// alone, the active window tells the same column.
pub proof fn heights_do_not_matter(
    p: NiriProcessor,
    q: NiriProcessor,
    id: u64,
    i: int,
    k: u64,
    a: Option<(usize, usize)>,
    b: Option<(usize, usize)>,
)
    requires
        call_ensures(NiriProcessor::get_active_column_scroll_state, (&p, id), a),
        call_ensures(NiriProcessor::get_active_column_scroll_state, (&q, id), b),
        p@.workspaces == q@.workspaces,
        forall|j: u64| #[trigger] p@.windows.contains_key(j) <==> q@.windows.contains_key(j),
        forall|j: u64| #[trigger]
            p@.windows.contains_key(j) ==> {
                let v = p@.windows[j];
                let w = q@.windows[j];
                &&& v.workspace_id == w.workspace_id
                &&& v.is_floating == w.is_floating
                &&& v.layout.pos_in_scrolling_layout is Some
                    <==> w.layout.pos_in_scrolling_layout is Some
                &&& v.layout.pos_in_scrolling_layout is Some ==> (
                v.layout.pos_in_scrolling_layout->0).0 == (w.layout.pos_in_scrolling_layout->0).0
            },
        first_with_id(p@.workspaces, id, i),
        p@.workspaces[i].active_window_id == Some(k),
        p@.windows.contains_key(k),
        p@.windows[k].workspace_id == Some(id),
        !p@.windows[k].is_floating,
        p@.windows[k].layout.pos_in_scrolling_layout is Some,
    ensures
        a == b,
        a is Some,
{
    let at: (usize, usize) = p@.windows[k].layout.pos_in_scrolling_layout->0;
    let to: (usize, usize) = q@.windows[k].layout.pos_in_scrolling_layout->0;
    active_window_tells_the_column(p, id, i, k, at.0, at.1, None, a);
    active_window_tells_the_column(q, id, i, k, to.0, to.1, None, b);
    windows_tell_the_column(p, id, i, a);
    windows_tell_the_column(q, id, i, b);
    assert forall|d: usize| #[trigger] occupied(p@.windows, id, d) <==> occupied(
        q@.windows,
        id,
        d,
    ) by {
        if occupied(p@.windows, id, d) {
            let j: u64 = choose|j: u64| #[trigger]
                p@.windows.contains_key(j) && stands_in(p@.windows[j], id, d);
            assert(q@.windows.contains_key(j) && stands_in(q@.windows[j], id, d));
        }
        if occupied(q@.windows, id, d) {
            let j: u64 = choose|j: u64| #[trigger]
                q@.windows.contains_key(j) && stands_in(q@.windows[j], id, d);
            assert(p@.windows.contains_key(j));
            assert(stands_in(p@.windows[j], id, d));
        }
    }
    assert(Set::new(|d: usize| occupied(p@.windows, id, d)) =~= Set::new(
        |d: usize| occupied(q@.windows, id, d),
    ));
    assert(Set::new(|d: usize| d <= at.0 && occupied(p@.windows, id, d)) =~= Set::new(
        |d: usize| d <= to.0 && occupied(q@.windows, id, d),
    ));
}

/// Where the active window does not tell the column, the window that is handed in does, if it has a
/// place in a column that the workspace has.
pub proof fn given_window_tells_the_column(
    p: NiriProcessor,
    id: u64,
    i: int,
    focused: Option<Window>,
    res: Option<(usize, usize)>,
)
    requires
        call_ensures(NiriProcessor::column_scroll_state, (&p, id, focused), res),
        first_with_id(p@.workspaces, id, i),
        p@.workspaces[i].active_window_id matches Some(k) ==> (p@.windows.contains_key(k) ==> (
        p@.windows[k].workspace_id != Some(id) || p@.windows[k].is_floating
            || p@.windows[k].layout.pos_in_scrolling_layout is None)),
    ensures
        ({
            let has_place = focused is Some && focused->0.layout.pos_in_scrolling_layout is Some;
            let c = (focused->0.layout.pos_in_scrolling_layout->0).0;
            &&& has_place && occupied(p@.windows, id, c) ==> {
                &&& res is Some
                &&& (res->0).0 == ranked(p@.windows, id, c).0
                &&& (res->0).1 == ranked(p@.windows, id, c).1
            }
            &&& !(has_place && occupied(p@.windows, id, c)) ==> res is None
        }),
{
    let m: AgentView = p@;
    lemma_first_with_id(m, id);
    assert(active_window_column(m.windows, m.workspaces[i]) is None);
    lemma_columns(m.windows, id, (focused->0.layout.pos_in_scrolling_layout->0).0);
}

/// A workspace that is not known has no active column.
pub proof fn unknown_workspaces_have_no_column(
    p: NiriProcessor,
    id: u64,
    res: Option<(usize, usize)>,
)
    requires
        call_ensures(NiriProcessor::get_active_column_scroll_state, (&p, id), res),
        none_with_id(p@.workspaces, id),
    ensures
        res is None,
{
    lemma_first_with_id(p@, id);
}

/// The column percentage is where the active column lies.
proof fn lemma_lies_at_column(m: AgentView, id: u64, i: int, x: ScrollPercent)
    requires
        first_with_id(m.workspaces, id, i),
        is_column_percent(m, id, x),
        m.windows.dom().finite(),
    ensures
        lies_at_column(m.windows, m.workspaces[i], x),
{
    let pick: Option<Window> = choose|pick: Option<Window>| #[trigger]
        is_focused_pick(m.windows, id, pick) && x == column_percent(column_state(m, id, pick));
    lemma_tells_column(m, id, i, pick);
    let s: Option<(nat, nat)> = column_state(m, id, pick);
    assert(tells_column(m.windows, m.workspaces[i], s));
    active_column_is_a_column(m, id, pick);
    lemma_columns_fit(m.windows, id);
}

/// The active column lies where its rank among the columns puts it, and in the middle where no
/// column is active.
pub proof fn columns_are_equally_spaced(p: NiriProcessor, id: u64, x: ScrollPercent)
    requires
        p.wf(),
        call_ensures(NiriProcessor::get_column_scroll_percent_for_workspace, (&p, id), x),
    ensures
        forall|i: int| #[trigger]
            first_with_id(p@.workspaces, id, i) ==> lies_at_column(
                p@.windows,
                p@.workspaces[i],
                x,
            ),
        none_with_id(p@.workspaces, id) ==> in_the_middle(x),
{
    lemma_first_with_id(p@, id);
    assert forall|i: int| #[trigger] first_with_id(p@.workspaces, id, i) implies lies_at_column(
        p@.windows,
        p@.workspaces[i],
        x,
    ) by {
        lemma_lies_at_column(p@, id, i, x);
    }
}

// Scrolling.

/// What looking at a workspace leads to is the answer that it has to lead to.
pub proof fn lemma_answers(m: AgentView, id: u64, i: int, a: Option<Action>)
    requires
        m.windows.dom().finite(),
        first_with_id(m.workspaces, id, i),
        match a {
            Some(a) => responds(m, id) && is_response(m, id, a@),
            None => !responds(m, id),
        },
    ensures
        answers(m, i, a),
{
    lemma_first_with_id(m, id);
    let w: WorkspaceView = m.workspaces[i];
    if let Some(name) = w.output {
        lemma_first_named(m.outputs, name);
        assert forall|k: int| #[trigger] first_named(m.outputs, name, k) implies (match
        m.outputs[k].mode {
            None | Some(RenderMode::Static) => a is None,
            Some(mode) => {
                &&& a matches Some(Action::Handle(CommandType::Tc(RenderThreadCommand::Scroll(c))))
                &&& follows(m, w, m.outputs[k], mode, c)
            },
        }) by {
            let o: OutputView = m.outputs[k];
            assert(m.output(name) == Some(o));
            if let Some(act) = a {
                let row: ScrollPercent = place_percent(w.idx as int, o.max_workspace_idx as int);
                let x: ScrollPercent = choose|column: ScrollPercent|
                    {
                        &&& #[trigger] is_column_percent(m, id, column)
                        &&& act@ == ActionView::Scroll {
                            output: name,
                            position: image_position(o.mode->0, column, row),
                        }
                    };
                lemma_lies_at_column(m, id, i, x);
            }
        }
    }
}

/// A look at a known workspace leads to what it has to lead to: to nothing without an output or
/// with one that does not scroll, to a log line if the output is unknown, and else to one scroll
/// command for the output, with the image placed by the mode.
pub proof fn a_look_is_answered(p: NiriProcessor, id: u64, i: int, a: Option<Action>)
    requires
        p.wf(),
        call_ensures(NiriProcessor::gen_scroll_cmd_for_workspace_id, (&p, id), a),
        first_with_id(p@.workspaces, id, i),
    ensures
        answers(p@, i, a),
{
    lemma_answers(p@, id, i, a);
}

/// Only an active workspace is answered to where it has to be active.
pub proof fn only_active_workspaces_are_answered(
    p: NiriProcessor,
    id: u64,
    a: Option<Action>,
    active: bool,
)
    requires
        p.wf(),
        call_ensures(NiriProcessor::emit_scroll_for_workspace_if_active, (&p, id), a),
        call_ensures(NiriProcessor::is_workspace_active, (&p, id), active),
    ensures
        active <==> exists|i: int| #[trigger]
            first_with_id(p@.workspaces, id, i) && p@.workspaces[i].is_active,
        active ==> forall|i: int| #[trigger]
            first_with_id(p@.workspaces, id, i) ==> answers(p@, i, a),
        !active ==> a is None,
{
    lemma_first_with_id(p@, id);
    if active {
        assert forall|i: int| #[trigger] first_with_id(p@.workspaces, id, i) implies answers(
            p@,
            i,
            a,
        ) by {
            lemma_answers(p@, id, i, a);
        }
    }
}

/// In every scrolling mode the image goes sideways by the active column alone, or stays in the
/// middle, and up and down by the workspace alone, or stays in the middle. With the active window
/// in column `c` of its workspace, the active column is the `r`th of `n`.
pub proof fn images_move_along_their_axes(
    p: NiriProcessor,
    id: u64,
    i: int,
    k: int,
    c: usize,
    a: Option<Action>,
)
    requires
        p.wf(),
        call_ensures(NiriProcessor::gen_scroll_cmd_for_workspace_id, (&p, id), a),
        first_with_id(p@.workspaces, id, i),
        p@.workspaces[i].output is Some,
        first_named(p@.outputs, p@.workspaces[i].output->0, k),
        p@.workspaces[i].active_window_id matches Some(at) && p@.windows.contains_key(at)
            && stands_in(p@.windows[at], id, c),
        p@.outputs[k].mode is Some,
        p@.outputs[k].mode != Some(RenderMode::Static),
    ensures
        a matches Some(Action::Handle(CommandType::Tc(RenderThreadCommand::Scroll(cmd)))) && {
            let r = Set::new(|d: usize| d <= c && occupied(p@.windows, id, d)).len();
            let n = Set::new(|d: usize| occupied(p@.windows, id, d)).len();
            let sideways = p@.outputs[k].mode != Some(RenderMode::ScrollVertical);
            let upright = p@.outputs[k].mode != Some(RenderMode::ScrollHorizontal);
            &&& cmd.output@ == p@.outputs[k].name
            &&& sideways && n >= 2 ==> cmd.position_x.steps == r - 1 && cmd.position_x.span == n - 1
            &&& !sideways || n <= 1 ==> cmd.position_x.steps == 1 && cmd.position_x.span == 2
            &&& upright && p@.outputs[k].max_workspace_idx >= 2 && p@.workspaces[i].idx >= 1 ==> {
                &&& cmd.position_y.steps == p@.workspaces[i].idx - 1
                &&& cmd.position_y.span == p@.outputs[k].max_workspace_idx - 1
            }
            &&& !upright || p@.outputs[k].max_workspace_idx <= 1 ==> {
                &&& cmd.position_y.steps == 1
                &&& cmd.position_y.span == 2
            }
        },
{
    let m: AgentView = p@;
    lemma_first_with_id(m, id);
    lemma_answers(m, id, i, a);
    assert(occupied(m.windows, id, c));
    lemma_columns(m.windows, id, c);
    active_column_is_a_column(m, id, None);
}

/// Answers are given in the order of the looks, one for each look that leads to anything.
pub proof fn lemma_answers_all(m: AgentView, ids: Seq<u64>, actions: Seq<Action>)
    requires
        m.windows.dom().finite(),
        are_responses(m, ids, action_views(actions)),
    ensures
        answers_all(m, ids, actions),
    decreases ids.len(),
{
    reveal(Seq::filter);
    let some = |a: Option<Action>| a is Some;
    let inner = |a: Option<Action>| a->0;
    if ids.len() == 0 {
        let each: Seq<Option<Action>> = Seq::empty();
        assert(each.len() == ids.len());
        assert(actions =~= each.filter(some).map_values(inner));
    } else {
        let id: u64 = ids.last();
        let rest: Seq<Action> = if responds(m, id) {
            actions.drop_last()
        } else {
            actions
        };
        if responds(m, id) {
            assert(action_views(actions).drop_last() =~= action_views(actions.drop_last()));
        }
        lemma_answers_all(m, ids.drop_last(), rest);
        let before: Seq<Option<Action>> = choose|each: Seq<Option<Action>>|
            {
                &&& #[trigger] each.len() == ids.drop_last().len()
                &&& forall|j: int, i: int|
                    0 <= j < ids.drop_last().len() && #[trigger] first_with_id(
                        m.workspaces,
                        ids.drop_last()[j],
                        i,
                    ) ==> answers(m, i, each[j])
                &&& rest == each.filter(|a: Option<Action>| a is Some).map_values(
                    |a: Option<Action>| a->0,
                )
            };
        let a: Option<Action> = if responds(m, id) {
            Some(actions.last())
        } else {
            None
        };
        let each: Seq<Option<Action>> = before.push(a);
        assert(each.drop_last() =~= before);
        assert(each.len() == ids.len());
        assert(before.filter(some).map_values(inner) == rest);
        if responds(m, id) {
            assert(each.filter(some) == before.filter(some).push(a));
            assert(actions =~= rest.push(actions.last()));
        } else {
            assert(each.filter(some) == before.filter(some));
        }
        assert(actions =~= each.filter(some).map_values(inner));
        assert forall|j: int, i: int|
            0 <= j < ids.len() && #[trigger] first_with_id(
                m.workspaces,
                ids[j],
                i,
            ) implies answers(m, i, each[j]) by {
            if j < ids.len() - 1 {
                assert(ids.drop_last()[j] == ids[j]);
                assert(first_with_id(m.workspaces, ids.drop_last()[j], i));
            } else {
                lemma_answers(m, id, i, a);
            }
        }
    }
}

// Drawing anew.

/// The current position is where the image belongs.
pub proof fn lemma_belongs_at(
    m: AgentView,
    name: Seq<char>,
    mode: RenderMode,
    at: (ScrollPercent, ScrollPercent),
)
    requires
        m.windows.dom().finite(),
        is_current_position(m, name, mode, at),
    ensures
        belongs_at(m, name, mode, at),
{
    lemma_first_named(m.outputs, name);
    if let Some(o) = m.output(name) {
        let x: ScrollPercent = choose|column: ScrollPercent|
            {
                &&& #[trigger] is_output_column(m, o, column)
                &&& at == image_position(mode, column, output_row(o))
            };
        if let Some(id) = o.active_workspace_id {
            lemma_first_with_id(m, id);
            assert forall|i: int| #[trigger] first_with_id(m.workspaces, id, i) implies
                lies_at_column(m.windows, m.workspaces[i], x) by {
                lemma_lies_at_column(m, id, i, x);
            }
        }
        assert(lies_at_column_of(m, o, x));
        assert(lies_at_row_of(o, output_row(o)));
    }
}

/// The image of an output is drawn where it belongs in the mode.
pub proof fn outputs_stand_where_they_belong(
    p: NiriProcessor,
    name: String,
    mode: RenderMode,
    at: (ScrollPercent, ScrollPercent),
)
    requires
        p.wf(),
        call_ensures(NiriProcessor::get_current_position_for_output, (&p, &name, mode), at),
    ensures
        belongs_at(p@, name@, mode, at),
{
    lemma_belongs_at(p@, name@, mode, at);
}

} // verus!
