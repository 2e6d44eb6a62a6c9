//! The event processor: keeps the picture of the compositor and decides what the daemon is asked.

use std::collections::HashMap;

use vstd::prelude::*;

use crate::columns::{
    ascending, collect_columns, columns, lemma_ascending_len, lemma_ascending_rank,
};
use crate::commands::{
    action_views, Action, ActionView, CommandType, LogLine, RenderCommand, RenderThreadCommand,
    ScrollCommand,
};
use crate::compositor::{
    copy_name, listed_output_views, optional_chars, same_name, workspace_views, Event, EventView,
    ListedOutput, ListedOutputView, Window, WindowLayout, Workspace, WorkspaceView,
};
use crate::config::{config_names, DaemonConfig, OutputConfig, OutputConfigView, RenderMode};
use crate::consistency::{
    events_keep_inv, lemma_activated_ids, lemma_by_id, lemma_position_unaffected,
    lemma_with_active_window, lemma_with_layouts, lemma_with_workspaces, reconfiguration_keeps_inv,
};
use crate::lookup::{first_index, is_first, lemma_first_index};
use crate::model::{
    acquainted, activated, activated_workspace, active_column, active_ids, active_window_column,
    are_redraws, are_responses, column_state, config_applied, configured_outputs, drawn_mode,
    effective_entries, entry_applied, focus_changed, fresh_output, is_active_window, is_after,
    is_column_percent, is_current_position, is_expected, is_output_column, is_redraw, is_response,
    is_window_closed, layouts_changed_on, leads_to, lemma_active_ids_push, lemma_only_active_push,
    lemma_push_response, listed, only_active, opened_on, output_index, output_names,
    output_of_workspace, output_row, push_new, reconfigured, refreshed, responds, unacquainted,
    window_closed, window_opened, with_active, with_active_window, with_workspaces, workspace_ids,
    workspace_index, AgentView, OutputView,
};
use crate::percent::{centre, index_scroll_percent, start, workspace_scroll_percent, ScrollPercent};
use crate::windows::{
    by_id, find_focused, find_replacement, index_windows, is_focused_pick, move_focus,
    windows_by_id, with_layouts, workspace_of, workspace_of_opt,
};

verus! {

broadcast use vstd::std_specs::hash::group_hash_axioms;

/// What is drawn on an output, and which workspaces it has.
#[derive(Debug)]
pub struct OutputState {
    pub current_image: String,
    pub mode: Option<RenderMode>,
    pub max_workspace_idx: u8,
    pub active_workspace_id: Option<u64>,
    pub active_workspace_idx: Option<u8>,
}

/// The agent's knowledge of the compositor.
pub struct NiriProcessor {
    config: DaemonConfig,
    outputs: Vec<(String, OutputState)>,
    workspaces: Vec<Workspace>,
    windows: HashMap<u64, Window>,
}

/// The mathematical content of a named output.
pub open spec fn output_view(o: (String, OutputState)) -> OutputView {
    OutputView {
        name: o.0@,
        image: o.1.current_image@,
        mode: o.1.mode,
        max_workspace_idx: o.1.max_workspace_idx,
        active_workspace_id: o.1.active_workspace_id,
        active_workspace_idx: o.1.active_workspace_idx,
    }
}

/// The contents of a list of named outputs.
pub open spec fn output_views(outputs: Seq<(String, OutputState)>) -> Seq<OutputView> {
    outputs.map_values(|o: (String, OutputState)| output_view(o))
}

impl View for NiriProcessor {
    type V = AgentView;

    closed spec fn view(&self) -> AgentView {
        AgentView {
            config: self.config@,
            outputs: output_views(self.outputs@),
            workspaces: workspace_views(self.workspaces@),
            windows: self.windows@,
        }
    }
}

impl NiriProcessor {
    /// What the agent knows fits together.
    pub open spec fn wf(&self) -> bool {
        self@.inv()
    }

    /// Position of the first workspace with this id.
    fn find_workspace(&self, id: u64) -> (res: Option<usize>)
        ensures
            match res {
                Some(i) => workspace_index(self@.workspaces, id) == Some(i as int) && i
                    < self.workspaces@.len(),
                None => workspace_index(self@.workspaces, id) is None,
            },
    {
        let ghost ids: Seq<u64> = workspace_ids(self@.workspaces);
        proof {
            lemma_first_index(ids, id);
        }
        let mut i: usize = 0;
        while i < self.workspaces.len()
            invariant
                i <= self.workspaces@.len(),
                ids == workspace_ids(self@.workspaces),
                forall|j: int| 0 <= j < i ==> #[trigger] ids[j] != id,
                forall|k: int| is_first(ids, id, k) ==> first_index(ids, id) == Some(k),
                first_index(ids, id) matches Some(k) ==> is_first(ids, id, k),
            decreases self.workspaces@.len() - i,
        {
            assert(ids[i as int] == self.workspaces@[i as int].id);
            if self.workspaces[i].id == id {
                assert(is_first(ids, id, i as int));
                return Some(i);
            }
            i = i + 1;
        }
        None
    }

    /// Position of the first output with this name.
    fn find_output(&self, name: &String) -> (res: Option<usize>)
        ensures
            match res {
                Some(k) => output_index(self@.outputs, name@) == Some(k as int) && k
                    < self.outputs@.len(),
                None => output_index(self@.outputs, name@) is None,
            },
    {
        let ghost names: Seq<Seq<char>> = output_names(self@.outputs);
        proof {
            lemma_first_index(names, name@);
        }
        let mut k: usize = 0;
        while k < self.outputs.len()
            invariant
                k <= self.outputs@.len(),
                names == output_names(self@.outputs),
                forall|j: int| 0 <= j < k ==> #[trigger] names[j] != name@,
                forall|i: int| is_first(names, name@, i) ==> first_index(names, name@) == Some(i),
                first_index(names, name@) matches Some(i) ==> is_first(names, name@, i),
            decreases self.outputs@.len() - k,
        {
            assert(names[k as int] == self.outputs@[k as int].0@);
            if self.outputs[k].0 == *name {
                assert(is_first(names, name@, k as int));
                return Some(k);
            }
            k = k + 1;
        }
        None
    }

    /// The first workspace with this id.
    pub fn get_workspace(&self, workspace_id: u64) -> (res: Option<&Workspace>)
        ensures
            match res {
                Some(w) => self@.workspace(workspace_id) == Some(w@),
                None => self@.workspace(workspace_id) is None,
            },
    {
        match self.find_workspace(workspace_id) {
            Some(i) => Some(&self.workspaces[i]),
            None => None,
        }
    }

    /// Whether the first workspace with this id is there and active.
    pub fn is_workspace_active(&self, workspace_id: u64) -> (res: bool)
        ensures
            res == self@.is_active(workspace_id),
    {
        match self.get_workspace(workspace_id) {
            Some(w) => w.is_active,
            None => false,
        }
    }

    /// Which of the workspace's columns is active, counted from one, and how many there are. Where
    /// the active window does not tell, the column of the window `focused` counts.
    pub fn column_scroll_state(&self, workspace_id: u64, focused: Option<Window>) -> (res: Option<
        (usize, usize),
    >)
        ensures
            match res {
                Some(s) => column_state(self@, workspace_id, focused) == Some(
                    (s.0 as nat, s.1 as nat),
                ),
                None => column_state(self@, workspace_id, focused) is None,
            },
    {
        let workspace: &Workspace = match self.get_workspace(workspace_id) {
            Some(w) => w,
            None => return None,
        };
        proof {
            lemma_first_index(workspace_ids(self@.workspaces), workspace_id);
        }
        assert(workspace.id == workspace_id);
        let columns_found: Vec<usize> = collect_columns(&self.windows, workspace_id);
        let mut active: Option<usize> = None;
        if let Some(window_id) = workspace.active_window_id {
            if let Some(w) = self.windows.get(&window_id) {
                if w.workspace_id == Some(workspace_id) && !w.is_floating {
                    if let Some(pos) = w.layout.pos_in_scrolling_layout {
                        active = Some(pos.0);
                    }
                }
            }
        }
        assert(active == active_window_column(self@.windows, workspace@));
        if active.is_none() {
            if let Some(w) = focused {
                if let Some(pos) = w.layout.pos_in_scrolling_layout {
                    active = Some(pos.0);
                }
            }
        }
        assert(active == active_column(self@.windows, workspace@, focused));
        let active_column_idx: usize = match active {
            Some(c) => c,
            None => return None,
        };
        proof {
            lemma_ascending_len(columns_found@);
        }
        let mut i: usize = 0;
        while i < columns_found.len()
            invariant
                i <= columns_found@.len(),
                ascending(columns_found@),
                columns_found@.to_set() == columns(self@.windows, workspace_id),
                columns(self@.windows, workspace_id).len() == columns_found@.len(),
                self@.workspace(workspace_id) == Some(workspace@),
                active_column(self@.windows, workspace@, focused) == Some(active_column_idx),
                forall|j: int| 0 <= j < i ==> columns_found@[j] != active_column_idx,
            decreases columns_found@.len() - i,
        {
            if columns_found[i] == active_column_idx {
                proof {
                    lemma_ascending_rank(columns_found@, i as int);
                    assert(columns_found@.to_set().contains(columns_found@[i as int]));
                }
                return Some((i + 1, columns_found.len()));
            }
            i = i + 1;
        }
        proof {
            assert(!columns_found@.contains(active_column_idx));
            assert(!columns(self@.windows, workspace_id).contains(active_column_idx));
        }
        None
    }

    /// Which of the workspace's columns is active, counted from one, and how many there are. Where
    /// the active window does not tell, the column of a focused window counts.
    pub fn get_active_column_scroll_state(&self, workspace_id: u64) -> (res: Option<(usize, usize)>)
        ensures
            exists|pick: Option<Window>| #[trigger]
                is_focused_pick(self@.windows, workspace_id, pick) && match res {
                    Some(s) => column_state(self@, workspace_id, pick) == Some(
                        (s.0 as nat, s.1 as nat),
                    ),
                    None => column_state(self@, workspace_id, pick) is None,
                },
    {
        let focused: Option<Window> = find_focused(&self.windows, workspace_id);
        self.column_scroll_state(workspace_id, focused)
    }

    /// How far the active column is along the workspace; the middle, where no column is active.
    pub fn get_column_scroll_percent_for_workspace(&self, workspace_id: u64) -> (res: ScrollPercent)
        ensures
            is_column_percent(self@, workspace_id, res),
            res.wf(),
    {
        match self.get_active_column_scroll_state(workspace_id) {
            Some((active_rank, column_count)) => index_scroll_percent(active_rank, column_count),
            None => centre(),
        }
    }

    /// Where the image of the output goes in the mode, with the output as it is. A static image,
    /// and that of an unknown output, goes to the start.
    pub fn get_current_position_for_output(&self, output_name: &String, mode: RenderMode) -> (res: (
        ScrollPercent,
        ScrollPercent,
    ))
        ensures
            is_current_position(self@, output_name@, mode, res),
    {
        let k: usize = match self.find_output(output_name) {
            Some(k) => k,
            None => return (start(), start()),
        };
        let output: &OutputState = &self.outputs[k].1;
        let ghost o: OutputView = self@.outputs[k as int];
        let active_workspace_idx: u8 = output.active_workspace_idx.unwrap_or(1);
        let row: ScrollPercent = workspace_scroll_percent(
            active_workspace_idx,
            output.max_workspace_idx,
        );
        let column: ScrollPercent = match output.active_workspace_id {
            Some(workspace_id) => self.get_column_scroll_percent_for_workspace(workspace_id),
            None => centre(),
        };
        assert(is_output_column(self@, o, column));
        assert(row == output_row(o));
        match mode {
            RenderMode::Static => (start(), start()),
            RenderMode::ScrollVertical => (centre(), row),
            RenderMode::ScrollHorizontal => (column, centre()),
            RenderMode::ScrollBoth => (column, row),
        }
    }

    /// What looking at a known workspace leads to: a scroll command if the output of the workspace
    /// scrolls, with a verbose line before it, or a log line if the output is not configured.
    pub fn gen_scroll_cmd_for_workspace_id(&self, id: u64) -> (res: Option<Action>)
        requires
            self@.workspace(id) is Some,
        ensures
            match res {
                Some(a) => responds(self@, id) && is_response(self@, id, a@),
                None => !responds(self@, id),
            },
            res matches Some(Action::Handle(command)) ==> command.announced(),
    {
        let workspace: &Workspace = match self.get_workspace(id) {
            Some(w) => w,
            None => return None,
        };
        let output_name: String = match &workspace.output {
            Some(o) => o.clone(),
            None => return None,
        };
        let k: usize = match self.find_output(&output_name) {
            Some(k) => k,
            None => return Some(Action::Log(LogLine::OutputNotConfigured(output_name))),
        };
        let output: &OutputState = &self.outputs[k].1;
        assert(self@.output(output_name@) == Some(output_view(self.outputs@[k as int])));
        let column: ScrollPercent = self.get_column_scroll_percent_for_workspace(id);
        let row: ScrollPercent = workspace_scroll_percent(workspace.idx, output.max_workspace_idx);
        let (position_x, position_y): (ScrollPercent, ScrollPercent) = match output.mode {
            None => return None,
            Some(RenderMode::Static) => return None,
            Some(RenderMode::ScrollVertical) => (centre(), row),
            Some(RenderMode::ScrollHorizontal) => (column, centre()),
            Some(RenderMode::ScrollBoth) => (column, row),
        };
        Some(
            Action::Handle(
                CommandType::Tc(
                    RenderThreadCommand::Scroll(
                        ScrollCommand { output: output_name, position_x, position_y },
                    ),
                ),
            ),
        )
    }

    /// What looking at the workspace leads to, if it is active.
    pub fn emit_scroll_for_workspace_if_active(&self, workspace_id: u64) -> (res: Option<Action>)
        ensures
            match res {
                Some(a) => {
                    &&& self@.is_active(workspace_id)
                    &&& responds(self@, workspace_id)
                    &&& is_response(self@, workspace_id, a@)
                },
                None => !(self@.is_active(workspace_id) && responds(self@, workspace_id)),
            },
    {
        if self.is_workspace_active(workspace_id) {
            self.gen_scroll_cmd_for_workspace_id(workspace_id)
        } else {
            None
        }
    }

    /// What looking at those of the workspaces that are active leads to.
    pub fn emit_scroll_for_active_workspaces(&self, ids: &Vec<u64>) -> (res: Vec<Action>)
        ensures
            are_responses(self@, only_active(self@, ids@), action_views(res@)),
    {
        let mut actions: Vec<Action> = Vec::new();
        let mut i: usize = 0;
        proof {
            reveal(Seq::filter);
        }
        while i < ids.len()
            invariant
                i <= ids@.len(),
                are_responses(
                    self@,
                    only_active(self@, ids@.take(i as int)),
                    action_views(actions@),
                ),
            decreases ids@.len() - i,
        {
            let ghost seen: Seq<u64> = only_active(self@, ids@.take(i as int));
            let ghost before: Seq<ActionView> = action_views(actions@);
            proof {
                lemma_only_active_push(self@, ids@, i as int);
            }
            let emitted: Option<Action> = self.emit_scroll_for_workspace_if_active(ids[i]);
            if let Some(action) = emitted {
                proof {
                    lemma_push_response(self@, seen, before, ids@[i as int], Some(action@));
                }
                actions.push(action);
                assert(action_views(actions@) =~= before.push(action@));
            } else {
                proof {
                    if self@.is_active(ids@[i as int]) {
                        lemma_push_response(self@, seen, before, ids@[i as int], None);
                    }
                }
            }
            i = i + 1;
        }
        assert(ids@.take(i as int) =~= ids@);
        actions
    }

    /// What looking at every active workspace leads to.
    pub fn reseat_scroll_positions(&self) -> (res: Vec<Action>)
        ensures
            are_responses(self@, active_ids(self@.workspaces), action_views(res@)),
    {
        let mut actions: Vec<Action> = Vec::new();
        let ghost all: Seq<WorkspaceView> = self@.workspaces;
        let mut i: usize = 0;
        proof {
            reveal(Seq::filter);
        }
        while i < self.workspaces.len()
            invariant
                i <= self.workspaces@.len(),
                all == self@.workspaces,
                are_responses(self@, active_ids(all.take(i as int)), action_views(actions@)),
            decreases self.workspaces@.len() - i,
        {
            let ghost seen: Seq<u64> = active_ids(all.take(i as int));
            let ghost before: Seq<ActionView> = action_views(actions@);
            let id: u64 = self.workspaces[i].id;
            proof {
                lemma_active_ids_push(all, i as int);
            }
            assert(all[i as int] == self.workspaces@[i as int]@);
            if self.workspaces[i].is_active {
                proof {
                    lemma_first_index(workspace_ids(all), id);
                    assert(workspace_ids(all)[i as int] == id);
                }
                let emitted: Option<Action> = self.gen_scroll_cmd_for_workspace_id(id);
                if let Some(action) = emitted {
                    proof {
                        lemma_push_response(self@, seen, before, id, Some(action@));
                    }
                    actions.push(action);
                    assert(action_views(actions@) =~= before.push(action@));
                } else {
                    proof {
                        lemma_push_response(self@, seen, before, id, None);
                    }
                }
            }
            i = i + 1;
        }
        assert(all.take(i as int) =~= all);
        actions
    }

    /// The command to look again at which outputs there are.
    pub fn poke() -> (res: Action)
        ensures
            res@ == ActionView::Poke,
    {
        Action::Handle(CommandType::Tc(RenderThreadCommand::Poke))
    }

    /// Takes over another set of workspaces: each output learns its last and its active workspace
    /// anew.
    pub fn update_workspaces(&mut self, workspaces: &Vec<Workspace>)
        ensures
            final(self)@ == with_workspaces(old(self)@, workspace_views(workspaces@)),
            old(self).wf() ==> final(self).wf(),
    {
        let ghost before: Seq<OutputView> = self@.outputs;
        let ghost all: Seq<WorkspaceView> = workspace_views(workspaces@);
        let mut k: usize = 0;
        while k < self.outputs.len()
            invariant
                k <= self.outputs@.len(),
                before.len() == self.outputs@.len(),
                before == old(self)@.outputs,
                self@ == (AgentView { outputs: self@.outputs, ..old(self)@ }),
                forall|j: int|
                    0 <= j < k ==> #[trigger] self@.outputs[j] == refreshed(
                        before,
                        j,
                        Seq::empty(),
                    ),
                forall|j: int| k <= j < before.len() ==> #[trigger] self@.outputs[j] == before[j],
            decreases self.outputs@.len() - k,
        {
            let ghost outputs_then: Seq<OutputView> = self@.outputs;
            assert(outputs_then[k as int] == before[k as int]);
            self.outputs[k].1.max_workspace_idx = 0;
            self.outputs[k].1.active_workspace_id = None;
            self.outputs[k].1.active_workspace_idx = None;
            assert(self@.outputs =~= outputs_then.update(
                k as int,
                refreshed(before, k as int, Seq::empty()),
            ));
            k = k + 1;
        }
        let mut i: usize = 0;
        assert(all.take(0) =~= Seq::empty());
        while i < workspaces.len()
            invariant
                i <= workspaces@.len(),
                all == workspace_views(workspaces@),
                before.len() == self.outputs@.len(),
                before == old(self)@.outputs,
                self@ == (AgentView { outputs: self@.outputs, ..old(self)@ }),
                forall|j: int|
                    0 <= j < before.len() ==> #[trigger] self@.outputs[j] == refreshed(
                        before,
                        j,
                        all.take(i as int),
                    ),
            decreases workspaces@.len() - i,
        {
            let ghost outputs_then: Seq<OutputView> = self@.outputs;
            let workspace: &Workspace = &workspaces[i];
            assert(all.take(i + 1).drop_last() =~= all.take(i as int));
            assert(all.take(i + 1).last() == workspace@);
            assert(output_names(outputs_then) =~= output_names(before));
            if let Some(name) = &workspace.output {
                proof {
                    lemma_first_index(output_names(before), name@);
                }
                if let Some(at) = self.find_output(name) {
                    assert(output_names(before)[at as int] == name@);
                    if workspace.idx > self.outputs[at].1.max_workspace_idx {
                        self.outputs[at].1.max_workspace_idx = workspace.idx;
                    }
                    if workspace.is_active {
                        self.outputs[at].1.active_workspace_id = Some(workspace.id);
                        self.outputs[at].1.active_workspace_idx = Some(workspace.idx);
                    }
                    assert(self@.outputs =~= outputs_then.update(
                        at as int,
                        refreshed(before, at as int, all.take(i + 1)),
                    ));
                }
            }
            i = i + 1;
        }
        assert(all.take(i as int) =~= all);
        self.workspaces = copy_workspaces(workspaces);
        assert(self@.outputs =~= with_workspaces(old(self)@, all).outputs);
        proof {
            if old(self).wf() {
                events_keep_inv(
                    old(self)@,
                    EventView::WorkspacesChanged { workspaces: all },
                    self@,
                );
            }
        }
    }

    /// Takes over another set of windows.
    pub fn update_windows(&mut self, windows: Vec<Window>)
        ensures
            final(self)@ == (AgentView { windows: by_id(windows@), ..old(self)@ }),
            old(self).wf() ==> final(self).wf(),
    {
        self.windows = index_windows(windows);
        proof {
            if old(self).wf() {
                events_keep_inv(old(self)@, EventView::WindowsChanged { windows: windows@ }, self@);
            }
        }
    }

    /// A workspace was activated: it becomes the active one of its output, and the focused one if
    /// it also got the focus.
    pub fn handle_workspace_activated(&mut self, id: u64, focused: bool)
        ensures
            final(self)@ == activated(old(self)@, id, focused),
            old(self).wf() ==> final(self).wf(),
    {
        let found: Option<usize> = self.find_workspace(id);
        let (output_name, idx): (Option<String>, u8) = match found {
            Some(i) => (copy_name(&self.workspaces[i].output), self.workspaces[i].idx),
            None => (None, 0),
        };
        let ghost output: Option<Seq<char>> = optional_chars(output_name);
        let ghost before: Seq<WorkspaceView> = self@.workspaces;
        proof {
            lemma_first_index(workspace_ids(before), id);
        }
        assert(output == output_of_workspace(self@, id));
        let mut i: usize = 0;
        while i < self.workspaces.len()
            invariant
                i <= self.workspaces@.len(),
                before.len() == self.workspaces@.len(),
                before == old(self)@.workspaces,
                output == optional_chars(output_name),
                self@ == (AgentView { workspaces: self@.workspaces, ..old(self)@ }),
                forall|j: int|
                    0 <= j < i ==> #[trigger] self@.workspaces[j] == activated_workspace(
                        before[j],
                        output,
                        id,
                        focused,
                    ),
                forall|j: int|
                    i <= j < before.len() ==> #[trigger] self@.workspaces[j] == before[j],
            decreases self.workspaces@.len() - i,
        {
            let ghost workspaces_then: Seq<WorkspaceView> = self@.workspaces;
            assert(workspaces_then[i as int] == self.workspaces@[i as int]@);
            let got_activated: bool = self.workspaces[i].id == id;
            if same_name(&self.workspaces[i].output, &output_name) {
                self.workspaces[i].is_active = got_activated;
            }
            if focused {
                self.workspaces[i].is_focused = got_activated;
            }
            assert(self@.workspaces =~= workspaces_then.update(
                i as int,
                activated_workspace(before[i as int], output, id, focused),
            ));
            i = i + 1;
        }
        assert(self@.workspaces =~= activated(old(self)@, id, focused).workspaces);
        if let Some(name) = output_name {
            if let Some(k) = self.find_output(&name) {
                let ghost outputs_then: Seq<OutputView> = self@.outputs;
                self.outputs[k].1.active_workspace_id = Some(id);
                self.outputs[k].1.active_workspace_idx = Some(idx);
                assert(workspace_ids(before)[found->0 as int] == id);
                assert(self@.outputs =~= outputs_then.update(
                    k as int,
                    with_active(outputs_then[k as int], old(self)@.workspace(id)),
                ));
            }
        }
        proof {
            if old(self).wf() {
                events_keep_inv(old(self)@, EventView::WorkspaceActivated { id, focused }, self@);
            }
        }
    }

    /// Another window is the active one of the workspace.
    pub fn handle_workspace_active_window_changed(
        &mut self,
        workspace_id: u64,
        active_window_id: Option<u64>,
    )
        ensures
            final(self)@ == (AgentView {
                workspaces: with_active_window(
                    old(self)@.workspaces,
                    workspace_id,
                    active_window_id,
                ),
                ..old(self)@
            }),
            old(self).wf() ==> final(self).wf(),
    {
        if let Some(i) = self.find_workspace(workspace_id) {
            let ghost before: Seq<WorkspaceView> = self@.workspaces;
            self.workspaces[i].active_window_id = active_window_id;
            assert(self@.workspaces =~= before.update(
                i as int,
                WorkspaceView { active_window_id, ..before[i as int] },
            ));
        }
        proof {
            if old(self).wf() {
                lemma_with_active_window(old(self)@, workspace_id, active_window_id);
            }
        }
    }

    /// A window was opened, or changed. Returns the workspaces that this concerns: where the window
    /// was and where it is.
    pub fn handle_window_opened_or_changed(&mut self, window: Window) -> (res: Vec<u64>)
        ensures
            final(self)@ == window_opened(old(self)@, window),
            res@ == opened_on(old(self)@, window),
            old(self).wf() ==> final(self).wf(),
    {
        let mut workspaces_to_refresh: Vec<u64> = Vec::new();
        if let Some(existing) = self.windows.get(&window.id) {
            if let Some(workspace_id) = existing.workspace_id {
                workspaces_to_refresh.push(workspace_id);
            }
        }
        assert(workspaces_to_refresh@ =~= listed(workspace_of(self@.windows, window.id)));
        self.windows.insert(window.id, window);
        if let Some(workspace_id) = window.workspace_id {
            add_new(&mut workspaces_to_refresh, workspace_id);
        }
        if window.is_focused {
            move_focus(&mut self.windows, Some(window.id));
            if let Some(workspace_id) = window.workspace_id {
                self.handle_workspace_active_window_changed(workspace_id, Some(window.id));
            }
        }
        proof {
            if old(self).wf() {
                events_keep_inv(old(self)@, EventView::WindowOpenedOrChanged { window }, self@);
            }
        }
        workspaces_to_refresh
    }

    /// A window was closed. Returns the workspace that it was on. If the window was the active one
    /// there, a window that stands in a column of the workspace takes its place.
    pub fn handle_window_closed(&mut self, id: u64) -> (res: Option<u64>)
        requires
            windows_by_id(old(self)@.windows),
        ensures
            is_window_closed(old(self)@, id, final(self)@),
            res == workspace_of(old(self)@.windows, id),
            old(self).wf() ==> final(self).wf(),
    {
        let workspace_id: u64 = match self.windows.remove(&id) {
            Some(window) => match window.workspace_id {
                Some(workspace_id) => workspace_id,
                None => {
                    proof {
                        if old(self).wf() {
                            events_keep_inv(old(self)@, EventView::WindowClosed { id }, self@);
                        }
                    }
                    return None;
                },
            },
            None => {
                assert(self@.windows =~= old(self)@.windows.remove(id));
                return None;
            },
        };
        assert(self@.windows =~= old(self)@.windows.remove(id));
        let was_active: bool = match self.get_workspace(workspace_id) {
            Some(workspace) => match workspace.active_window_id {
                Some(active) => active == id,
                None => false,
            },
            None => false,
        };
        assert(was_active == is_active_window(old(self)@, id));
        if was_active {
            let replacement: Option<u64> = find_replacement(&self.windows, workspace_id);
            self.handle_workspace_active_window_changed(workspace_id, replacement);
            assert(self@ == window_closed(old(self)@, id, replacement));
        }
        proof {
            if old(self).wf() {
                events_keep_inv(old(self)@, EventView::WindowClosed { id }, self@);
            }
        }
        Some(workspace_id)
    }

    /// The focus went to a window, or to none. Returns the workspace of the window.
    pub fn handle_window_focus_changed(&mut self, id: Option<u64>) -> (res: Option<u64>)
        ensures
            final(self)@ == focus_changed(old(self)@, id),
            res == workspace_of_opt(old(self)@.windows, id),
            old(self).wf() ==> final(self).wf(),
    {
        let mut focused_workspace_id: Option<u64> = None;
        if let Some(window_id) = id {
            if let Some(window) = self.windows.get(&window_id) {
                focused_workspace_id = window.workspace_id;
            }
        }
        move_focus(&mut self.windows, id);
        if let Some(workspace_id) = focused_workspace_id {
            self.handle_workspace_active_window_changed(workspace_id, id);
        }
        proof {
            if old(self).wf() {
                events_keep_inv(old(self)@, EventView::WindowFocusChanged { id }, self@);
            }
        }
        focused_workspace_id
    }

    /// Windows have new places. Returns the workspaces of those that are known, each once.
    pub fn handle_window_layouts_changed(&mut self, changes: Vec<(u64, WindowLayout)>) -> (res: Vec<
        u64,
    >)
        ensures
            final(self)@ == (AgentView {
                windows: with_layouts(old(self)@.windows, changes@),
                ..old(self)@
            }),
            res@ == layouts_changed_on(old(self)@.windows, changes@),
            old(self).wf() ==> final(self).wf(),
    {
        let ghost before: Map<u64, Window> = self@.windows;
        let mut workspaces_to_refresh: Vec<u64> = Vec::new();
        let mut i: usize = 0;
        while i < changes.len()
            invariant
                i <= changes@.len(),
                before == old(self)@.windows,
                self@ == (AgentView {
                    windows: with_layouts(before, changes@.take(i as int)),
                    ..old(self)@
                }),
                workspaces_to_refresh@ == layouts_changed_on(before, changes@.take(i as int)),
            decreases changes@.len() - i,
        {
            let (window_id, layout): (u64, WindowLayout) = changes[i];
            proof {
                assert(changes@.take(i + 1).drop_last() =~= changes@.take(i as int));
                lemma_with_layouts(before, changes@.take(i as int));
                assert(before.contains_key(window_id) == self@.windows.contains_key(window_id));
            }
            if let Some(window) = self.windows.get(&window_id) {
                let mut changed: Window = *window;
                changed.layout = layout;
                self.windows.insert(window_id, changed);
                if let Some(workspace_id) = changed.workspace_id {
                    add_new(&mut workspaces_to_refresh, workspace_id);
                }
            }
            i = i + 1;
        }
        assert(changes@.take(i as int) =~= changes@);
        proof {
            if old(self).wf() {
                events_keep_inv(
                    old(self)@,
                    EventView::WindowLayoutsChanged { changes: changes@ },
                    self@,
                );
            }
        }
        workspaces_to_refresh
    }

    /// Takes over another configuration. Each entry that asks for another image or mode on a known
    /// output has that output drawn anew, at the place where it stands.
    pub fn update_config(&mut self, new_config: DaemonConfig) -> (res: Vec<Action>)
        ensures
            final(self)@ == reconfigured(old(self)@, new_config@),
            are_redraws(
                old(self)@,
                effective_entries(old(self)@.outputs, new_config@),
                action_views(res@),
            ),
            old(self).wf() ==> final(self).wf(),
    {
        let ghost pre: AgentView = self@;
        let ghost entries: Seq<OutputConfigView> = new_config@;
        let mut actions: Vec<Action> = Vec::new();
        let mut i: usize = 0;
        assert(action_views(actions@) =~= Seq::empty());
        while i < new_config.outputs.len()
            invariant
                i <= new_config.outputs@.len(),
                entries == new_config@,
                pre == old(self)@,
                self@ == (AgentView {
                    outputs: config_applied(pre.outputs, entries.take(i as int)),
                    ..pre
                }),
                are_redraws(
                    pre,
                    effective_entries(pre.outputs, entries.take(i as int)),
                    action_views(actions@),
                ),
            decreases new_config.outputs@.len() - i,
        {
            let entry: &OutputConfig = &new_config.outputs[i];
            let ghost now: AgentView = self@;
            let ghost emitted: Seq<ActionView> = action_views(actions@);
            let ghost seen: Seq<OutputConfigView> = effective_entries(
                pre.outputs,
                entries.take(i as int),
            );
            assert(entries.take(i + 1).drop_last() =~= entries.take(i as int));
            assert(entries.take(i + 1).last() == entry@);
            let new_mode: RenderMode = entry.mode.unwrap_or(RenderMode::Static);
            if let Some(k) = self.find_output(&entry.name) {
                let drawn: RenderMode = self.outputs[k].1.mode.unwrap_or(RenderMode::Static);
                assert(drawn == drawn_mode(now.outputs[k as int]));
                let needs_update: bool = self.outputs[k].1.current_image != entry.image || drawn
                    != new_mode;
                if needs_update {
                    let position: (ScrollPercent, ScrollPercent) =
                        self.get_current_position_for_output(&entry.name, new_mode);
                    proof {
                        lemma_position_unaffected(
                            pre,
                            entries.take(i as int),
                            entry.name@,
                            new_mode,
                            position,
                        );
                    }
                    let action: Action = Action::Handle(
                        CommandType::Tc(
                            RenderThreadCommand::Render(
                                RenderCommand {
                                    output: entry.name.clone(),
                                    image: entry.image.clone(),
                                    mode: new_mode,
                                    position,
                                },
                            ),
                        ),
                    );
                    let ghost a: ActionView = action@;
                    actions.push(action);
                    self.outputs[k].1.current_image = entry.image.clone();
                    self.outputs[k].1.mode = Some(new_mode);
                    proof {
                        assert(is_redraw(pre, entry@, a));
                        assert(action_views(actions@) =~= emitted.push(a));
                        assert(self@.outputs =~= entry_applied(now.outputs, entry@));
                    }
                }
            }
            i = i + 1;
        }
        assert(entries.take(i as int) =~= entries);
        self.config = new_config;
        proof {
            if old(self).wf() {
                reconfiguration_keeps_inv(old(self)@, entries);
            }
        }
        actions
    }

    /// A processor with this configuration that knows nothing of the compositor yet.
    pub fn new(config: DaemonConfig) -> (res: NiriProcessor)
        ensures
            res@ == unacquainted(config@),
            res.wf(),
    {
        let res: NiriProcessor = NiriProcessor {
            config,
            outputs: Vec::new(),
            workspaces: Vec::new(),
            windows: HashMap::new(),
        };
        assert(res@.outputs =~= Seq::empty());
        assert(res@.workspaces =~= Seq::empty());
        res
    }

    /// Takes in what the compositor lists: outputs that are enabled and configured, workspaces and
    /// windows.
    pub fn init_state(
        &mut self,
        outputs: Vec<ListedOutput>,
        workspaces: Vec<Workspace>,
        windows: Vec<Window>,
    )
        ensures
            final(self)@ == acquainted(
                old(self)@,
                listed_output_views(outputs@),
                workspace_views(workspaces@),
                windows@,
            ),
            final(self).wf(),
    {
        let ghost pre: AgentView = self@;
        let ghost all: Seq<ListedOutputView> = listed_output_views(outputs@);
        let mut i: usize = 0;
        assert(pre.outputs + configured_outputs(pre.config, all.take(0)) =~= pre.outputs);
        while i < outputs.len()
            invariant
                i <= outputs@.len(),
                all == listed_output_views(outputs@),
                pre == old(self)@,
                self@ == (AgentView {
                    outputs: pre.outputs + configured_outputs(pre.config, all.take(i as int)),
                    ..pre
                }),
            decreases outputs@.len() - i,
        {
            let ghost now: Seq<OutputView> = self@.outputs;
            let output: &ListedOutput = &outputs[i];
            assert(all.take(i + 1).drop_last() =~= all.take(i as int));
            assert(all.take(i + 1).last() == output@);
            if let Some(c) = self.config.find_output(&output.name) {
                proof {
                    lemma_first_index(config_names(pre.config), output.name@);
                    assert(config_names(pre.config)[c as int] == output.name@);
                }
                if output.enabled {
                    let state: OutputState = OutputState {
                        current_image: self.config.outputs[c].image.clone(),
                        mode: self.config.outputs[c].mode,
                        max_workspace_idx: 0,
                        active_workspace_id: None,
                        active_workspace_idx: None,
                    };
                    self.outputs.push((output.name.clone(), state));
                    assert(self@.outputs =~= now.push(fresh_output(pre.config[c as int])));
                    assert(self@.outputs =~= pre.outputs + configured_outputs(
                        pre.config,
                        all.take(i + 1),
                    ));
                }
            }
            i = i + 1;
        }
        assert(all.take(i as int) =~= all);
        let ghost listed_now: AgentView = self@;
        self.update_workspaces(&workspaces);
        self.update_windows(windows);
        proof {
            lemma_by_id(windows@);
            lemma_with_workspaces(
                AgentView { windows: by_id(windows@), ..listed_now },
                workspace_views(workspaces@),
            );
            assert(self@ == with_workspaces(
                AgentView { windows: by_id(windows@), ..listed_now },
                workspace_views(workspaces@),
            ));
        }
    }

    /// Takes in an event and returns what it leads to, in order. An activation has to be of a known
    /// workspace.
    pub fn process(&mut self, e: Event) -> (res: Vec<Action>)
        requires
            old(self).wf(),
            is_expected(old(self)@, e@),
        ensures
            is_after(old(self)@, e@, final(self)@),
            leads_to(old(self)@, e@, final(self)@, action_views(res@)),
            final(self).wf(),
    {
        let ghost pre: AgentView = self@;
        let ghost event: EventView = e@;
        let actions: Vec<Action> = self.dispatch(e);
        proof {
            events_keep_inv(pre, event, self@);
        }
        actions
    }

    /// Takes in an event, one handler for each kind.
    fn dispatch(&mut self, e: Event) -> (res: Vec<Action>)
        requires
            old(self).wf(),
            is_expected(old(self)@, e@),
        ensures
            is_after(old(self)@, e@, final(self)@),
            leads_to(old(self)@, e@, final(self)@, action_views(res@)),
    {
        match e {
            Event::WorkspacesChanged { workspaces } => {
                let mut actions: Vec<Action> = Vec::new();
                actions.push(Self::poke());
                self.update_workspaces(&workspaces);
                let mut reseated: Vec<Action> = self.reseat_scroll_positions();
                let ghost r: Seq<Action> = reseated@;
                actions.append(&mut reseated);
                assert(action_views(actions@).drop_first() =~= action_views(r));
                actions
            },
            Event::WorkspaceActivated { id, focused } => {
                self.handle_workspace_activated(id, focused);
                proof {
                    lemma_activated_ids(old(self)@, id, focused);
                }
                let mut actions: Vec<Action> = Vec::new();
                let emitted: Option<Action> = self.gen_scroll_cmd_for_workspace_id(id);
                assert(are_responses(self@, Seq::empty(), Seq::empty()));
                assert(Seq::<u64>::empty().push(id) =~= seq![id]);
                if let Some(action) = emitted {
                    proof {
                        lemma_push_response(self@, Seq::empty(), Seq::empty(), id, Some(action@));
                    }
                    let ghost a: ActionView = action@;
                    actions.push(action);
                    assert(action_views(actions@) =~= Seq::empty().push(a));
                } else {
                    proof {
                        lemma_push_response(self@, Seq::empty(), Seq::empty(), id, None);
                    }
                    assert(action_views(actions@) =~= Seq::empty());
                }
                actions
            },
            Event::WorkspaceActiveWindowChanged { workspace_id, active_window_id } => {
                self.handle_workspace_active_window_changed(workspace_id, active_window_id);
                let mut ids: Vec<u64> = Vec::new();
                ids.push(workspace_id);
                assert(ids@ =~= seq![workspace_id]);
                self.emit_scroll_for_active_workspaces(&ids)
            },
            Event::WindowsChanged { windows } => {
                self.update_windows(windows);
                self.reseat_scroll_positions()
            },
            Event::WindowOpenedOrChanged { window } => {
                let ids: Vec<u64> = self.handle_window_opened_or_changed(window);
                self.emit_scroll_for_active_workspaces(&ids)
            },
            Event::WindowClosed { id } => {
                let concerned: Option<u64> = self.handle_window_closed(id);
                let ids: Vec<u64> = list_of(concerned);
                self.emit_scroll_for_active_workspaces(&ids)
            },
            Event::WindowFocusChanged { id } => {
                let concerned: Option<u64> = self.handle_window_focus_changed(id);
                let ids: Vec<u64> = list_of(concerned);
                self.emit_scroll_for_active_workspaces(&ids)
            },
            Event::WindowLayoutsChanged { changes } => {
                let ids: Vec<u64> = self.handle_window_layouts_changed(changes);
                let mut actions: Vec<Action> = self.emit_scroll_for_active_workspaces(&ids);
                let ghost r: Seq<Action> = actions@;
                actions.push(Self::poke());
                assert(action_views(actions@).drop_last() =~= action_views(r));
                actions
            },
            Event::Other => {
                let actions: Vec<Action> = Vec::new();
                assert(action_views(actions@) =~= Seq::empty());
                actions
            },
        }
    }
}

/// A list of one id, or of none.
fn list_of(id: Option<u64>) -> (res: Vec<u64>)
    ensures
        res@ == listed(id),
{
    let mut res: Vec<u64> = Vec::new();
    if let Some(id) = id {
        res.push(id);
    }
    assert(res@ =~= listed(id));
    res
}

/// A copy of a list of workspaces.
fn copy_workspaces(workspaces: &Vec<Workspace>) -> (res: Vec<Workspace>)
    ensures
        workspace_views(res@) == workspace_views(workspaces@),
{
    let mut res: Vec<Workspace> = Vec::new();
    let mut i: usize = 0;
    while i < workspaces.len()
        invariant
            i <= workspaces@.len(),
            res@.len() == i,
            forall|j: int| 0 <= j < i ==> (#[trigger] res@[j])@ == workspaces@[j]@,
        decreases workspaces@.len() - i,
    {
        res.push(workspaces[i].clone());
        i = i + 1;
    }
    assert(workspace_views(res@) =~= workspace_views(workspaces@));
    res
}

/// Adds the id at the end of the list, unless it is there.
fn add_new(ids: &mut Vec<u64>, id: u64)
    ensures
        final(ids)@ == push_new(old(ids)@, Some(id)),
{
    let mut i: usize = 0;
    while i < ids.len()
        invariant
            i <= ids@.len(),
            ids@ == old(ids)@,
            forall|j: int| 0 <= j < i ==> ids@[j] != id,
        decreases ids@.len() - i,
    {
        if ids[i] == id {
            assert(ids@.contains(ids@[i as int]));
            return ;
        }
        i = i + 1;
    }
    ids.push(id);
}

} // verus!
