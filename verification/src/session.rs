//! A session with the compositor, turn by turn. Each turn reads one event and, if that worked,
//! polls the queue of commands once.

use vstd::prelude::*;

use crate::commands::{action_views, Action, ActionView, LogLine};
use crate::compositor::{
    listed_output_views, workspace_views, Event, ListedOutput, Window, Workspace,
};
use crate::config::{DaemonCommand, DaemonConfig};
use crate::model::{
    acquainted, active_ids, are_redraws, are_responses, effective_entries, is_after, is_expected,
    leads_to, reconfigured, unacquainted,
};
use crate::processor::NiriProcessor;

verus! {

/// What polling the queue of commands gave.
#[derive(Debug)]
pub enum QueuePoll {
    Command(DaemonCommand),
    /// No command was waiting.
    Empty,
    /// The queue could not be locked, for this reason.
    LockFailed(String),
}

/// The first part of a turn.
pub struct Turn {
    /// What to do, in order.
    pub actions: Vec<Action>,
    /// Whether to poll the queue of commands after that.
    pub poll_queue: bool,
}

impl NiriProcessor {
    /// Opens the session with what the compositor lists. Returns the processor and what it asks for
    /// first: every output is put where its active workspace stands.
    pub fn open(
        config: DaemonConfig,
        outputs: Vec<ListedOutput>,
        workspaces: Vec<Workspace>,
        windows: Vec<Window>,
    ) -> (res: (NiriProcessor, Vec<Action>))
        ensures
            res.0.wf(),
            res.0@ == acquainted(
                unacquainted(config@),
                listed_output_views(outputs@),
                workspace_views(workspaces@),
                windows@,
            ),
            are_responses(res.0@, active_ids(res.0@.workspaces), action_views(res.1@)),
    {
        let mut processor: NiriProcessor = NiriProcessor::new(config);
        processor.init_state(outputs, workspaces, windows);
        let actions: Vec<Action> = processor.reseat_scroll_positions();
        (processor, actions)
    }

    /// Goes on after an attempt to read an event: takes in the event, or reports why there is none.
    pub fn after_read(&mut self, read: Result<Event, String>) -> (res: Turn)
        requires
            old(self).wf(),
            read matches Ok(e) ==> is_expected(old(self)@, e@),
        ensures
            final(self).wf(),
            match read {
                Ok(e) => {
                    &&& is_after(old(self)@, e@, final(self)@)
                    &&& leads_to(old(self)@, e@, final(self)@, action_views(res.actions@))
                    &&& res.poll_queue
                },
                Err(reason) => {
                    &&& final(self)@ == old(self)@
                    &&& action_views(res.actions@) == seq![ActionView::EventReadFailed(reason@)]
                    &&& !res.poll_queue
                },
            },
    {
        match read {
            Ok(e) => Turn { actions: self.process(e), poll_queue: true },
            Err(reason) => {
                let ghost chars: Seq<char> = reason@;
                let mut actions: Vec<Action> = Vec::new();
                actions.push(Action::Log(LogLine::EventReadFailed(reason)));
                assert(action_views(actions@) =~= seq![ActionView::EventReadFailed(chars)]);
                Turn { actions, poll_queue: false }
            },
        }
    }

    /// Goes on after a poll of the queue of commands. Only a new configuration has an effect.
    pub fn after_poll(&mut self, poll: QueuePoll) -> (res: Vec<Action>)
        ensures
            old(self).wf() ==> final(self).wf(),
            match poll {
                QueuePoll::Command(DaemonCommand::ReloadConfig(config)) => {
                    &&& final(self)@ == reconfigured(old(self)@, config@)
                    &&& are_redraws(
                        old(self)@,
                        effective_entries(old(self)@.outputs, config@),
                        action_views(res@),
                    )
                },
                QueuePoll::LockFailed(reason) => {
                    &&& final(self)@ == old(self)@
                    &&& action_views(res@) == seq![ActionView::QueueLockFailed(reason@)]
                },
                _ => final(self)@ == old(self)@ && res@.len() == 0,
            },
    {
        match poll {
            QueuePoll::Command(command) => match command {
                DaemonCommand::ReloadConfig(config) => self.update_config(config),
                DaemonCommand::Lock => Vec::new(),
                DaemonCommand::Stop => Vec::new(),
            },
            QueuePoll::Empty => Vec::new(),
            QueuePoll::LockFailed(reason) => {
                let ghost chars: Seq<char> = reason@;
                let mut actions: Vec<Action> = Vec::new();
                actions.push(Action::Log(LogLine::QueueLockFailed(reason)));
                assert(action_views(actions@) =~= seq![ActionView::QueueLockFailed(chars)]);
                actions
            },
        }
    }
}

} // verus!
