//! What the agent asks of the daemon.

use vstd::prelude::*;

use crate::config::RenderMode;
use crate::percent::ScrollPercent;

verus! {

/// Draw an image on an output.
#[derive(Debug, PartialEq, Eq)]
pub struct RenderCommand {
    pub output: String,
    pub image: String,
    pub mode: RenderMode,
    /// Horizontal and vertical scroll position of the image.
    pub position: (ScrollPercent, ScrollPercent),
}

/// Move the image of an output.
#[derive(Debug, PartialEq, Eq)]
pub struct ScrollCommand {
    pub output: String,
    pub position_x: ScrollPercent,
    pub position_y: ScrollPercent,
}

/// A command for the render threads.
#[derive(Debug, PartialEq, Eq)]
pub enum RenderThreadCommand {
    Render(RenderCommand),
    Scroll(ScrollCommand),
    /// Look again at which outputs there are.
    Poke,
}

/// A command that the daemon dispatches.
#[derive(Debug, PartialEq, Eq)]
pub enum CommandType {
    /// For the render threads.
    Tc(RenderThreadCommand),
}

impl CommandType {
    /// A verbose line tells of the command before it is handed over. That is so for scroll
    /// commands alone.
    pub open spec fn announced(self) -> bool {
        self matches CommandType::Tc(RenderThreadCommand::Scroll(_))
    }

    /// Whether to write one verbose line before the command is handed over.
    pub fn is_announced(&self) -> (res: bool)
        ensures
            res == self.announced(),
    {
        match self {
            CommandType::Tc(RenderThreadCommand::Scroll(_)) => true,
            _ => false,
        }
    }
}

/// Something worth telling the user.
#[derive(Debug, PartialEq, Eq)]
pub enum LogLine {
    /// A workspace is on this output, which the configuration does not name.
    OutputNotConfigured(String),
    /// An event could not be read, for this reason.
    EventReadFailed(String),
    /// The queue of commands could not be locked, for this reason.
    QueueLockFailed(String),
}

/// How much a log line matters.
#[derive(Clone, Copy, Debug, PartialEq, Eq, Structural)]
pub enum LogLevel {
    Log,
    Debug,
}

impl LogLine {
    /// How much the line matters.
    pub fn level(&self) -> (res: LogLevel)
        ensures
            res == (match *self {
                LogLine::EventReadFailed(_) => LogLevel::Debug,
                _ => LogLevel::Log,
            }),
    {
        match self {
            LogLine::OutputNotConfigured(_) => LogLevel::Log,
            LogLine::EventReadFailed(_) => LogLevel::Debug,
            LogLine::QueueLockFailed(_) => LogLevel::Log,
        }
    }

    /// The line as the user reads it.
    pub fn text(&self) -> (res: String)
        ensures
            res@ == (match *self {
                LogLine::OutputNotConfigured(name) => name@ + " not found in config; ignoring"@,
                LogLine::EventReadFailed(reason) => "event read failed "@ + reason@,
                LogLine::QueueLockFailed(reason) => "error acquiring channel lock: "@ + reason@,
            }),
    {
        match self {
            LogLine::OutputNotConfigured(name) => name.clone().concat(
                " not found in config; ignoring",
            ),
            LogLine::EventReadFailed(reason) => "event read failed ".to_string().concat(
                reason.as_str(),
            ),
            LogLine::QueueLockFailed(reason) => "error acquiring channel lock: ".to_string().concat(
                reason.as_str(),
            ),
        }
    }
}

/// What the caller has to do next for the agent, in order.
#[derive(Debug, PartialEq, Eq)]
pub enum Action {
    /// Hand a command to the daemon.
    Handle(CommandType),
    /// Log a line.
    Log(LogLine),
}

/// The mathematical content of an [`Action`].
pub enum ActionView {
    Render {
        output: Seq<char>,
        image: Seq<char>,
        mode: RenderMode,
        position: (ScrollPercent, ScrollPercent),
    },
    Scroll { output: Seq<char>, position: (ScrollPercent, ScrollPercent) },
    Poke,
    OutputNotConfigured(Seq<char>),
    EventReadFailed(Seq<char>),
    QueueLockFailed(Seq<char>),
}

impl View for Action {
    type V = ActionView;

    open spec fn view(&self) -> ActionView {
        match *self {
            Action::Handle(CommandType::Tc(RenderThreadCommand::Render(c))) => ActionView::Render {
                output: c.output@,
                image: c.image@,
                mode: c.mode,
                position: c.position,
            },
            Action::Handle(CommandType::Tc(RenderThreadCommand::Scroll(c))) => ActionView::Scroll {
                output: c.output@,
                position: (c.position_x, c.position_y),
            },
            Action::Handle(CommandType::Tc(RenderThreadCommand::Poke)) => ActionView::Poke,
            Action::Log(LogLine::OutputNotConfigured(s)) => ActionView::OutputNotConfigured(s@),
            Action::Log(LogLine::EventReadFailed(s)) => ActionView::EventReadFailed(s@),
            Action::Log(LogLine::QueueLockFailed(s)) => ActionView::QueueLockFailed(s@),
        }
    }
}

/// The contents of a list of actions.
pub open spec fn action_views(actions: Seq<Action>) -> Seq<ActionView> {
    actions.map_values(|a: Action| a@)
}

} // verus!
