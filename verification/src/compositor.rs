//! What the compositor tells: its workspaces, its windows and the events that change them.

use vstd::prelude::*;

verus! {

/// A workspace of the compositor.
#[derive(Debug, PartialEq, Eq)]
pub struct Workspace {
    pub id: u64,
    /// Position of the workspace on its output, counted from one.
    pub idx: u8,
    /// Name of the output that the workspace is on, if any output is connected.
    pub output: Option<String>,
    /// Whether the workspace is the visible one of its output.
    pub is_active: bool,
    pub is_focused: bool,
    pub active_window_id: Option<u64>,
}

/// Where a window stands in the layout of its workspace.
#[derive(Clone, Copy, Debug, PartialEq, Eq)]
pub struct WindowLayout {
    /// Column and tile of a tiled window, both counted from one.
    pub pos_in_scrolling_layout: Option<(usize, usize)>,
}

/// A window of the compositor.
#[derive(Clone, Copy, Debug, PartialEq, Eq)]
pub struct Window {
    pub id: u64,
    pub workspace_id: Option<u64>,
    pub is_focused: bool,
    pub is_floating: bool,
    pub layout: WindowLayout,
}

/// An output that the compositor lists.
#[derive(Debug, PartialEq, Eq)]
pub struct ListedOutput {
    pub name: String,
    /// Whether the output is enabled, that is, has a current mode.
    pub enabled: bool,
}

/// A change that the compositor reports.
#[allow(inconsistent_fields)]
#[derive(Debug)]
pub enum Event {
    /// The set of workspaces is now this one.
    WorkspacesChanged { workspaces: Vec<Workspace> },
    /// A workspace became the visible one of its output.
    WorkspaceActivated { id: u64, focused: bool },
    /// Another window became the active one of a workspace.
    WorkspaceActiveWindowChanged { workspace_id: u64, active_window_id: Option<u64> },
    /// The set of windows is now this one.
    WindowsChanged { windows: Vec<Window> },
    /// A window appeared, or changed.
    WindowOpenedOrChanged { window: Window },
    /// A window went away.
    WindowClosed { id: u64 },
    /// Another window, or none, has the focus.
    WindowFocusChanged { id: Option<u64> },
    /// Windows have new places.
    WindowLayoutsChanged { changes: Vec<(u64, WindowLayout)> },
    /// Anything else.
    Other,
}

/// The mathematical content of a [`Workspace`].
pub struct WorkspaceView {
    pub id: u64,
    pub idx: u8,
    pub output: Option<Seq<char>>,
    pub is_active: bool,
    pub is_focused: bool,
    pub active_window_id: Option<u64>,
}

/// The mathematical content of a [`ListedOutput`].
pub struct ListedOutputView {
    pub name: Seq<char>,
    pub enabled: bool,
}

/// The mathematical content of an [`Event`].
#[allow(inconsistent_fields)]
pub enum EventView {
    WorkspacesChanged { workspaces: Seq<WorkspaceView> },
    WorkspaceActivated { id: u64, focused: bool },
    WorkspaceActiveWindowChanged { workspace_id: u64, active_window_id: Option<u64> },
    WindowsChanged { windows: Seq<Window> },
    WindowOpenedOrChanged { window: Window },
    WindowClosed { id: u64 },
    WindowFocusChanged { id: Option<u64> },
    WindowLayoutsChanged { changes: Seq<(u64, WindowLayout)> },
    Other,
}

/// The characters of an optional string.
pub open spec fn optional_chars(s: Option<String>) -> Option<Seq<char>> {
    match s {
        Some(s) => Some(s@),
        None => None,
    }
}

/// The contents of a list of workspaces.
pub open spec fn workspace_views(workspaces: Seq<Workspace>) -> Seq<WorkspaceView> {
    workspaces.map_values(|w: Workspace| w@)
}

/// The contents of a list of outputs.
pub open spec fn listed_output_views(outputs: Seq<ListedOutput>) -> Seq<ListedOutputView> {
    outputs.map_values(|o: ListedOutput| o@)
}

impl View for Workspace {
    type V = WorkspaceView;

    open spec fn view(&self) -> WorkspaceView {
        WorkspaceView {
            id: self.id,
            idx: self.idx,
            output: optional_chars(self.output),
            is_active: self.is_active,
            is_focused: self.is_focused,
            active_window_id: self.active_window_id,
        }
    }
}

impl View for ListedOutput {
    type V = ListedOutputView;

    open spec fn view(&self) -> ListedOutputView {
        ListedOutputView { name: self.name@, enabled: self.enabled }
    }
}

impl View for Event {
    type V = EventView;

    open spec fn view(&self) -> EventView {
        match *self {
            Event::WorkspacesChanged { workspaces } => EventView::WorkspacesChanged {
                workspaces: workspace_views(workspaces@),
            },
            Event::WorkspaceActivated { id, focused } => EventView::WorkspaceActivated {
                id,
                focused,
            },
            Event::WorkspaceActiveWindowChanged { workspace_id, active_window_id } =>
                EventView::WorkspaceActiveWindowChanged { workspace_id, active_window_id },
            Event::WindowsChanged { windows } => EventView::WindowsChanged { windows: windows@ },
            Event::WindowOpenedOrChanged { window } => EventView::WindowOpenedOrChanged { window },
            Event::WindowClosed { id } => EventView::WindowClosed { id },
            Event::WindowFocusChanged { id } => EventView::WindowFocusChanged { id },
            Event::WindowLayoutsChanged { changes } => EventView::WindowLayoutsChanged {
                changes: changes@,
            },
            Event::Other => EventView::Other,
        }
    }
}

/// Whether two optional names are the same.
pub fn same_name(a: &Option<String>, b: &Option<String>) -> (res: bool)
    ensures
        res == (optional_chars(*a) == optional_chars(*b)),
{
    match (a, b) {
        (Some(x), Some(y)) => *x == *y,
        (None, None) => true,
        _ => false,
    }
}

/// A copy of an optional name.
pub fn copy_name(name: &Option<String>) -> (res: Option<String>)
    ensures
        optional_chars(res) == optional_chars(*name),
{
    match name {
        Some(s) => Some(s.clone()),
        None => None,
    }
}

impl Clone for Workspace {
    fn clone(&self) -> (res: Workspace)
        ensures
            res@ == self@,
    {
        Workspace {
            id: self.id,
            idx: self.idx,
            output: copy_name(&self.output),
            is_active: self.is_active,
            is_focused: self.is_focused,
            active_window_id: self.active_window_id,
        }
    }
}

} // verus!
