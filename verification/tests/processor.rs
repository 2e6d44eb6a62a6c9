use niri_agent::commands::{
    Action, CommandType, LogLine, RenderCommand, RenderThreadCommand, ScrollCommand,
};
use niri_agent::compositor::{Event, ListedOutput, Window, WindowLayout, Workspace};
use niri_agent::config::{DaemonConfig, OutputConfig, RenderMode};
use niri_agent::percent::ScrollPercent;
use niri_agent::processor::NiriProcessor;

fn entry(name: &str, image: &str, mode: Option<RenderMode>) -> OutputConfig {
    OutputConfig { name: name.to_string(), image: image.to_string(), mode }
}

fn listed(name: &str, enabled: bool) -> ListedOutput {
    ListedOutput { name: name.to_string(), enabled }
}

fn workspace(id: u64, idx: u8, output: Option<&str>, is_active: bool) -> Workspace {
    Workspace {
        id,
        idx,
        output: output.map(|o| o.to_string()),
        is_active,
        is_focused: false,
        active_window_id: None,
    }
}

fn window(id: u64, workspace_id: Option<u64>, column: Option<usize>) -> Window {
    Window {
        id,
        workspace_id,
        is_focused: false,
        is_floating: false,
        layout: WindowLayout { pos_in_scrolling_layout: column.map(|c| (c, 1)) },
    }
}

fn pct(steps: usize, span: usize) -> ScrollPercent {
    ScrollPercent { steps, span }
}

fn scroll(output: &str, x: ScrollPercent, y: ScrollPercent) -> Action {
    Action::Handle(CommandType::Tc(RenderThreadCommand::Scroll(ScrollCommand {
        output: output.to_string(),
        position_x: x,
        position_y: y,
    })))
}

fn render(
    output: &str,
    image: &str,
    mode: RenderMode,
    position: (ScrollPercent, ScrollPercent),
) -> Action {
    Action::Handle(CommandType::Tc(RenderThreadCommand::Render(RenderCommand {
        output: output.to_string(),
        image: image.to_string(),
        mode,
        position,
    })))
}

fn poke() -> Action {
    Action::Handle(CommandType::Tc(RenderThreadCommand::Poke))
}

/// Output A scrolls both ways, B up and down, C sideways, D not at all and E has no mode. A has the
/// workspaces 1 (active), 2 and 3, and the others one active workspace each: 10, 20, 30 and 40.
fn processor() -> (NiriProcessor, Vec<Action>) {
    let config = DaemonConfig {
        outputs: vec![
            entry("A", "a.png", Some(RenderMode::ScrollBoth)),
            entry("B", "b.png", Some(RenderMode::ScrollVertical)),
            entry("C", "c.png", Some(RenderMode::ScrollHorizontal)),
            entry("D", "d.png", Some(RenderMode::Static)),
            entry("E", "e.png", None),
            entry("OFF", "off.png", Some(RenderMode::ScrollBoth)),
        ],
    };
    let outputs = vec![
        listed("A", true),
        listed("B", true),
        listed("C", true),
        listed("D", true),
        listed("E", true),
        listed("OFF", false),
        listed("X", true),
    ];
    let mut workspaces = vec![
        workspace(1, 1, Some("A"), true),
        workspace(2, 2, Some("A"), false),
        workspace(3, 3, Some("A"), false),
        workspace(10, 1, Some("B"), true),
        workspace(20, 1, Some("C"), true),
        workspace(30, 1, Some("D"), true),
        workspace(40, 1, Some("E"), true),
    ];
    workspaces[0].active_window_id = Some(102);
    let windows = vec![
        window(101, Some(1), Some(1)),
        window(102, Some(1), Some(4)),
        window(103, Some(1), Some(4)),
        window(104, Some(1), Some(9)),
        window(201, Some(2), Some(1)),
        window(202, Some(2), Some(2)),
    ];
    NiriProcessor::open(config, outputs, workspaces, windows)
}

#[test]
fn opening_puts_every_scrolling_output_in_place() {
    let (_, actions) = processor();
    assert_eq!(
        actions,
        vec![
            scroll("A", pct(1, 2), pct(0, 2)),
            scroll("B", pct(1, 2), pct(1, 2)),
            scroll("C", pct(1, 2), pct(1, 2)),
        ]
    );
}

#[test]
fn disabled_and_unconfigured_outputs_are_not_taken_up() {
    let (p, _) = processor();
    let (x, y) = p.get_current_position_for_output(&"OFF".to_string(), RenderMode::ScrollBoth);
    assert_eq!((x, y), (pct(0, 1), pct(0, 1)));
    let (x, y) = p.get_current_position_for_output(&"X".to_string(), RenderMode::ScrollBoth);
    assert_eq!((x, y), (pct(0, 1), pct(0, 1)));
}

#[test]
fn columns_are_ranked_without_gaps() {
    let (p, _) = processor();
    assert_eq!(p.get_active_column_scroll_state(1), Some((2, 3)));
}

#[test]
fn without_an_active_or_focused_window_no_column_is_active() {
    let (p, _) = processor();
    assert_eq!(p.get_active_column_scroll_state(2), None);
    assert_eq!(p.get_active_column_scroll_state(3), None);
    assert_eq!(p.get_active_column_scroll_state(999), None);
    assert_eq!(p.get_column_scroll_percent_for_workspace(2), pct(1, 2));
}

#[test]
fn a_focused_window_stands_in_for_the_active_one() {
    let (p, _) = processor();
    let mut focused = window(202, Some(2), Some(2));
    focused.is_focused = true;
    assert_eq!(p.column_scroll_state(2, Some(focused)), Some((2, 2)));
    assert_eq!(p.column_scroll_state(2, None), None);
    // The active window of workspace 1 tells by itself.
    assert_eq!(p.column_scroll_state(1, Some(window(104, Some(1), Some(9)))), Some((2, 3)));
}

#[test]
fn floating_windows_have_no_column() {
    let (mut p, _) = processor();
    let mut floating = window(102, Some(1), Some(4));
    floating.is_floating = true;
    p.update_windows(vec![floating, window(101, Some(1), Some(1))]);
    assert_eq!(p.get_active_column_scroll_state(1), None);
}

#[test]
fn positions_by_mode() {
    let (p, _) = processor();
    let a = "A".to_string();
    assert_eq!(p.get_current_position_for_output(&a, RenderMode::Static), (pct(0, 1), pct(0, 1)));
    assert_eq!(
        p.get_current_position_for_output(&a, RenderMode::ScrollVertical),
        (pct(1, 2), pct(0, 2))
    );
    assert_eq!(
        p.get_current_position_for_output(&a, RenderMode::ScrollHorizontal),
        (pct(1, 2), pct(1, 2))
    );
    assert_eq!(
        p.get_current_position_for_output(&a, RenderMode::ScrollBoth),
        (pct(1, 2), pct(0, 2))
    );
}

#[test]
fn activation_moves_the_image_and_is_exclusive() {
    let (mut p, _) = processor();
    let actions = p.process(Event::WorkspaceActivated { id: 3, focused: true });
    assert_eq!(actions, vec![scroll("A", pct(1, 2), pct(2, 2))]);
    assert!(p.is_workspace_active(3));
    assert!(!p.is_workspace_active(1));
    assert!(!p.is_workspace_active(2));
    assert!(p.is_workspace_active(10));
    assert!(p.get_workspace(3).unwrap().is_focused);
    assert!(!p.get_workspace(1).unwrap().is_focused);
    let again = p.process(Event::WorkspaceActivated { id: 3, focused: true });
    assert_eq!(again, vec![scroll("A", pct(1, 2), pct(2, 2))]);
    // The output remembers it.
    assert_eq!(
        p.get_current_position_for_output(&"A".to_string(), RenderMode::ScrollVertical),
        (pct(1, 2), pct(2, 2))
    );
}

#[test]
fn activation_without_focus_leaves_the_focus() {
    let (mut p, _) = processor();
    p.handle_workspace_activated(10, true);
    p.handle_workspace_activated(2, false);
    assert!(p.is_workspace_active(2));
    assert!(p.get_workspace(10).unwrap().is_focused);
    assert!(!p.get_workspace(2).unwrap().is_focused);
}

#[test]
fn activation_of_an_unknown_workspace_touches_only_workspaces_without_output() {
    let (mut p, _) = processor();
    p.update_workspaces(&vec![workspace(1, 1, Some("A"), true), workspace(5, 1, None, true)]);
    p.handle_workspace_activated(999, false);
    assert!(p.is_workspace_active(1));
    assert!(!p.is_workspace_active(5));
}

#[test]
fn static_outputs_do_not_move() {
    let (mut p, _) = processor();
    assert_eq!(p.process(Event::WorkspaceActivated { id: 30, focused: false }), vec![]);
    assert_eq!(p.process(Event::WorkspaceActivated { id: 40, focused: false }), vec![]);
}

#[test]
fn workspaces_without_output_lead_to_nothing() {
    let (mut p, _) = processor();
    let actions = p.process(Event::WorkspacesChanged { workspaces: vec![workspace(5, 1, None, true)] });
    assert_eq!(actions, vec![poke()]);
}

#[test]
fn workspaces_on_unknown_outputs_are_reported() {
    let (mut p, _) = processor();
    let actions =
        p.process(Event::WorkspacesChanged { workspaces: vec![workspace(5, 1, Some("X"), true)] });
    assert_eq!(
        actions,
        vec![poke(), Action::Log(LogLine::OutputNotConfigured("X".to_string()))]
    );
    let Action::Log(line) = &actions[1] else { panic!() };
    assert_eq!(line.text(), "X not found in config; ignoring");
}

#[test]
fn changed_workspaces_lead_to_a_poke_and_are_counted_anew() {
    let (mut p, _) = processor();
    let workspaces = || {
        vec![
            workspace(1, 1, Some("A"), false),
            workspace(2, 2, Some("A"), true),
            workspace(10, 4, Some("B"), false),
            workspace(11, 5, Some("B"), true),
        ]
    };
    let expected = || {
        vec![
            poke(),
            scroll("A", pct(1, 2), pct(1, 1)),
            scroll("B", pct(1, 2), pct(4, 4)),
        ]
    };
    assert_eq!(p.process(Event::WorkspacesChanged { workspaces: workspaces() }), expected());
    assert_eq!(p.process(Event::WorkspacesChanged { workspaces: workspaces() }), expected());
    // C lost its workspace.
    assert_eq!(
        p.get_current_position_for_output(&"C".to_string(), RenderMode::ScrollBoth),
        (pct(1, 2), pct(1, 2))
    );
    assert!(p.get_workspace(20).is_none());
}

#[test]
fn active_window_change_moves_the_image_of_an_active_workspace() {
    let (mut p, _) = processor();
    let actions = p.process(Event::WorkspaceActiveWindowChanged {
        workspace_id: 1,
        active_window_id: Some(104),
    });
    assert_eq!(actions, vec![scroll("A", pct(2, 2), pct(0, 2))]);
    let actions = p.process(Event::WorkspaceActiveWindowChanged {
        workspace_id: 2,
        active_window_id: Some(202),
    });
    assert_eq!(actions, vec![]);
    assert_eq!(p.get_workspace(2).unwrap().active_window_id, Some(202));
    let actions = p.process(Event::WorkspaceActiveWindowChanged {
        workspace_id: 999,
        active_window_id: None,
    });
    assert_eq!(actions, vec![]);
}

#[test]
fn changed_windows_replace_all_windows_and_the_later_one_counts() {
    let (mut p, _) = processor();
    let actions = p.process(Event::WindowsChanged {
        windows: vec![
            window(102, Some(1), Some(9)),
            window(105, Some(1), Some(3)),
            window(102, Some(1), Some(2)),
        ],
    });
    assert_eq!(actions[0], scroll("A", pct(0, 1), pct(0, 2)));
    assert_eq!(p.get_active_column_scroll_state(1), Some((1, 2)));
}

#[test]
fn an_opened_window_with_focus_becomes_active() {
    let (mut p, _) = processor();
    let mut opened = window(500, Some(1), Some(20));
    opened.is_focused = true;
    let actions = p.process(Event::WindowOpenedOrChanged { window: opened });
    assert_eq!(actions, vec![scroll("A", pct(3, 3), pct(0, 2))]);
    assert_eq!(p.get_workspace(1).unwrap().active_window_id, Some(500));
}

#[test]
fn focus_is_exclusive() {
    let (mut p, _) = processor();
    let mut opened = window(201, Some(2), Some(1));
    opened.is_focused = true;
    p.handle_window_opened_or_changed(opened);
    p.handle_workspace_active_window_changed(2, None);
    assert_eq!(p.get_active_column_scroll_state(2), Some((1, 2)));
    p.handle_window_focus_changed(Some(202));
    p.handle_workspace_active_window_changed(2, None);
    assert_eq!(p.get_active_column_scroll_state(2), Some((2, 2)));
    p.handle_window_focus_changed(None);
    assert_eq!(p.get_active_column_scroll_state(2), None);
}

#[test]
fn a_moved_window_concerns_both_workspaces() {
    let (mut p, _) = processor();
    assert_eq!(p.handle_window_opened_or_changed(window(101, Some(2), Some(3))), vec![1, 2]);
    assert_eq!(p.handle_window_opened_or_changed(window(101, Some(2), Some(4))), vec![2]);
    assert_eq!(p.handle_window_opened_or_changed(window(101, None, None)), vec![2]);
    assert_eq!(p.handle_window_opened_or_changed(window(101, None, None)), Vec::<u64>::new());
    assert_eq!(p.get_active_column_scroll_state(1), Some((1, 2)));
}

#[test]
fn a_closed_active_window_is_replaced() {
    let (mut p, _) = processor();
    let actions = p.process(Event::WindowClosed { id: 201 });
    assert_eq!(actions, vec![]);
    p.handle_workspace_active_window_changed(2, Some(202));
    assert_eq!(p.handle_window_closed(202), Some(2));
    assert_eq!(p.get_workspace(2).unwrap().active_window_id, None);
    assert_eq!(p.handle_window_closed(102), Some(1));
    let active = p.get_workspace(1).unwrap().active_window_id.unwrap();
    assert!(active == 101 || active == 103 || active == 104);
}

#[test]
fn closing_a_window_scrolls_its_active_workspace() {
    let (mut p, _) = processor();
    assert_eq!(
        p.process(Event::WindowClosed { id: 104 }),
        vec![scroll("A", pct(1, 1), pct(0, 2))]
    );
    assert_eq!(p.get_workspace(1).unwrap().active_window_id, Some(102));
}

#[test]
fn closing_an_unknown_window_does_nothing() {
    let (mut p, _) = processor();
    assert_eq!(p.process(Event::WindowClosed { id: 999 }), vec![]);
    assert_eq!(p.handle_window_closed(999), None);
    assert_eq!(p.get_active_column_scroll_state(1), Some((2, 3)));
}

#[test]
fn closing_undoes_opening() {
    let (mut p, _) = processor();
    p.process(Event::WindowOpenedOrChanged { window: window(500, Some(1), Some(2)) });
    assert_eq!(p.get_active_column_scroll_state(1), Some((3, 4)));
    p.process(Event::WindowClosed { id: 500 });
    assert_eq!(p.get_active_column_scroll_state(1), Some((2, 3)));
}

#[test]
fn a_focused_window_becomes_active_on_its_workspace() {
    let (mut p, _) = processor();
    let actions = p.process(Event::WindowFocusChanged { id: Some(101) });
    assert_eq!(actions, vec![scroll("A", pct(0, 2), pct(0, 2))]);
    assert_eq!(p.get_workspace(1).unwrap().active_window_id, Some(101));
    assert_eq!(p.process(Event::WindowFocusChanged { id: None }), vec![]);
    assert_eq!(p.get_workspace(1).unwrap().active_window_id, Some(101));
    assert_eq!(p.handle_window_focus_changed(Some(999)), None);
}

#[test]
fn layout_changes_refresh_each_workspace_once_and_poke_last() {
    let (mut p, _) = processor();
    let at = |column| WindowLayout { pos_in_scrolling_layout: Some((column, 1)) };
    let actions = p.process(Event::WindowLayoutsChanged {
        changes: vec![(102, at(1)), (101, at(4)), (201, at(7)), (999, at(1))],
    });
    assert_eq!(actions, vec![scroll("A", pct(0, 2), pct(0, 2)), poke()]);
    assert_eq!(
        p.handle_window_layouts_changed(vec![(201, at(1)), (102, at(1)), (202, at(2)), (999, at(1))]),
        vec![2, 1]
    );
    assert_eq!(p.process(Event::WindowLayoutsChanged { changes: vec![] }), vec![poke()]);
}

#[test]
fn other_events_lead_to_nothing() {
    let (mut p, _) = processor();
    assert_eq!(p.process(Event::Other), vec![]);
}

#[test]
fn a_new_configuration_draws_only_what_differs() {
    let (mut p, _) = processor();
    let config = DaemonConfig {
        outputs: vec![
            entry("A", "new.png", Some(RenderMode::ScrollBoth)),
            entry("B", "b.png", Some(RenderMode::ScrollVertical)),
            entry("C", "c.png", None),
            entry("E", "e.png", Some(RenderMode::Static)),
            entry("X", "x.png", None),
        ],
    };
    let again = config.clone();
    assert_eq!(
        p.update_config(config),
        vec![
            render("A", "new.png", RenderMode::ScrollBoth, (pct(1, 2), pct(0, 2))),
            render("C", "c.png", RenderMode::Static, (pct(0, 1), pct(0, 1))),
        ]
    );
    assert_eq!(p.update_config(again), vec![]);
    // C does not move any more.
    assert_eq!(p.process(Event::WorkspaceActivated { id: 20, focused: false }), vec![]);
}

#[test]
fn two_entries_for_one_output_are_drawn_in_turn() {
    let (mut p, _) = processor();
    let config = DaemonConfig {
        outputs: vec![
            entry("D", "one.png", None),
            entry("D", "two.png", Some(RenderMode::ScrollVertical)),
        ],
    };
    let expected = || {
        vec![
            render("D", "one.png", RenderMode::Static, (pct(0, 1), pct(0, 1))),
            render("D", "two.png", RenderMode::ScrollVertical, (pct(1, 2), pct(1, 2))),
        ]
    };
    let again = config.clone();
    assert_eq!(p.update_config(config), expected());
    assert_eq!(p.update_config(again), expected());
}

#[test]
fn the_first_entry_for_an_output_counts_at_the_start() {
    let config = DaemonConfig {
        outputs: vec![
            entry("A", "one.png", None),
            entry("A", "two.png", Some(RenderMode::ScrollBoth)),
        ],
    };
    let (mut p, actions) = NiriProcessor::open(
        config,
        vec![listed("A", true)],
        vec![workspace(1, 1, Some("A"), true)],
        vec![],
    );
    assert_eq!(actions, vec![]);
    let same = DaemonConfig { outputs: vec![entry("A", "one.png", None)] };
    assert_eq!(p.update_config(same), vec![]);
}

#[test]
fn events_leave_what_is_drawn_alone() {
    let (mut p, _) = processor();
    p.process(Event::WorkspacesChanged { workspaces: vec![workspace(1, 1, Some("A"), true)] });
    p.process(Event::WorkspaceActivated { id: 1, focused: true });
    p.process(Event::WindowsChanged { windows: vec![] });
    let config = DaemonConfig {
        outputs: vec![
            entry("A", "a.png", Some(RenderMode::ScrollBoth)),
            entry("B", "b.png", Some(RenderMode::ScrollVertical)),
            entry("D", "d.png", None),
        ],
    };
    assert_eq!(p.update_config(config), vec![]);
}

#[test]
fn images_stay_between_start_and_end() {
    let (mut p, mut actions) = processor();
    for id in [1, 2, 3, 10, 20] {
        actions.append(&mut p.process(Event::WorkspaceActivated { id, focused: false }));
        actions.append(&mut p.process(Event::WindowFocusChanged { id: Some(100 + id) }));
    }
    let mut moved = 0;
    for action in &actions {
        if let Action::Handle(CommandType::Tc(RenderThreadCommand::Scroll(c))) = action {
            assert!(c.position_x.steps <= c.position_x.span && c.position_x.span > 0);
            assert!(c.position_y.steps <= c.position_y.span && c.position_y.span > 0);
            moved += 1;
        }
    }
    assert!(moved >= 8);
}

#[test]
fn a_window_list_with_one_focus_settles_the_column() {
    let (mut p, _) = processor();
    let mut focused = window(202, Some(2), Some(2));
    focused.is_focused = true;
    p.update_windows(vec![window(201, Some(2), Some(1)), focused]);
    assert_eq!(p.get_active_column_scroll_state(2), Some((2, 2)));
    assert_eq!(p.get_column_scroll_percent_for_workspace(2), pct(1, 1));
}

#[test]
fn a_reload_draws_where_scrolling_left() {
    let (mut p, _) = processor();
    let moved = p.process(Event::WorkspaceActivated { id: 2, focused: true });
    assert_eq!(moved, vec![scroll("A", pct(1, 2), pct(1, 2))]);
    let moved = p.process(Event::WindowFocusChanged { id: Some(202) });
    assert_eq!(moved, vec![scroll("A", pct(1, 1), pct(1, 2))]);
    assert_eq!(
        p.get_current_position_for_output(&"A".to_string(), RenderMode::ScrollBoth),
        (pct(1, 1), pct(1, 2)),
    );
    let drawn = p.update_config(DaemonConfig {
        outputs: vec![entry("A", "new.png", Some(RenderMode::ScrollBoth))],
    });
    assert_eq!(
        drawn,
        vec![render("A", "new.png", RenderMode::ScrollBoth, (pct(1, 1), pct(1, 2)))],
    );
}

#[test]
fn scroll_commands_alone_are_announced() {
    let announced = |action: Action| match action {
        Action::Handle(command) => command.is_announced(),
        Action::Log(_) => false,
    };
    let (p, _) = processor();
    assert!(announced(p.gen_scroll_cmd_for_workspace_id(1).unwrap()));
    assert!(!announced(poke()));
    assert!(!announced(render("A", "a.png", RenderMode::Static, (pct(0, 1), pct(0, 1)))));
}
