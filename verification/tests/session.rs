use niri_agent::commands::{
    Action, CommandType, LogLevel, LogLine, RenderCommand, RenderThreadCommand,
};
use niri_agent::compositor::{Event, ListedOutput, Workspace};
use niri_agent::config::{DaemonCommand, DaemonConfig, OutputConfig, RenderMode};
use niri_agent::percent::ScrollPercent;
use niri_agent::processor::NiriProcessor;
use niri_agent::session::QueuePoll;

fn config(image: &str) -> DaemonConfig {
    DaemonConfig {
        outputs: vec![OutputConfig {
            name: "A".to_string(),
            image: image.to_string(),
            mode: Some(RenderMode::ScrollVertical),
        }],
    }
}

fn processor() -> NiriProcessor {
    NiriProcessor::open(
        config("a.png"),
        vec![ListedOutput { name: "A".to_string(), enabled: true }],
        vec![Workspace {
            id: 1,
            idx: 1,
            output: Some("A".to_string()),
            is_active: true,
            is_focused: true,
            active_window_id: None,
        }],
        vec![],
    )
    .0
}

#[test]
fn an_event_is_followed_by_a_poll() {
    let mut p = processor();
    let turn = p.after_read(Ok(Event::WorkspaceActivated { id: 1, focused: true }));
    assert_eq!(turn.actions.len(), 1);
    assert!(turn.poll_queue);
}

#[test]
fn a_failed_read_is_reported_and_not_followed_by_a_poll() {
    let mut p = processor();
    let turn = p.after_read(Err("broken pipe".to_string()));
    assert_eq!(
        turn.actions,
        vec![Action::Log(LogLine::EventReadFailed("broken pipe".to_string()))]
    );
    assert!(!turn.poll_queue);
}

#[test]
fn a_reload_draws_what_differs() {
    let mut p = processor();
    let actions = p.after_poll(QueuePoll::Command(DaemonCommand::ReloadConfig(config("b.png"))));
    let centre = ScrollPercent { steps: 1, span: 2 };
    assert_eq!(
        actions,
        vec![Action::Handle(CommandType::Tc(RenderThreadCommand::Render(RenderCommand {
            output: "A".to_string(),
            image: "b.png".to_string(),
            mode: RenderMode::ScrollVertical,
            position: (centre, centre),
        })))]
    );
    let actions = p.after_poll(QueuePoll::Command(DaemonCommand::ReloadConfig(config("b.png"))));
    assert_eq!(actions, vec![]);
}

#[test]
fn other_commands_and_an_empty_queue_have_no_effect() {
    let mut p = processor();
    assert_eq!(p.after_poll(QueuePoll::Command(DaemonCommand::Lock)), vec![]);
    assert_eq!(p.after_poll(QueuePoll::Command(DaemonCommand::Stop)), vec![]);
    assert_eq!(p.after_poll(QueuePoll::Empty), vec![]);
    assert!(p.is_workspace_active(1));
}

#[test]
fn a_failed_lock_is_reported() {
    let mut p = processor();
    assert_eq!(
        p.after_poll(QueuePoll::LockFailed("poisoned".to_string())),
        vec![Action::Log(LogLine::QueueLockFailed("poisoned".to_string()))]
    );
}

#[test]
fn log_lines() {
    let output = LogLine::OutputNotConfigured("DP-1".to_string());
    assert_eq!(output.text(), "DP-1 not found in config; ignoring");
    assert_eq!(output.level(), LogLevel::Log);
    let read = LogLine::EventReadFailed("eof".to_string());
    assert_eq!(read.text(), "event read failed eof");
    assert_eq!(read.level(), LogLevel::Debug);
    let lock = LogLine::QueueLockFailed("poisoned".to_string());
    assert_eq!(lock.text(), "error acquiring channel lock: poisoned");
    assert_eq!(lock.level(), LogLevel::Log);
}
