use niri_agent::agent::NiriAgent;
use niri_agent::config::{DaemonCommand, DaemonConfig, OutputConfig};

fn config() -> DaemonConfig {
    DaemonConfig {
        outputs: vec![OutputConfig {
            name: "A".to_string(),
            image: "a.png".to_string(),
            mode: None,
        }],
    }
}

#[test]
fn a_connected_agent_keeps_its_configuration() {
    let agent = NiriAgent::new::<String>(config(), Ok(())).unwrap();
    assert_eq!(*agent.config(), config());
}

#[test]
fn commands_reach_the_agent_in_order() {
    let agent = NiriAgent::new::<String>(config(), Ok(())).unwrap();
    assert!(agent.cmd_queue().lock().unwrap().try_recv().is_err());
    agent.queue.send(DaemonCommand::Lock).unwrap();
    agent.queue.send(DaemonCommand::ReloadConfig(config())).unwrap();
    let queue = agent.cmd_queue().lock().unwrap();
    assert!(matches!(queue.try_recv(), Ok(DaemonCommand::Lock)));
    assert!(matches!(queue.try_recv(), Ok(DaemonCommand::ReloadConfig(_))));
    assert!(queue.try_recv().is_err());
}

#[test]
fn a_failed_connection_is_handed_on() {
    let res = NiriAgent::new(config(), Err("no socket".to_string()));
    assert_eq!(res.err(), Some("no socket".to_string()));
}
