//! The agent as the rest of the daemon sees it: a configuration and a queue of commands.

use std::sync::mpsc::{Receiver, Sender};
use std::sync::{Arc, Mutex};

use vstd::prelude::*;

use crate::config::{DaemonCommand, DaemonConfig};

verus! {

/// The sending end of a channel of std. Nothing is claimed of it.
#[verifier::external_type_specification]
#[verifier::external_body]
#[verifier::reject_recursive_types(T)]
pub struct ExSender<T>(std::sync::mpsc::Sender<T>);

/// The receiving end of a channel of std. Nothing is claimed of it.
#[verifier::external_type_specification]
#[verifier::external_body]
#[verifier::reject_recursive_types(T)]
pub struct ExReceiver<T>(std::sync::mpsc::Receiver<T>);

/// A lock of std. Nothing is claimed of it.
#[verifier::external_type_specification]
#[verifier::external_body]
#[verifier::reject_recursive_types(T)]
pub struct ExMutex<T: ?Sized>(std::sync::Mutex<T>);

/// `std::sync::mpsc::channel` makes the two ends of a new channel. Nothing is claimed of the ends
/// but that one call gave both: [`one_channel`] speaks of such a pair.
pub assume_specification<T>[ std::sync::mpsc::channel::<T> ]() -> (res: (Sender<T>, Receiver<T>))
;

/// `std::sync::Mutex::new` makes a lock around a value. Nothing is claimed of the lock but that it
/// was made around that value: [`one_channel`] speaks of such a lock.
pub assume_specification<T>[ std::sync::Mutex::<T>::new ](t: T) -> (res: Mutex<T>)
;

/// The source is a lock around the receiving end that one call of `channel` gave together with the
/// sink: what is put into the sink comes out of the source.
pub open spec fn one_channel(
    sink: Sender<DaemonCommand>,
    source: Arc<Mutex<Receiver<DaemonCommand>>>,
) -> bool {
    exists|r: Receiver<DaemonCommand>|
        {
            &&& #[trigger] call_ensures(std::sync::mpsc::channel::<DaemonCommand>, (), (sink, r))
            &&& call_ensures(std::sync::Mutex::<Receiver<DaemonCommand>>::new, (r,), *source)
        }
}

/// The agent: what it starts with, and how the daemon reaches it.
pub struct NiriAgent {
    config: DaemonConfig,
    cmd_queue: Arc<Mutex<Receiver<DaemonCommand>>>,
    /// Where the daemon puts commands for the agent.
    pub queue: Sender<DaemonCommand>,
}

impl NiriAgent {
    /// The configuration that the agent starts with.
    pub closed spec fn start_config(self) -> DaemonConfig {
        self.config
    }

    /// Where the agent takes commands from.
    pub closed spec fn command_source(self) -> Arc<Mutex<Receiver<DaemonCommand>>> {
        self.cmd_queue
    }

    /// Where the daemon puts commands for the agent.
    pub closed spec fn command_sink(self) -> Sender<DaemonCommand> {
        self.queue
    }

    /// An agent with this configuration, which takes its commands from `cmd_queue` and is reached
    /// through `queue`.
    pub fn with_queue(
        config: DaemonConfig,
        queue: Sender<DaemonCommand>,
        cmd_queue: Arc<Mutex<Receiver<DaemonCommand>>>,
    ) -> (res: Arc<NiriAgent>)
        ensures
            res.start_config() == config,
            res.command_sink() == queue,
            res.command_source() == cmd_queue,
    {
        Arc::new(NiriAgent { config, cmd_queue, queue })
    }

    /// An agent with this configuration and a new queue, if the compositor can be reached:
    /// `connection` is the outcome of connecting to it. The queue reaches the agent: its two ends
    /// are those of one channel.
    pub fn new<E>(config: DaemonConfig, connection: Result<(), E>) -> (res: Result<
        Arc<NiriAgent>,
        E,
    >)
        ensures
            match connection {
                Ok(_) => {
                    &&& res matches Ok(agent)
                    &&& agent.start_config() == config
                    &&& one_channel(agent.command_sink(), agent.command_source())
                },
                Err(e) => res matches Err(err) && err == e,
            },
    {
        match connection {
            Ok(_) => {
                let (send, recv) = std::sync::mpsc::channel::<DaemonCommand>();
                let ghost sink: Sender<DaemonCommand> = send;
                let ghost end: Receiver<DaemonCommand> = recv;
                let lock: Mutex<Receiver<DaemonCommand>> = Mutex::new(recv);
                let ghost made: Mutex<Receiver<DaemonCommand>> = lock;
                assert(call_ensures(
                    std::sync::mpsc::channel::<DaemonCommand>,
                    (),
                    (sink, end),
                ));
                assert(call_ensures(
                    std::sync::Mutex::<Receiver<DaemonCommand>>::new,
                    (end,),
                    made,
                ));
                Ok(NiriAgent::with_queue(config, send, Arc::new(lock)))
            },
            Err(e) => Err(e),
        }
    }

    /// The configuration that the agent starts with.
    pub fn config(&self) -> (res: &DaemonConfig)
        ensures
            *res == self.start_config(),
    {
        &self.config
    }

    /// Where the agent takes commands from.
    pub fn cmd_queue(&self) -> (res: &Arc<Mutex<Receiver<DaemonCommand>>>)
        ensures
            *res == self.command_source(),
    {
        &self.cmd_queue
    }
}

/// An agent keeps the configuration that it is made with and the source of its commands. It is made
/// if and only if the compositor can be reached; else the reason is handed on.
pub proof fn agents_keep_what_they_are_made_with<E>(
    config: DaemonConfig,
    connection: Result<(), E>,
    res: Result<Arc<NiriAgent>, E>,
    kept: &DaemonConfig,
    source: &Arc<Mutex<Receiver<DaemonCommand>>>,
)
    requires
        call_ensures(NiriAgent::new::<E>, (config, connection), res),
        res matches Ok(agent) ==> {
            &&& call_ensures(NiriAgent::config, (&*agent,), kept)
            &&& call_ensures(NiriAgent::cmd_queue, (&*agent,), source)
        },
    ensures
        res is Ok <==> connection is Ok,
        res matches Err(e) ==> connection == Err::<(), E>(e),
        res matches Ok(agent) ==> *kept == config && one_channel(agent.command_sink(), *source),
{
}

/// An agent keeps the configuration and the source of commands that it is given.
pub proof fn agents_keep_what_they_are_given(
    config: DaemonConfig,
    queue: Sender<DaemonCommand>,
    cmd_queue: Arc<Mutex<Receiver<DaemonCommand>>>,
    agent: Arc<NiriAgent>,
    kept: &DaemonConfig,
    source: &Arc<Mutex<Receiver<DaemonCommand>>>,
)
    requires
        call_ensures(NiriAgent::with_queue, (config, queue, cmd_queue), agent),
        call_ensures(NiriAgent::config, (&*agent,), kept),
        call_ensures(NiriAgent::cmd_queue, (&*agent,), source),
    ensures
        *kept == config,
        *source == cmd_queue,
        agent.command_sink() == queue,
{
}

} // verus!
