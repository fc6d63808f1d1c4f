//! The control server's main loop waits for whichever comes first: a command
//! from the client, a report from a failed worker, or an interrupt. What it
//! does about each is decided here, and so is which manager operation a
//! command calls for and what is answered; the waiting, the socket and the
//! manager calls stay with the caller.
use crate::protocol::{Command, Response, StreamStats, SuccessPayload};
use vstd::prelude::*;

verus! {

/// What the loop woke up for.
#[derive(Debug, Clone, Copy, PartialEq, Eq, Structural)]
pub enum ServerEvent {
    /// A well-formed command arrived.
    CommandReceived,
    /// A line arrived that is not a command.
    MalformedCommand,
    /// Reading from the client failed, or the client closed the connection.
    ConnectionLost,
    /// The worker with this id stopped with an error.
    WorkerFailed(u16),
    /// The process was interrupted (Ctrl+C).
    Interrupted,
    /// Cleaning up after a failed worker failed (the pipeline could not be stopped).
    CleanUpFailed,
}

/// What the loop does about it.
#[derive(Debug, Clone, Copy, PartialEq, Eq, Structural)]
pub enum ServerAction {
    /// Run the command and write the response.
    HandleCommand,
    /// Log it and keep listening.
    Ignore,
    /// Clean up after the failed worker with this id.
    CleanUp(u16),
    /// Stop every worker and end the loop.
    ShutdownAndExit,
    /// End the loop as things are.
    Exit,
}

/// The action for each event: a malformed command is only logged; a lost client
/// or an interrupt shuts everything down; a failed worker is cleaned up, and if
/// that fails the loop ends without a shutdown.
pub fn next_action(event: ServerEvent) -> (a: ServerAction)
    ensures
        a == (match event {
            ServerEvent::CommandReceived => ServerAction::HandleCommand,
            ServerEvent::MalformedCommand => ServerAction::Ignore,
            ServerEvent::ConnectionLost => ServerAction::ShutdownAndExit,
            ServerEvent::WorkerFailed(id) => ServerAction::CleanUp(id),
            ServerEvent::Interrupted => ServerAction::ShutdownAndExit,
            ServerEvent::CleanUpFailed => ServerAction::Exit,
        }),
{
    match event {
        ServerEvent::CommandReceived => ServerAction::HandleCommand,
        ServerEvent::MalformedCommand => ServerAction::Ignore,
        ServerEvent::ConnectionLost => ServerAction::ShutdownAndExit,
        ServerEvent::WorkerFailed(id) => ServerAction::CleanUp(id),
        ServerEvent::Interrupted => ServerAction::ShutdownAndExit,
        ServerEvent::CleanUpFailed => ServerAction::Exit,
    }
}

/// The manager operation a command calls for.
#[derive(Debug, Clone, Copy, PartialEq, Eq, Structural)]
pub enum ManagerCall {
    /// Issue a new worker.
    IssueWorker,
    /// List the ports of the active workers.
    ListActivePorts,
    /// Stop the worker on this port.
    StopWorker(u16),
    /// Read the counters of the stream on this port.
    ReadStats(u16),
}

/// The operation for each command.
pub fn dispatch(command: Command) -> (call: ManagerCall)
    ensures
        call == (match command {
            Command::Issue => ManagerCall::IssueWorker,
            Command::Active => ManagerCall::ListActivePorts,
            Command::Close { port } => ManagerCall::StopWorker(port),
            Command::Stats { port } => ManagerCall::ReadStats(port),
        }),
{
    match command {
        Command::Issue => ManagerCall::IssueWorker,
        Command::Active => ManagerCall::ListActivePorts,
        Command::Close { port } => ManagerCall::StopWorker(port),
        Command::Stats { port } => ManagerCall::ReadStats(port),
    }
}

/// What the manager operation returned, its error already rendered as text.
#[derive(Debug)]
pub enum CallOutcome {
    Issued(Result<u16, String>),
    ActivePorts(Vec<u16>),
    Stopped(Result<u16, String>),
    Stats(Result<(u16, StreamStats), String>),
}

/// The answer to a command, from what its manager operation returned. Listing
/// the active ports cannot fail.
pub fn respond(outcome: CallOutcome) -> (r: Response)
    ensures
        match outcome {
            CallOutcome::Issued(Ok(port)) => r matches Response::Success(
                SuccessPayload::Issued { port: p },
            ) && p == port,
            CallOutcome::Issued(Err(e)) => r.error_text() == Some(
                "Failed to issue new worker: "@ + e@,
            ),
            CallOutcome::ActivePorts(ports) => r matches Response::Success(
                SuccessPayload::Active { ports: ps },
            ) && ps@ == ports@,
            CallOutcome::Stopped(Ok(port)) => r matches Response::Success(
                SuccessPayload::Closed { port: p },
            ) && p == port,
            CallOutcome::Stopped(Err(e)) => r.error_text() == Some(
                "Failed to close the worker: "@ + e@,
            ),
            CallOutcome::Stats(Ok((port, stats))) => r matches Response::Success(
                SuccessPayload::Stats { port: p, stats: st },
            ) && p == port && st == stats,
            CallOutcome::Stats(Err(e)) => r.error_text() == Some(
                "Failed to retreive stats for the worker: "@ + e@,
            ),
        },
{
    match outcome {
        CallOutcome::Issued(result) => Response::issued_from_result(result),
        CallOutcome::ActivePorts(ports) => Response::Success(SuccessPayload::Active { ports }),
        CallOutcome::Stopped(result) => Response::closed_from_result(result),
        CallOutcome::Stats(result) => Response::stats_from_result(result),
    }
}

} // verus!
