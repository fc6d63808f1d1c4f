//! Messages of the control connection: the commands a client sends and the
//! responses the server answers with (one JSON object per line on the wire;
//! the JSON mapping itself lives with the serde derives of the binary).
use vstd::prelude::*;

verus! {

/// Per-stream counters reported by a `Stats` command.
#[derive(Debug, Clone, Copy, PartialEq, Eq)]
pub struct StreamStats {
    pub frames_sent: u64,
    pub frames_dropped: u64,
    pub connected_duration_secs: u64,
}

/// A request from the client.
#[derive(Debug, Clone, Copy, PartialEq, Eq)]
pub enum Command {
    /// Requests a new audio stream; the server picks and assigns an available port.
    Issue,
    /// Closes the stream on a specific port and frees its resources.
    Close { port: u16 },
    /// Asks for a list of all currently active ports.
    Active,
    /// Asks for statistics of a specific stream.
    Stats { port: u16 },
}

/// The payload of a successful answer, one variant per command.
#[derive(Debug)]
pub enum SuccessPayload {
    /// Answer to `Issue`.
    Issued { port: u16 },
    /// Answer to `Close`.
    Closed { port: u16 },
    /// Answer to `Active`.
    Active { ports: Vec<u16> },
    /// Answer to `Stats`.
    Stats { port: u16, stats: StreamStats },
}

/// The payload of a failed answer: a human-readable reason.
#[derive(Debug)]
pub struct ErrorPayload {
    pub message: String,
}

/// The server's answer to one command.
#[derive(Debug)]
pub enum Response {
    Success(SuccessPayload),
    Error(ErrorPayload),
}

/// `prefix` followed by `detail`.
fn join_message(prefix: &str, detail: &str) -> (r: String)
    ensures
        r@ == prefix@ + detail@,
{
    let mut m = String::from_str(prefix);
    m.append(detail);
    m
}

impl Response {
    /// The text of an error answer, or nothing for a success.
    pub open spec fn error_text(self) -> Option<Seq<char>> {
        match self {
            Response::Error(p) => Some(p.message@),
            Response::Success(_) => None,
        }
    }

    /// Answer to `Issue`: the issued port, or the reason (already rendered as text) it failed.
    pub fn issued_from_result(result: Result<u16, String>) -> (r: Response)
        ensures
            match result {
                Ok(port) => r matches Response::Success(SuccessPayload::Issued { port: p }) && p
                    == port,
                Err(e) => r.error_text() == Some("Failed to issue new worker: "@ + e@),
            },
    {
        match result {
            Ok(port) => Response::Success(SuccessPayload::Issued { port }),
            Err(e) => Response::Error(
                ErrorPayload { message: join_message("Failed to issue new worker: ", e.as_str()) },
            ),
        }
    }

    /// Answer to `Close`: the closed port, or the reason it failed.
    pub fn closed_from_result(result: Result<u16, String>) -> (r: Response)
        ensures
            match result {
                Ok(port) => r matches Response::Success(SuccessPayload::Closed { port: p }) && p
                    == port,
                Err(e) => r.error_text() == Some("Failed to close the worker: "@ + e@),
            },
    {
        match result {
            Ok(port) => Response::Success(SuccessPayload::Closed { port }),
            Err(e) => Response::Error(
                ErrorPayload { message: join_message("Failed to close the worker: ", e.as_str()) },
            ),
        }
    }

    /// Answer to `Active`: the active ports, or the reason they could not be listed.
    pub fn active_from_result(result: Result<Vec<u16>, String>) -> (r: Response)
        ensures
            match result {
                Ok(ports) => r matches Response::Success(SuccessPayload::Active { ports: ps })
                    && ps@ == ports@,
                Err(e) => r.error_text() == Some("Failed to retreive active workers: "@ + e@),
            },
    {
        match result {
            Ok(ports) => Response::Success(SuccessPayload::Active { ports }),
            Err(e) => Response::Error(
                ErrorPayload {
                    message: join_message("Failed to retreive active workers: ", e.as_str()),
                },
            ),
        }
    }

    /// Answer to `Stats`: the port and its counters, or the reason they could not be read.
    pub fn stats_from_result(result: Result<(u16, StreamStats), String>) -> (r: Response)
        ensures
            match result {
                Ok((port, stats)) => r matches Response::Success(
                    SuccessPayload::Stats { port: p, stats: s },
                ) && p == port && s == stats,
                Err(e) => r.error_text() == Some(
                    "Failed to retreive stats for the worker: "@ + e@,
                ),
            },
    {
        match result {
            Ok((port, stats)) => Response::Success(SuccessPayload::Stats { port, stats }),
            Err(e) => Response::Error(
                ErrorPayload {
                    message: join_message("Failed to retreive stats for the worker: ", e.as_str()),
                },
            ),
        }
    }
}

} // verus!
