//! Running and stopping the capture pipeline (capture stream, framing thread
//! and frame broadcaster). For each request the pipeline decides here what
//! outside work is due (start the streams, stop them, register a subscriber,
//! or nothing); the caller does that work and reports how it went.
use vstd::prelude::*;

verus! {

/// Whether the pipeline runs.
#[derive(Debug, Clone, Copy, PartialEq, Eq, Structural)]
pub enum PipelineState {
    Running,
    Stopped,
}

/// What is asked of the pipeline.
#[derive(Debug, Clone, Copy, PartialEq, Eq, Structural)]
pub enum PipelineRequest {
    Start,
    Stop,
    /// Register a worker for the frames.
    Subscribe,
}

/// The outside work a request calls for.
#[derive(Debug, Clone, Copy, PartialEq, Eq, Structural)]
pub enum PipelineAction {
    /// Start the capture stream and the broadcaster.
    StartStreams,
    /// Stop the capture stream.
    StopStreams,
    /// Register the subscriber with the broadcaster.
    Subscribe,
    /// Nothing to do: the request succeeds as things are.
    Nothing,
    /// Refuse: a stopped pipeline has no frames to give.
    RefuseNotRunning,
}

/// The action for `request` in `state`: starting a running pipeline and stopping
/// a stopped one do nothing; subscribing works only while it runs.
pub open spec fn pipeline_action(state: PipelineState, request: PipelineRequest) -> PipelineAction {
    match (state, request) {
        (PipelineState::Stopped, PipelineRequest::Start) => PipelineAction::StartStreams,
        (PipelineState::Running, PipelineRequest::Start) => PipelineAction::Nothing,
        (PipelineState::Running, PipelineRequest::Stop) => PipelineAction::StopStreams,
        (PipelineState::Stopped, PipelineRequest::Stop) => PipelineAction::Nothing,
        (PipelineState::Running, PipelineRequest::Subscribe) => PipelineAction::Subscribe,
        (PipelineState::Stopped, PipelineRequest::Subscribe) => PipelineAction::RefuseNotRunning,
    }
}

/// The state after `action` was carried out, `succeeded` telling how it went:
/// the pipeline runs after streams started successfully, and is stopped after
/// they stopped successfully; a failed start or stop, and every other action,
/// leave the state as it was.
pub open spec fn state_after(
    state: PipelineState,
    action: PipelineAction,
    succeeded: bool,
) -> PipelineState {
    match action {
        PipelineAction::StartStreams => if succeeded {
            PipelineState::Running
        } else {
            state
        },
        PipelineAction::StopStreams => if succeeded {
            PipelineState::Stopped
        } else {
            state
        },
        _ => state,
    }
}

/// The pipeline's state and the rules for changing it.
pub struct PipelineControl {
    state: PipelineState,
}

impl PipelineControl {
    pub closed spec fn state_spec(&self) -> PipelineState {
        self.state
    }

    /// A pipeline that has not been started.
    pub fn new() -> (r: Self)
        ensures
            r.state_spec() == PipelineState::Stopped,
    {
        PipelineControl { state: PipelineState::Stopped }
    }

    /// The outside work that `request` calls for now.
    pub fn decide(&self, request: PipelineRequest) -> (a: PipelineAction)
        ensures
            a == pipeline_action(self.state_spec(), request),
    {
        match (self.state, request) {
            (PipelineState::Stopped, PipelineRequest::Start) => PipelineAction::StartStreams,
            (PipelineState::Running, PipelineRequest::Start) => PipelineAction::Nothing,
            (PipelineState::Running, PipelineRequest::Stop) => PipelineAction::StopStreams,
            (PipelineState::Stopped, PipelineRequest::Stop) => PipelineAction::Nothing,
            (PipelineState::Running, PipelineRequest::Subscribe) => PipelineAction::Subscribe,
            (PipelineState::Stopped, PipelineRequest::Subscribe) => PipelineAction::RefuseNotRunning,
        }
    }

    /// Records how `action`, decided in the current state, went.
    pub fn record(&mut self, action: PipelineAction, succeeded: bool)
        ensures
            final(self).state_spec() == state_after(old(self).state_spec(), action, succeeded),
    {
        match action {
            PipelineAction::StartStreams => {
                if succeeded {
                    self.state = PipelineState::Running;
                }
            },
            PipelineAction::StopStreams => {
                if succeeded {
                    self.state = PipelineState::Stopped;
                }
            },
            _ => {},
        }
    }
}

/// Starting is idempotent: once a start succeeded, a second start calls for no
/// work and leaves the pipeline running; and a successful stop brings it back to
/// where subscribing is refused.
pub proof fn lemma_start_is_idempotent(state: PipelineState, succeeded: bool)
    ensures
        ({
            let a = pipeline_action(state, PipelineRequest::Start);
            let s1 = state_after(state, a, true);
            &&& s1 == PipelineState::Running
            &&& pipeline_action(s1, PipelineRequest::Start) == PipelineAction::Nothing
            &&& state_after(s1, PipelineAction::Nothing, succeeded) == s1
            &&& pipeline_action(s1, PipelineRequest::Subscribe) == PipelineAction::Subscribe
            &&& pipeline_action(
                state_after(s1, pipeline_action(s1, PipelineRequest::Stop), true),
                PipelineRequest::Subscribe,
            ) == PipelineAction::RefuseNotRunning
        }),
{
}

} // verus!
