//! One encoder worker per client stream: it waits for the client on its data
//! port, then encodes every frame it is handed and sends it as a packet.
//! The decisions of its two loops live here; the sockets, the encoder and the
//! thread stay with the caller.
use crate::stream_metadata::StreamMetadata;
use vstd::prelude::*;

verus! {

#[verifier::external_type_specification]
#[verifier::external_body]
pub struct ExIoError(std::io::Error);

/// Identifier of a worker; it is the data port the worker serves.
pub type WorkerId = u16;

/// Why the encoder could not be set up.
#[derive(Debug)]
pub enum EncoderSetupError {
    /// Only mono and stereo can be encoded.
    InvalidChannels(u16),
    /// Only 48 kHz can be encoded.
    InvalidSampleRate(u32),
    /// The codec refused to build an encoder; its message.
    FailedToBuildEncoder(String),
}

/// Why a worker stopped.
#[derive(Debug)]
pub enum EncoderWorkerError {
    DataSocketAcceptError(std::io::Error),
    EncoderSetupError(EncoderSetupError),
    FrameEncodingError(String),
    DataSocketWriteError(std::io::Error),
    DisconnectedFromBroadcasterError(WorkerId),
    TcpBindingError(std::io::Error),
    SetNoneblockingError(std::io::Error),
    /// No client connected before the accept deadline.
    AcceptTimeoutError(),
    SetWriteTimeout(std::io::Error),
}

/// What a worker reports to the manager.
#[derive(Debug)]
pub enum WorkerEvent {
    StoppedWithError(EncoderWorkerError),
}

/// A worker's report, tagged with the worker's id.
#[derive(Debug)]
pub struct WorkerMessage {
    pub id: WorkerId,
    pub event: WorkerEvent,
}

impl WorkerMessage {
    pub fn new(id: WorkerId, event: WorkerEvent) -> (r: Self)
        ensures
            r.id == id,
            r.event == event,
    {
        WorkerMessage { id, event }
    }
}

/// Channel layouts the codec accepts.
#[derive(Debug, Clone, Copy, PartialEq, Eq, Structural)]
pub enum OpusChannels {
    Mono,
    Stereo,
}

/// Sample rates the codec is used with.
#[derive(Debug, Clone, Copy, PartialEq, Eq, Structural)]
pub enum OpusSampleRate {
    Hz48000,
}

/// How the encoder of a stream is configured (always for general audio).
#[derive(Debug, Clone, Copy, PartialEq, Eq, Structural)]
pub struct EncoderSettings {
    pub channels: OpusChannels,
    pub sample_rate: OpusSampleRate,
}

/// The channel layout for a channel count the codec accepts.
pub open spec fn channels_for(count: u16) -> Option<OpusChannels> {
    if count == 1 {
        Some(OpusChannels::Mono)
    } else if count == 2 {
        Some(OpusChannels::Stereo)
    } else {
        None
    }
}

/// The codec takes one or two channels and nothing else: one channel is mono,
/// two are stereo, and every other count has no layout.
pub proof fn lemma_only_mono_and_stereo(count: u16)
    ensures
        channels_for(count) is Some <==> (count == 1 || count == 2),
        channels_for(count) == Some(OpusChannels::Mono) <==> count == 1,
        channels_for(count) == Some(OpusChannels::Stereo) <==> count == 2,
{
}

/// The encoder settings for a stream, checked as the worker does before building
/// its encoder: the channel count first, then the sample rate.
pub fn encoder_settings(metadata: &StreamMetadata) -> (r: Result<EncoderSettings, EncoderSetupError>)
    ensures
        metadata.channels != 1 && metadata.channels != 2 ==> r == Err::<
            EncoderSettings,
            EncoderSetupError,
        >(EncoderSetupError::InvalidChannels(metadata.channels)),
        (metadata.channels == 1 || metadata.channels == 2) && metadata.sample_rate != 48000 ==> r
            == Err::<EncoderSettings, EncoderSetupError>(
            EncoderSetupError::InvalidSampleRate(metadata.sample_rate),
        ),
        r is Ok ==> metadata.sample_rate == 48000 && r->Ok_0.sample_rate == OpusSampleRate::Hz48000,
        r is Ok ==> (r->Ok_0.channels == OpusChannels::Mono <==> metadata.channels == 1),
        r is Ok ==> (r->Ok_0.channels == OpusChannels::Stereo <==> metadata.channels == 2),
        (metadata.channels == 1 || metadata.channels == 2) && metadata.sample_rate == 48000 ==> r is Ok,
        channels_for(metadata.channels) is None ==> (r matches Err(
            EncoderSetupError::InvalidChannels(c),
        ) && c == metadata.channels),
        channels_for(metadata.channels) is Some && metadata.sample_rate != 48000 ==> (r matches Err(
            EncoderSetupError::InvalidSampleRate(s),
        ) && s == metadata.sample_rate),
        channels_for(metadata.channels) is Some && metadata.sample_rate == 48000 ==> r == Ok::<
            EncoderSettings,
            EncoderSetupError,
        >(
            EncoderSettings {
                channels: channels_for(metadata.channels).unwrap(),
                sample_rate: OpusSampleRate::Hz48000,
            },
        ),
{
    let channels = match metadata.channels {
        1u16 => OpusChannels::Mono,
        2u16 => OpusChannels::Stereo,
        rest => return Err(EncoderSetupError::InvalidChannels(rest)),
    };
    let sample_rate = match metadata.sample_rate {
        48000u32 => OpusSampleRate::Hz48000,
        rest => return Err(EncoderSetupError::InvalidSampleRate(rest)),
    };
    Ok(EncoderSettings { channels, sample_rate })
}

/// Settings for re-encoding a recording whatever its format says: an unsupported
/// channel count falls back to stereo and any sample rate to 48 kHz (the caller
/// warns about both).
pub fn lenient_settings(channels: u16, sample_rate: u32) -> (r: EncoderSettings)
    ensures
        r.channels == (if channels == 1 {
            OpusChannels::Mono
        } else {
            OpusChannels::Stereo
        }),
        r.sample_rate == OpusSampleRate::Hz48000,
{
    let channels = match channels {
        1u16 => OpusChannels::Mono,
        2u16 => OpusChannels::Stereo,
        _ => OpusChannels::Stereo,
    };
    EncoderSettings { channels, sample_rate: OpusSampleRate::Hz48000 }
}

/// Where a worker is in its life.
#[derive(Debug, Clone, Copy, PartialEq, Eq, Structural)]
pub enum WorkerPhase {
    /// Waiting for the client to connect to the data port.
    Accepting,
    /// Encoding and sending frames.
    Streaming,
    /// Returned, with or without an error.
    Finished,
}

/// What came of one non-blocking accept on the data port.
#[derive(Debug, Clone, Copy, PartialEq, Eq, Structural)]
pub enum AcceptOutcome {
    Connected,
    WouldBlock,
    Failed,
}

/// What came of one wait (with a timeout) for the next frame.
#[derive(Debug, Clone, Copy, PartialEq, Eq, Structural)]
pub enum RecvOutcome {
    Frame,
    TimedOut,
    Disconnected,
}

/// Why a worker gives up.
#[derive(Debug, Clone, Copy, PartialEq, Eq, Structural)]
pub enum WorkerFailure {
    /// No client before the deadline.
    AcceptTimeout,
    /// Accepting failed for another reason than "would block".
    AcceptFailed,
    /// The frame source went away.
    Disconnected,
}

/// What the worker does next.
#[derive(Debug, Clone, Copy, PartialEq, Eq, Structural)]
pub enum WorkerStep {
    /// Return without error (a stop was requested).
    Exit,
    /// Return with the error for this failure.
    Fail(WorkerFailure),
    /// Try to accept the client.
    Accept,
    /// Sleep a little, then look again.
    Sleep,
    /// The client is connected: set the write timeout and build the encoder.
    Setup,
    /// Wait (with a timeout) for the next frame.
    Receive,
    /// Encode the received frame and send it as a packet, then start the next round.
    EncodeAndSend,
    /// Start the next round (back to the check of the stop flag).
    NextRound,
}

/// The worker's decisions, driven by what its caller observes.
pub struct WorkerControl {
    phase: WorkerPhase,
}

impl WorkerControl {
    pub closed spec fn phase_spec(&self) -> WorkerPhase {
        self.phase
    }

    /// A worker waiting for its client.
    pub fn new() -> (r: Self)
        ensures
            r.phase_spec() == WorkerPhase::Accepting,
    {
        WorkerControl { phase: WorkerPhase::Accepting }
    }

    /// Current phase.
    pub fn phase(&self) -> (r: WorkerPhase)
        ensures
            r == self.phase_spec(),
    {
        self.phase
    }

    /// The check at the top of each loop round: a requested stop ends the worker
    /// without error; while accepting, a passed deadline ends it with a timeout;
    /// otherwise the round goes on with an accept or a receive.
    pub fn poll(&mut self, stop_requested: bool, deadline_passed: bool) -> (step: WorkerStep)
        requires
            old(self).phase_spec() != WorkerPhase::Finished,
        ensures
            step == (if stop_requested {
                WorkerStep::Exit
            } else if old(self).phase_spec() == WorkerPhase::Accepting && deadline_passed {
                WorkerStep::Fail(WorkerFailure::AcceptTimeout)
            } else if old(self).phase_spec() == WorkerPhase::Accepting {
                WorkerStep::Accept
            } else {
                WorkerStep::Receive
            }),
            final(self).phase_spec() == (if step is Exit || step is Fail {
                WorkerPhase::Finished
            } else {
                old(self).phase_spec()
            }),
    {
        if stop_requested {
            self.phase = WorkerPhase::Finished;
            WorkerStep::Exit
        } else if self.phase == WorkerPhase::Accepting {
            if deadline_passed {
                self.phase = WorkerPhase::Finished;
                WorkerStep::Fail(WorkerFailure::AcceptTimeout)
            } else {
                WorkerStep::Accept
            }
        } else {
            WorkerStep::Receive
        }
    }

    /// The result of an accept: a client moves the worker to streaming; "would
    /// block" means sleep and look again; any other error ends the worker.
    pub fn on_accept(&mut self, outcome: AcceptOutcome) -> (step: WorkerStep)
        requires
            old(self).phase_spec() == WorkerPhase::Accepting,
        ensures
            step == (match outcome {
                AcceptOutcome::Connected => WorkerStep::Setup,
                AcceptOutcome::WouldBlock => WorkerStep::Sleep,
                AcceptOutcome::Failed => WorkerStep::Fail(WorkerFailure::AcceptFailed),
            }),
            final(self).phase_spec() == (match outcome {
                AcceptOutcome::Connected => WorkerPhase::Streaming,
                AcceptOutcome::WouldBlock => WorkerPhase::Accepting,
                AcceptOutcome::Failed => WorkerPhase::Finished,
            }),
    {
        match outcome {
            AcceptOutcome::Connected => {
                self.phase = WorkerPhase::Streaming;
                WorkerStep::Setup
            },
            AcceptOutcome::WouldBlock => WorkerStep::Sleep,
            AcceptOutcome::Failed => {
                self.phase = WorkerPhase::Finished;
                WorkerStep::Fail(WorkerFailure::AcceptFailed)
            },
        }
    }

    /// The result of waiting for a frame: a frame is encoded and sent; a timeout
    /// only leads to the next round, where the stop flag is checked again; a
    /// vanished source ends the worker.
    pub fn on_receive(&mut self, outcome: RecvOutcome) -> (step: WorkerStep)
        requires
            old(self).phase_spec() == WorkerPhase::Streaming,
        ensures
            step == (match outcome {
                RecvOutcome::Frame => WorkerStep::EncodeAndSend,
                RecvOutcome::TimedOut => WorkerStep::NextRound,
                RecvOutcome::Disconnected => WorkerStep::Fail(WorkerFailure::Disconnected),
            }),
            final(self).phase_spec() == (match outcome {
                RecvOutcome::Disconnected => WorkerPhase::Finished,
                _ => WorkerPhase::Streaming,
            }),
    {
        match outcome {
            RecvOutcome::Frame => WorkerStep::EncodeAndSend,
            RecvOutcome::TimedOut => WorkerStep::NextRound,
            RecvOutcome::Disconnected => {
                self.phase = WorkerPhase::Finished;
                WorkerStep::Fail(WorkerFailure::Disconnected)
            },
        }
    }
}

} // verus!
