use audio_streamer::encoder_worker::{
    encoder_settings, lenient_settings, AcceptOutcome, EncoderSettings, EncoderSetupError,
    EncoderWorkerError, OpusChannels, OpusSampleRate, RecvOutcome, WorkerControl, WorkerEvent,
    WorkerFailure, WorkerMessage, WorkerPhase, WorkerStep,
};
use audio_streamer::stream_metadata::StreamMetadata;

fn metadata(sample_rate: u32, channels: u16) -> StreamMetadata {
    StreamMetadata { sample_rate, channels, format: "f32".to_string() }
}

#[test]
fn settings_for_supported_streams() {
    match encoder_settings(&metadata(48000, 1)) {
        Ok(s) => assert_eq!(
            s,
            EncoderSettings { channels: OpusChannels::Mono, sample_rate: OpusSampleRate::Hz48000 }
        ),
        Err(e) => panic!("unexpected {:?}", e),
    }
    match encoder_settings(&metadata(48000, 2)) {
        Ok(s) => assert_eq!(s.channels, OpusChannels::Stereo),
        Err(e) => panic!("unexpected {:?}", e),
    }
}

#[test]
fn unsupported_channels_are_reported_first() {
    match encoder_settings(&metadata(44100, 6)) {
        Err(EncoderSetupError::InvalidChannels(6)) => {}
        other => panic!("unexpected {:?}", other),
    }
}

#[test]
fn unsupported_sample_rate_is_reported() {
    match encoder_settings(&metadata(44100, 2)) {
        Err(EncoderSetupError::InvalidSampleRate(44100)) => {}
        other => panic!("unexpected {:?}", other),
    }
}

#[test]
fn lenient_settings_fall_back_to_stereo_48k() {
    assert_eq!(lenient_settings(1, 44100).channels, OpusChannels::Mono);
    assert_eq!(lenient_settings(2, 48000).channels, OpusChannels::Stereo);
    assert_eq!(lenient_settings(5, 8000).channels, OpusChannels::Stereo);
    assert_eq!(lenient_settings(5, 8000).sample_rate, OpusSampleRate::Hz48000);
}

#[test]
fn worker_message_keeps_id_and_event() {
    let m = WorkerMessage::new(
        49200,
        WorkerEvent::StoppedWithError(EncoderWorkerError::DisconnectedFromBroadcasterError(49200)),
    );
    assert_eq!(m.id, 49200);
    match m.event {
        WorkerEvent::StoppedWithError(EncoderWorkerError::DisconnectedFromBroadcasterError(id)) => {
            assert_eq!(id, 49200)
        }
        other => panic!("unexpected {:?}", other),
    }
}

#[test]
fn worker_waits_for_its_client_then_streams() {
    let mut c = WorkerControl::new();
    assert_eq!(c.phase(), WorkerPhase::Accepting);
    assert_eq!(c.poll(false, false), WorkerStep::Accept);
    assert_eq!(c.on_accept(AcceptOutcome::WouldBlock), WorkerStep::Sleep);
    assert_eq!(c.poll(false, false), WorkerStep::Accept);
    assert_eq!(c.on_accept(AcceptOutcome::Connected), WorkerStep::Setup);
    assert_eq!(c.phase(), WorkerPhase::Streaming);
    // the accept deadline no longer matters once connected
    assert_eq!(c.poll(false, true), WorkerStep::Receive);
    assert_eq!(c.on_receive(RecvOutcome::Frame), WorkerStep::EncodeAndSend);
    assert_eq!(c.poll(false, false), WorkerStep::Receive);
    assert_eq!(c.on_receive(RecvOutcome::TimedOut), WorkerStep::NextRound);
    assert_eq!(c.poll(true, false), WorkerStep::Exit);
    assert_eq!(c.phase(), WorkerPhase::Finished);
}

#[test]
fn worker_gives_up_without_a_client() {
    let mut c = WorkerControl::new();
    assert_eq!(c.poll(false, true), WorkerStep::Fail(WorkerFailure::AcceptTimeout));
    assert_eq!(c.phase(), WorkerPhase::Finished);

    let mut c = WorkerControl::new();
    assert_eq!(c.poll(true, true), WorkerStep::Exit);

    let mut c = WorkerControl::new();
    c.poll(false, false);
    assert_eq!(c.on_accept(AcceptOutcome::Failed), WorkerStep::Fail(WorkerFailure::AcceptFailed));
    assert_eq!(c.phase(), WorkerPhase::Finished);
}

#[test]
fn worker_fails_when_the_frames_stop() {
    let mut c = WorkerControl::new();
    c.poll(false, false);
    c.on_accept(AcceptOutcome::Connected);
    c.poll(false, false);
    assert_eq!(c.on_receive(RecvOutcome::Disconnected), WorkerStep::Fail(WorkerFailure::Disconnected));
    assert_eq!(c.phase(), WorkerPhase::Finished);
}

#[test]
fn every_error_variant_can_be_carried() {
    let io = || std::io::Error::new(std::io::ErrorKind::Other, "x");
    let errors = vec![
        EncoderWorkerError::DataSocketAcceptError(io()),
        EncoderWorkerError::EncoderSetupError(EncoderSetupError::FailedToBuildEncoder("bad".to_string())),
        EncoderWorkerError::FrameEncodingError("bad".to_string()),
        EncoderWorkerError::DataSocketWriteError(io()),
        EncoderWorkerError::DisconnectedFromBroadcasterError(1),
        EncoderWorkerError::TcpBindingError(io()),
        EncoderWorkerError::SetNoneblockingError(io()),
        EncoderWorkerError::AcceptTimeoutError(),
        EncoderWorkerError::SetWriteTimeout(io()),
    ];
    assert_eq!(errors.len(), 9);
}
