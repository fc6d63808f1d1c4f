use audio_streamer::framing::{FillAction, FrameFill, FRAME_SIZE};
use audio_streamer::ring_buffer::ring_buffer;

#[test]
fn frames_are_delivered_when_full() {
    let mut f = FrameFill::new();
    assert_eq!(f.on_popped(1000, FRAME_SIZE, true), FillAction::PopMore);
    assert_eq!(f.filled(), 1000);
    assert_eq!(f.on_popped(920, FRAME_SIZE, true), FillAction::Deliver);
    assert_eq!(f.filled(), FRAME_SIZE);
    f.on_delivered();
    assert_eq!(f.filled(), 0);
}

#[test]
fn an_empty_ring_is_checked_again_before_sleeping() {
    let mut f = FrameFill::new();
    assert_eq!(f.on_popped(0, 8, true), FillAction::Listen);
    // data arrived between the first pop and registering: no sleep
    assert_eq!(f.on_popped(3, 8, true), FillAction::PopMore);
    assert_eq!(f.on_popped(0, 8, true), FillAction::Listen);
    assert_eq!(f.on_popped(0, 8, true), FillAction::Wait);
    assert_eq!(f.on_popped(0, 8, true), FillAction::Listen);
}

#[test]
fn a_stop_ends_the_loop() {
    let mut f = FrameFill::new();
    assert_eq!(f.on_popped(0, 8, false), FillAction::Listen);
    assert_eq!(f.on_popped(0, 8, false), FillAction::Stop);

    let mut f = FrameFill::new();
    assert_eq!(f.on_popped(8, 8, false), FillAction::Stop);
}

#[test]
fn frames_assemble_from_the_ring_in_order() {
    let (mut producer, mut consumer) = ring_buffer::<u32, 8>();
    let mut frame = [0u32; 10];
    let mut fill = FrameFill::new();
    let mut next = 0u32;
    let mut frames: Vec<[u32; 10]> = Vec::new();
    while frames.len() < 3 {
        // the producer pushes a few samples at a time
        let chunk: Vec<u32> = (next..next + 4).collect();
        next += producer.push_slice(&chunk) as u32;
        let amount = consumer.pop_slice_at(&mut frame, fill.filled());
        match fill.on_popped(amount, 10, true) {
            FillAction::Deliver => {
                frames.push(frame);
                fill.on_delivered();
            }
            FillAction::PopMore | FillAction::Listen | FillAction::Wait => {}
            FillAction::Stop => panic!("not stopped"),
        }
    }
    let all: Vec<u32> = frames.iter().flat_map(|f| f.iter().copied()).collect();
    assert_eq!(all, (0..30).collect::<Vec<u32>>());
}
