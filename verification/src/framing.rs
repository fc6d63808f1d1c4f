//! Cutting the captured sample stream into fixed-size frames.
//!
//! The capture callback pushes samples into the ring as they come; a framing
//! thread pops them into a frame buffer until it holds a whole frame, then
//! sends the frame on. When the ring runs dry the thread registers for the
//! producer's wake-up, pops once more (a push may have landed in between:
//! the lost-wakeup check), and only then sleeps. The decisions of that loop
//! live here; the thread, the wake-up event and the stop flag stay with the
//! caller, which reports what each pop returned.
use vstd::prelude::*;

verus! {

/// Samples per frame sent to the encoders: 20 ms of 48 kHz stereo audio.
pub const FRAME_SIZE: usize = 1920;

/// What the framing thread does next.
#[derive(Debug, Clone, Copy, PartialEq, Eq, Structural)]
pub enum FillAction {
    /// Pop again into the rest of the frame.
    PopMore,
    /// The ring was empty: register for the wake-up, then pop once more.
    Listen,
    /// Still empty after registering, and the stream runs: sleep until woken, then pop again.
    Wait,
    /// The frame is complete and the stream runs: send it, then start the next frame.
    Deliver,
    /// The stream was stopped: leave the loop.
    Stop,
}

/// The action after a pop of `amount` samples, with `filled` samples already in a
/// frame of `frame_len`, `listening` telling whether the thread has registered
/// for the wake-up since its last successful pop.
pub open spec fn fill_action(
    filled: int,
    listening: bool,
    amount: int,
    frame_len: int,
    running: bool,
) -> FillAction {
    if amount > 0 {
        if filled + amount == frame_len {
            if running {
                FillAction::Deliver
            } else {
                FillAction::Stop
            }
        } else {
            FillAction::PopMore
        }
    } else if !listening {
        FillAction::Listen
    } else if !running {
        FillAction::Stop
    } else {
        FillAction::Wait
    }
}

/// Progress of the frame being filled.
pub struct FrameFill {
    filled: usize,
    listening: bool,
}

impl FrameFill {
    /// Samples already in the frame.
    pub closed spec fn filled_spec(&self) -> nat {
        self.filled as nat
    }

    /// Whether the thread has registered for the wake-up since its last successful pop.
    pub closed spec fn listening_spec(&self) -> bool {
        self.listening
    }

    /// An empty frame.
    pub fn new() -> (r: Self)
        ensures
            r.filled_spec() == 0,
            !r.listening_spec(),
    {
        FrameFill { filled: 0, listening: false }
    }

    /// Samples already in the frame: the next pop writes from this position on.
    pub fn filled(&self) -> (r: usize)
        ensures
            r == self.filled_spec(),
    {
        self.filled
    }

    /// Records a pop that moved `amount` samples into the frame and says what to do next.
    pub fn on_popped(&mut self, amount: usize, frame_len: usize, running: bool) -> (a: FillAction)
        requires
            old(self).filled_spec() < frame_len,
            old(self).filled_spec() + amount <= frame_len,
        ensures
            a == fill_action(
                old(self).filled_spec() as int,
                old(self).listening_spec(),
                amount as int,
                frame_len as int,
                running,
            ),
            final(self).filled_spec() == old(self).filled_spec() + amount,
            final(self).listening_spec() == (a == FillAction::Listen),
            a == FillAction::Deliver ==> final(self).filled_spec() == frame_len,
            final(self).filled_spec() < frame_len || a == FillAction::Deliver || a
                == FillAction::Stop,
    {
        self.filled = self.filled + amount;
        if amount > 0 {
            self.listening = false;
            if self.filled == frame_len {
                if running {
                    FillAction::Deliver
                } else {
                    FillAction::Stop
                }
            } else {
                FillAction::PopMore
            }
        } else if !self.listening {
            self.listening = true;
            FillAction::Listen
        } else if !running {
            self.listening = false;
            FillAction::Stop
        } else {
            self.listening = false;
            FillAction::Wait
        }
    }

    /// Starts the next frame after one was sent.
    pub fn on_delivered(&mut self)
        ensures
            final(self).filled_spec() == 0,
            !final(self).listening_spec(),
    {
        self.filled = 0;
        self.listening = false;
    }
}

/// Cutting frames loses and reorders nothing. Say the first `start` samples of
/// the frame are the first `start` of the captured `stream`, and the ring holds
/// the rest of it; a `pop_slice_at(frame, start)` that moves `k` samples keeps
/// the frame's first `start` samples and writes the ring's first `k` after them
/// (its ensures). Then the frame's first `start + k` samples are the first
/// `start + k` of the stream, and the ring holds what follows them.
pub proof fn lemma_frame_is_a_prefix_of_the_stream<T>(
    stream: Seq<T>,
    frame: Seq<T>,
    filled_frame: Seq<T>,
    start: int,
    k: int,
)
    requires
        0 <= start <= stream.len(),
        0 <= k <= stream.len() - start,
        start + k <= frame.len(),
        filled_frame.len() == frame.len(),
        frame.take(start) == stream.take(start),
        filled_frame.take(start) == frame.take(start),
        filled_frame.subrange(start, start + k) == stream.skip(start).take(k),
    ensures
        filled_frame.take(start + k) == stream.take(start + k),
        stream.skip(start).skip(k) == stream.skip(start + k),
{
    let a = filled_frame.subrange(start, start + k);
    let b = stream.skip(start).take(k);
    assert forall|i: int| 0 <= i < start + k implies #[trigger] filled_frame[i] == stream[i] by {
        if i < start {
            assert(filled_frame.take(start)[i] == filled_frame[i]);
            assert(frame.take(start)[i] == stream.take(start)[i]);
            assert(stream.take(start)[i] == stream[i]);
        } else {
            assert(a[i - start] == filled_frame[i]);
            assert(b[i - start] == stream[i]);
        }
    }
    assert(filled_frame.take(start + k) =~= stream.take(start + k));
    assert(stream.skip(start).skip(k) =~= stream.skip(start + k));
}

} // verus!
