//! Capture audio, cut it into frames, and stream it to clients as encoded
//! packets, with a line-based control protocol to open and close streams.
use vstd::prelude::*;

pub mod audio_pipeline;
pub mod broadcasting;
pub mod encoder_worker;
pub mod framing;
pub mod packet;
pub mod protocol;
pub mod ring_buffer;
pub mod server;
pub mod stream_metadata;
pub mod workers_manager;

verus! {

/// Runs `f` once: the entry point of a concurrency scenario, which an exhaustive
/// scheduler would run under every interleaving and an ordinary build runs once.
pub fn model<F: FnOnce()>(f: F)
    requires
        f.requires(()),
    ensures
        f.ensures((), ()),
{
    f()
}

} // verus!
