# audio_streamer

A server that captures the default audio device, cuts the samples into
20 ms frames, and streams them Opus-encoded to clients. A client opens a
control connection (one JSON command per line: `issue`, `close`, `active`,
`stats`), is told the stream format, and for each issued stream connects to
the data port it was given, where every packet arrives as a 4-byte
big-endian length followed by the encoded bytes.

Layout:

- `src/` is the verified library (Verus): the SPSC ring buffer between the
  capture callback and the framing thread (`ring_buffer`), the framing
  decisions (`framing`), the packet format (`packet`), the control protocol
  messages (`protocol`), the encoder worker's settings and loop decisions
  (`encoder_worker`), the pipeline's start/stop rules (`audio_pipeline`),
  the port and worker bookkeeping (`workers_manager`), and the server loop's
  decisions (`server`).
- `app/` is the program around it: device capture (cpal), encoding (opus),
  sockets, threads, the async runtime, JSON, and error messages.
- `tests/` exercises the library.
