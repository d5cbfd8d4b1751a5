# sherpa_rs

Offline speaker diarization on top of the sherpa-onnx engine, written in Verus.

The engine does the signal processing behind a C interface. The library under
`src/` holds what surrounds it, with every function proved against its contract:

* `diarize/config.rs`, `diarize/session.rs`: the configuration and how it becomes
  the engine's; a diarizer and how it comes to be.
* `diarize/computation.rs`: one diarization as a state machine. It names the next
  engine call, takes the answer, and yields the outcome.
* `diarize/segments.rs`: the segments that were found and the embeddings of their
  speakers.
* `diarize/laws.rs`: what holds of every computation whatever the engine answers:
  when it succeeds, which embeddings are collected, that nothing is used after it
  was released, that everything is released on success, and that it ends.
* `diarize/float.rs`, `diarize/c_int.rs`, `diarize/error.rs`: numbers by their bit
  patterns, C integers, and errors.

`app/` makes the calls through `sherpa-rs-sys` and converts floating-point numbers
to and from their bit patterns. `tests/` runs the library against a scripted
engine.
