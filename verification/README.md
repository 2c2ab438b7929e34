# aicam

The core of a camera's broadcasting service, verified with Verus, and the
service around it.

The library decides and computes; the application performs.

- `src/renderer`, `src/glyphs.rs`, `src/commands.rs`, `src/layout`: a scoreboard
  is laid out as a list of commands and painted into NV12 video frames.
- `src/plugin.rs`: the media element that paints every frame of a stream.
- `src/overlay.rs`, `src/teams.rs`, `src/vector_overlay.rs`: packets of a game
  controller become the state of a match, and that state becomes texts, panels
  and dots.
- `src/graph.rs`, `src/producer.rs`, `src/consumers.rs`: media pipelines as
  data, which elements to make and how to link them.
- `src/controller.rs`, `src/recording.rs`, `src/service`: which pipeline runs
  when, what a request leads to, and what follows when one fails.
- `src/abr.rs`, `src/session.rs`, `src/frame_export.rs`, `src/devices.rs`,
  `src/model_registry.rs`: bitrate, recording sessions, exported frames, devices
  and detection models.

What holds across functions is stated as proof functions whose names begin with
`law_`. What the library takes on trust from outside crates is marked
`external_body` or `assume_specification`, each with a comment that says what is
claimed: JSON and YAML parsing in `src/json.rs`, FreeType in `src/glyphs.rs`,
the clock and random identifiers in `src/clock.rs`, and two functions of the
standard library in `src/text.rs` and `src/overlay.rs`.

`app` holds the service itself: HTTP, files, the message bus and the media
framework. It needs GStreamer, Cairo and ZeroMQ with their Rust bindings on the
machine it is built on.
