# remote_play

Watch and control another machine: a host captures its screen and sound and takes input, a viewer
shows and plays them and talks back. This crate is the part of it that decides: the protocol, the
state of a host and of a viewer, and what they do next. It is written in Verus, and every function
is proved to do what its `ensures` says.

- `src/protocol` - what is sent: lanes and kinds of content, envelopes, the compact form of realtime
  packets, timing checkpoints, session commands; `codec` gives messages their bytes.
- `src/wire.rs` - how values become bytes and come back.
- `src/hevc.rs` - access units and keyframes in an HEVC stream.
- `src/audio_frames.rs` - samples cut into frames of equal length.
- `src/file_transfer.rs` - what happens to files under way, and what is logged of it.
- `src/host` - connections, subscriptions and who may press keys; what is captured, encoded and
  paced; input for Linux, macOS and Windows.
- `src/client` - jitter buffer, audio player, session, talkback, transfers, pairing, and the window.
- `src/table.rs`, `src/text.rs`, `src/bytes.rs` - maps, texts and numbers underneath.
- `app` - a host for Linux and a viewer for the terminal around the library: sockets, devices,
  `ffmpeg`, and whatever is computed in floating point.
- `tests` - the library on concrete values.

What the library takes on trust stands behind functions marked `external_body`: `bincode` for
integers, bytes, characters and texts in `src/wire.rs`, and a random number from `rand` in
`src/client/view.rs`.
