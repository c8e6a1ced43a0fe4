# green_vita

The decision logic of a cloud-gaming client for the PlayStation Vita, written in Verus
and verified: every public function states what it returns or changes, and the
properties that span calls are proved as `law_*` proof functions.

## Layout

- `src/rtc/`: the receive side of the WebRTC session — RTP reordering and NACK repair
  (`reorder`), H.264 fragment validation and access-unit assembly (`h264`,
  `video_rtp`), Opus sample release (`audio_rtp`), sender clocks (`clock`), receive
  budget and REMB ceiling feedback (`congestion`, `feedback`), SDP feedback negotiation
  (`sdp`), report-interceptor bookkeeping (`stream_bindings`), keyframe-request timing
  (`keyframes`), traffic accounting and status texts.
- `src/video/`: the decoder side — texture hand-off (`output`), picture timing and
  presentation feedback (`timing`), recovery and queue policy (`policy`,
  `decode_epoch`), catch-up and start-up help (`catch_up`, `startup`), the flight
  recorder (`trace`) and the performance summary (`metrics`).
- `src/audio/`: playback gain ramps, admission timing, service resets, per-buffer
  admission and queue trimming.
- `src/input.rs`: the Xbox input channel's wire format and queue.
- `src/microphone.rs`, `src/voice_uplink.rs`: opt-in voice capture and its chat uplink.
- `src/video/frame_layout.rs`: the pitch and size checks around a hardware decode.
- `src/catalog.rs`, `src/collections.rs`, `src/games.rs`: favorites, play history,
  provider-ordered collections and the playable-games list.
- `src/touch.rs`, `src/gestures.rs`, `src/overlay.rs`, `src/session_kind.rs`: touch
  routing, the Back hold-to-pause and menu-direction repeat, and the paused menu.
- `app/`: a small host-side program and the glue that the library leaves to its
  caller: JSON parsing with serde, files, floating-point controller input, the
  process-wide recorder, and drivers that feed RTP packets to the receive paths
  (`green-vita replay-audio <capture>` runs a saved audio capture through them).
- `tests/`: scenario tests of the library.

Outside crates: `rtc` (H.264 depacketizer and Opus sample builder, behind trusted
wrappers in `src/rtc/h264.rs` and `src/rtc/audio_rtp.rs`), `h264-reader` (Annex B splitting and SPS parsing,
behind two wrappers in `src/rtc/video_rtp.rs`), `bytes` (inside those wrappers and in
`app/`), and `serde`, `serde_json`, `anyhow` in `app/`.
