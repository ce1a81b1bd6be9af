# caml

Camera pipelines, described by a manifest: which cameras are read, what becomes of their
pictures, and where they go. A manifest is checked, compiled for the host it runs on, and
run.

* `src/` is the library. It decides: what a manifest means, whether a host can run it, how
  pipelines are built, restarted and given up, how media is queued, timed and cut into RTP
  packets, and what FFmpeg, libcamera and WebRTC are told. All of it is verified with Verus.
* `app/` runs what the library decides, on `tokio`: it reads files and devices, talks to
  FFmpeg, libcamera and WebRTC, and drives the state machines of the library.
* `tests/` holds the tests of the library.

What the library takes on trust is marked where it stands: the reading of URLs
(`frontend`), the packetizer of the `rtp` crate (`webrtc::rtp`), and a few functions of the
standard library (`text`, `time`, `show`, `runtime::pool`).
