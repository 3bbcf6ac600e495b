# MoQ Boy

A crowd-controlled Game Boy Color emulator that streams over MoQ. Viewers watch
the game and press its buttons together.

- `src/` is the library: the emulator loop, the media pipelines, WebRTC, the
  signaling server, the QUIC server and TLS, as far as they decide or compute
  anything. It is written in Verus. Every function states what it does in its
  contract, and Verus proves it.
- `app/` is the program around it: sockets, threads, files, codecs and the
  command line. It hands the library what happened and performs what it is told.
- `tests/` runs the library.

## Modes

- **Relay mode** (`--url`): the game is published to a relay, and viewers
  connect to it. Emulation pauses while neither track is watched.
- **Server mode** (`--listen`): viewers connect directly. Emulation pauses while
  there are none.
- **WebRTC mode** (`--webrtc`): browsers connect directly over WebRTC.

The state of the game is kept while emulation is paused. When it resumes, a
video keyframe is forced and the audio timestamps are anchored anew.

## What is trusted

Calls into other crates stand behind small functions whose contracts are taken
on trust. Each says in its doc comment which function it calls and what it
claims of it. They are in `buffer`, `json`, `base16`, `clock`, `text`,
`signaling`, `server` and `tls`.

The emulator core, the codecs and the WebRTC stack are parts that the program is
put together from: see `app/parts.rs`.
