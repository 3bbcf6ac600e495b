//! MoQ Boy: a crowd-controlled Game Boy Color emulator that streams over MoQ.
//!
//! This library holds what the program decides and computes, as functions with
//! contracts. The program around it owns the sockets, the threads and the
//! codecs: it reports what happened, and performs what it is told.
//!
//! - The game: [`emulation`] takes the turns of the emulator loop, [`game`] says
//!   what happens in them, [`session`] when emulation stands still, [`input`]
//!   what viewers send, and [`config`] how a run is set up. [`clock`] tells the
//!   time, and [`emulator`] names the buttons.
//! - The media: [`encode`] and [`video`] for H.264, [`producer`] and [`audio`]
//!   for Opus, [`rtp`] and [`codec`] for their way to browsers.
//! - WebRTC: [`webrtc`] and [`peer`] for the peers, [`signaling`] for how they
//!   are reached.
//! - The network: [`server`] for connections over QUIC, [`tls`] for certificates
//!   and keys, [`fingerprint`] for telling browsers which certificate to expect,
//!   [`net`] for addresses.
//! - What the others are built from: [`text`], [`base16`], [`json`], [`buffer`]
//!   and [`table`].

pub mod audio;
pub mod base16;
pub mod buffer;
pub mod clock;
pub mod codec;
pub mod config;
pub mod emulation;
pub mod emulator;
pub mod encode;
pub mod fingerprint;
pub mod game;
pub mod input;
pub mod json;
pub mod net;
pub mod peer;
pub mod producer;
pub mod rtp;
pub mod server;
pub mod session;
pub mod signaling;
pub mod table;
pub mod text;
pub mod tls;
pub mod video;
pub mod webrtc;
