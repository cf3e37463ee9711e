//! LAN remote desktop core: the BUD datagram transport, capability negotiation,
//! the message codec, and the decisions of the host and client sessions.
//!
//! Everything here is free of I/O. Sockets, windows, codecs and clocks live in the
//! application, which hands plain values in and carries out what comes back.

pub mod bytes;
pub mod timing;

// Capabilities and messages.
pub mod caps;
pub mod codec;
pub mod messages;
pub mod wire;

// BUD: Better User Datagrams for LAN interactive video.
// UDP + X25519/HKDF/AES-256-GCM, selective retransmission, encoder bitrate coupling.
pub mod congestion;
pub mod crypto;
pub mod endpoint;
pub mod link;
pub mod ordering;
pub mod packet;
pub mod reliable;
pub mod session_laws;
pub mod video;

// Media.
pub mod audio;
pub mod capture;
pub mod decode;
pub mod encode;
pub mod present;

// Sessions.
pub mod client;
pub mod config;
pub mod host;
pub mod input;
pub mod keys;
pub mod launcher;
pub mod loopback;
