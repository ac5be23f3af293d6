//! A peer-to-peer Tor messenger: onion-address handling, the wire format of
//! its messages, PNG frame extraction for experimental video, and the state
//! of the chat session.
pub mod text;
pub mod onion;
pub mod wire;
pub mod video;
pub mod tor;
pub mod messaging;
pub mod app;
pub mod p2p;
