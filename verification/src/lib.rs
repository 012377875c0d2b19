//! A verified client for a voice-chat server's text administrative
//! console: command framing and escaping, reply decoding, the session
//! operations built on them, and the monitoring state machine that
//! keeps one automated identity online and drives a companion player.
pub mod codec;
pub mod companion;
pub mod datastructures;
pub mod escape;
pub mod monitor;
pub mod session;
pub mod strutil;
