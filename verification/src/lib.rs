//! Verified core of a remote-control car link: the dual-format wire codecs,
//! the single-active-client control session, video frame extraction and
//! chunked fragmentation, the joystick filter with its fail-safe watchdog,
//! and the discovery directory. Network, process and timer plumbing live
//! outside the library and call into these functions with plain values.
pub mod advertise;
pub mod bridge;
pub mod browse;
pub mod chunks;
pub mod config;
pub mod decode;
pub mod directory;
pub mod events;
pub mod frames;
pub mod num;
pub mod packet;
pub mod session;
pub mod streamer;
pub mod types;
pub mod wire;
