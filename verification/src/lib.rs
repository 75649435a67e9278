//! Verified core of a small voice and text chat system.
//!
//! Server side: the signalling wire format ([`protocol`]), the rooms
//! ([`room`]), each client's session ([`session`]), the voice relay
//! ([`relay`]) and the settings ([`config`]).
//!
//! Client side: voice packets ([`voice`]) and the jitter buffer ([`jitter`]),
//! screen-share fragments and their reassembly ([`screen`]) and capture pacing
//! ([`capture`]), chat encryption ([`crypto`], [`chat`]), the connected
//! screen's state ([`client`], [`status`]), the login form ([`login`]), audio
//! devices ([`devices`]), push-to-talk bindings ([`hotkeys`]) and the tray
//! ([`tray`]).
pub mod bytes;
pub mod text;
pub mod protocol;
pub mod voice;
pub mod screen;
pub mod capture;
pub mod jitter;
pub mod room;
pub mod session;
pub mod relay;
pub mod config;
pub mod crypto;
pub mod chat;
pub mod client;
pub mod status;
pub mod login;
pub mod devices;
pub mod hotkeys;
pub mod tray;
