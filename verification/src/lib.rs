//! The verified core of a terminal music player's side features: fan lighting that follows the
//! album colours, audio routing and capture for the visualizer, the full-screen player view, and
//! sleep inhibition during playback.
//!
//! The library decides and computes. Sockets, child processes, threads and drawing belong to the
//! caller, who carries out the actions that the library asks for and reports what came of them.

pub mod audio_capture;
pub mod binary64;
pub mod fullscreen;
pub mod inhibit;
pub mod layout;
pub mod player;
pub mod rgb;
pub mod text;
