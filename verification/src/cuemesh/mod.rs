//! CueMesh2: the video-only system in which every cue reaches every client.

pub mod client;
pub mod connection;
pub mod console;
pub mod controller;
pub mod media;
pub mod protocol;
pub mod server;
pub mod show;
pub mod window;
