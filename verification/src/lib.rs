//! Event-camera data logging: wire formats, recording, control interface and live view.

pub mod api;
pub mod buffer;
pub mod bytes;
pub mod camera;
pub mod decoder;
pub mod events;
pub mod http;
pub mod jpeg;
pub mod json;
pub mod names;
pub mod painter;
pub mod pipeline;
pub mod reader;
pub mod replay;
pub mod socket;
pub mod text;
pub mod viewfinder;
