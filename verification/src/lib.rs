//! Verified core of a camera broadcasting service.
//!
//! The crate holds everything the service decides or computes: painting a
//! scoreboard into NV12 video frames, turning game state into overlay
//! commands, adapting the stream bitrate, selecting detection models,
//! naming recording sessions and sequencing the media pipelines. Cameras,
//! files, sockets and the media framework live in the application around it.

pub mod abr;
pub mod clock;
pub mod commands;
pub mod consumers;
pub mod controller;
pub mod devices;
pub mod floats;
pub mod frame_export;
pub mod glyphs;
pub mod graph;
pub mod host_laws;
pub mod json;
pub mod layout;
pub mod model_registry;
pub mod object_detection_preview;
pub mod overlay;
pub mod overlay_laws;
pub mod paint_laws;
pub mod pipeline;
pub mod pipeline_laws;
pub mod plan_laws;
pub mod plugin;
pub mod producer;
pub mod record_laws;
pub mod recording;
pub mod renderer;
pub mod scan;
pub mod service;
pub mod session;
pub mod teams;
pub mod text;
pub mod vector_laws;
pub mod vector_overlay;
