//! Render-job pipeline for exporting a chart-driven rhythm-game performance
//! into an encoded video file.
//!
//! The pipeline deterministically drives a scene renderer with a virtual
//! clock, mixes a multi-track audio program into one PCM buffer, streams
//! captured frames through an N-buffered GPU readback ring into an external
//! encoder process, negotiates hardware-encoder availability with a software
//! fallback, and schedules concurrent render jobs through an orchestrator
//! with a line-delimited IPC event protocol.
//!
//! All times are carried as integer milliseconds and all audio samples as
//! integer fixed-point amplitudes, so that every computation in the pipeline
//! is exact and deterministic.

pub mod audio;
pub mod chartlist;
pub mod config;
pub mod encoder;
pub mod ipc;
pub mod mixdown;
pub mod ring;
pub mod shell;
pub mod task;
pub mod text;
pub mod timing;
pub mod video;
