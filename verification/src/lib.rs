//! Core of a standalone host for CLAP audio plugins.
//!
//! Everything the host decides stands here as verified code: event lists and
//! their translation, the bounded queues between threads, timers and watched
//! descriptors, the audio engine, presets, state streams, the plugin search
//! and the command line. Calls into plugins, devices, files and windows are
//! made by the program around this library, which hands in plain values and
//! carries out what the functions here answer.
//!
//! Floating point values travel as their IEEE 754 bit patterns, pointers the
//! host only passes on travel as plain addresses.

pub mod audio;
pub mod cli;
pub mod events;
pub mod gui;
pub mod host;
pub mod loader;
pub mod order;
pub mod picker;
pub mod plugin_gui;
pub mod posix_fd;
pub mod preset;
pub mod queue;
pub mod remote_controls;
pub mod report;
pub mod scan;
pub mod session;
pub mod state;
pub mod text;
pub mod thread_pool;
pub mod timers;
pub mod win32_embed;
