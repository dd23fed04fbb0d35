//! Developer-facing half of an interactive renderer: the console, the frame capture
//! pipeline, request channels between the app and its runner, and the decisions the
//! runner takes each frame.

pub mod args;
pub mod assoc;
pub mod bivector;
pub mod capture;
pub mod commands;
pub mod console;
pub mod cursor;
pub mod dnd;
pub mod frame_pacing;
pub mod freecam;
pub mod harness;
pub mod keys;
pub mod log;
pub mod quotient;
pub mod ring;
pub mod runner;
pub mod sorting;
pub mod text;
pub mod trace;
pub mod wasm;
pub mod watcher;
