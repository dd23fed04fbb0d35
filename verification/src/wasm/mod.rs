//! Running in a browser: the main thread owns the page, a worker owns the renderer.
//!
//! The page's events travel to the worker as messages; what the worker asks of the page
//! travels back as actions. Here stand the messages, and what either side decides; the
//! host touches the page.

pub mod forward;
pub mod host_action;
pub mod launch;
pub mod messages;
pub mod worker;
pub mod worker_ui;
