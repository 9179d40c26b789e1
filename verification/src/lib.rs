//! prowl watches a repository's open pull requests, its merge queue, the recently
//! merged pull requests and the commits shipped with each release, and rings the
//! bell when one of them changes.
//!
//! This is its logic: what the rows of each section are and how they sort, what
//! changed since the last refresh, what fits on the screen and how it is painted,
//! what keys do, and what to ask the server. Talking to the server, the terminal
//! and the file system is left to the program around it.

pub mod auth;
pub mod cache;
pub mod canvas;
pub mod changes;
pub mod cli;
pub mod commits;
pub mod dashboard;
pub mod fetch;
pub mod frame;
pub mod gh;
pub mod github;
pub mod layout;
pub mod merged;
pub mod model;
pub mod nav;
pub mod open;
pub mod order;
pub mod prs;
pub mod queue;
pub mod render;
pub mod reviews;
pub mod sections;
pub mod shipments;
pub mod snapshot;
pub mod status;
pub mod term;
pub mod text;
pub mod timefmt;
pub mod ui;
pub mod watch;

pub use dashboard::render_to_string;
pub use sections::Sections;
pub use ui::Ui;
