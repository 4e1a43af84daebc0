//! Decision logic of a desktop presence reporter: which session is running,
//! which window has the focus, whether the observed state has to be reported,
//! and what the status store shows.

pub mod config;
pub mod media;
pub mod poller;
pub mod report;
pub mod status;
pub mod text;
pub mod time;
pub mod window;
