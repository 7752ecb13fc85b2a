//! Terminal user interface state: text input, the configuration wizard,
//! and the progress-screen helpers.

pub mod input;
pub mod events;
pub mod wizard;
pub mod transition;
pub mod summary;
