//! Gallery Sorter: verified core logic for organising photos and videos by
//! creation time.

pub mod text;
pub mod path;
pub mod config;
pub mod tui;
pub mod cli;
pub mod time;
pub mod rename;
pub mod process;
pub mod os;
