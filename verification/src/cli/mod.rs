//! The command line: its language, its arguments, and what it shows.

pub mod args;
pub mod lang;
pub mod messages;
pub mod pick;
pub mod render;
pub mod units;
