//! The commands that query the public chain state.

pub mod dex;
