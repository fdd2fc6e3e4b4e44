//! Types shared with the grid-sizing front end.
pub mod settings;
