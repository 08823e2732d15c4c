pub mod error;
pub mod layout;
pub mod operations;
pub mod text;
pub mod state;
pub mod herdr;
pub mod geometry;
pub mod picker;
pub mod screen;
pub mod arrange;
pub mod cli;
