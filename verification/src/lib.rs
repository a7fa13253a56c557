//! Core library for the TypoCode terminal typing game.

pub mod app;
pub mod chars;
pub mod comments;
pub mod file;
pub mod stats;
pub mod text;
pub mod timer;
pub mod update;
pub mod view;
pub mod widgets;
