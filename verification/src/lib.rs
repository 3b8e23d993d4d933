//! Exercise bookkeeping, verification decisions and interface state for a
//! course of small LaTeX exercises.

pub mod text;
pub mod info;
pub mod verify;
pub mod check_all;
pub mod dev;
pub mod editor;
pub mod cli;
pub mod tui;
pub mod screen;
