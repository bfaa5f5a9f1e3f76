//! Views of a text-mode user interface toolkit, with their behaviour proved.
pub mod text;
pub mod geometry;
pub mod event;
pub mod draw;
pub mod views;
pub mod state;
pub mod command;
pub mod menu_data;
