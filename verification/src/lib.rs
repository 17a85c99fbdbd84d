//! Editing core of a modal terminal text editor: a text buffer organized
//! into lines, a cursor clamped to the buffer, a modal key state machine,
//! and the pure part of loading and saving the buffer.

pub mod app;
pub mod cursor;
pub mod errors;
pub mod file_handler;
pub mod mode;
pub mod rope_store;
pub mod text_buffer;
pub mod text_model;
