//! Detection and filtering of source-code comments for editor hooks.
pub mod api;
pub mod detector;
pub mod filters;
pub mod guarantees;
pub mod input;
pub mod language;
pub mod laws;
pub mod models;
pub mod output;
pub mod text;
