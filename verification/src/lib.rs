//! Core logic of the esports live tracker: match models and their display
//! labels, the interactive application state, and the decisions the terminal
//! front end and the refresh tasks delegate to it.

pub mod text;
pub mod models;
pub mod keys;
pub mod app_state;
pub mod ordering;
pub mod fetch;
pub mod error;
pub mod screen;
pub mod laws;
