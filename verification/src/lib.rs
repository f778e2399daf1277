//! Bookkeeping of a neural network trainer: what its log says, when its optimiser does what,
//! and how the optimiser's progress is saved and restored.

pub mod logger;
pub mod logger_laws;
pub mod logger_reports;
pub mod optimiser;
pub mod order;
pub mod parse;
pub mod state_map;
pub mod steps;
pub mod steps_laws;
pub mod text;
pub mod text_laws;
