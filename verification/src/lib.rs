pub mod keys;
pub mod actions;
pub mod text;
pub mod content;
pub mod state;
pub mod orchestrator;
