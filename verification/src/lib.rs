pub mod command;
pub mod events;
pub mod text;
pub mod workflow;
