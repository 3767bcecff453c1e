//! Running widgets: their settings, their instances and the messages between them.
pub mod instance;
pub mod runner;
pub mod settings;
