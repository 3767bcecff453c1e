//! Standalone widget windows.
pub mod settings;
