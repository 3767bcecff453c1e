pub mod ctl;
pub mod language;
pub mod parsing;
pub mod root_environment;
pub mod runner;
pub mod style;
pub mod utils;
pub mod widget;
