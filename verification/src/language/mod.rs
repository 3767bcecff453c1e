pub mod assoc;
pub mod builtins;
pub mod clock;
pub mod environment;
pub mod expression;
pub mod externals;
pub mod format;
pub mod function;
pub mod importer;
pub mod laws;
pub mod interpreter;
pub mod library;
pub mod operator_laws;
pub mod operators;
pub mod purity;
pub mod semantics;
pub mod sharing;
pub mod statement;
pub mod text;
pub mod value;
