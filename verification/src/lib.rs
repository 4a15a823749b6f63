//! Entity-relationship schemas: validation, mapping onto relational tables,
//! and rendering as SQL and as graph descriptions.

pub mod ast;
pub mod dot;
pub mod erd;
pub mod laws;
pub mod parser;
pub mod physical;
pub mod sql;
pub mod text;
pub mod views;
