//! The intermediate representation: functions of basic blocks in static
//! single assignment form.

pub mod access_laws;
pub mod bits;
pub mod builder;
pub mod effects;
pub mod function;
pub mod inst;
pub mod laws;
pub mod list;
pub mod meaning;
pub mod mnemonics;
pub mod module;
pub mod parser;
pub mod runs;
pub mod types;
pub mod utils;
