//! Mid-level intermediate representation of an EVM compiler: the function
//! builder, control-flow utilities, the textual format, and the lowering of
//! high-level contracts.

pub mod hir;
pub mod lower;
pub mod memory;
pub mod mir;
pub mod text;
pub mod word;

