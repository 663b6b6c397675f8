//! Parser for the textual format of modules and functions.
//!
//! # Format
//!
//! ```text
//! @module Counter
//! fn @increment() {
//!   bb0:
//!     v0 = sload 0
//!     v1 = add v0, 1
//!     sstore 0, v1
//!     stop
//! }
//! ```
//!
//! # Caveats
//!
//! - The numbers of values in the result may differ from the labels in the
//!   text.
//! - Phi nodes are phi instructions.

pub mod instruction;
pub mod laws;
pub mod layout;
pub mod module;
pub mod state;
pub mod token;
pub mod value;
