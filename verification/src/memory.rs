//! Fixed points of the EVM memory map that generated code relies on.

use vstd::prelude::*;

verus! {

/// The memory map of generated code.
pub struct EvmMemoryLayout;

impl EvmMemoryLayout {
    /// Bytes in a machine word.
    pub const WORD_SIZE: u64 = 32;

    /// First address above the reserved low memory. Constant addresses below
    /// it are scratch space.
    pub const HEAP_START: u64 = 0x80;

    /// Bytes at the base of an internal-call frame that precede its arguments.
    pub const INTERNAL_FRAME_HEADER_SIZE: u64 = 32;

    /// Where constructor code stages immutable values before they are
    /// embedded into the deployed code.
    pub const IMMUTABLE_SCRATCH_BASE: u64 = 0x80;

    /// The scratch word that holds the address of the multi-return buffer.
    pub const MULTI_RETURN_BUFFER_PTR_SLOT: u64 = 32;
}

} // verus!
