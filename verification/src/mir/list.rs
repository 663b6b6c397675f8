//! Short lists of identifiers, kept inline by the `smallvec` crate.

use crate::mir::types::{BlockId, ValueId};
use vstd::prelude::*;

verus! {

/// A list of values, held in a `smallvec::SmallVec` that keeps two inline.
#[derive(Debug)]
#[verifier::external_body]
pub struct ValueList {
    items: smallvec::SmallVec<[ValueId; 2]>,
}

/// The values that a list holds, in order.
pub uninterp spec fn values_held(list: ValueList) -> Seq<ValueId>;

impl View for ValueList {
    type V = Seq<ValueId>;

    open spec fn view(&self) -> Seq<ValueId> {
        values_held(*self)
    }
}

impl ValueList {
    /// `SmallVec::new`: the claim is that the list starts out empty.
    #[verifier::external_body]
    fn small_new() -> (r: ValueList)
        ensures
            values_held(r) == Seq::<ValueId>::empty(),
    {
        ValueList { items: smallvec::SmallVec::new() }
    }

    /// `SmallVec::push`: the claim is that the value is added at the end.
    #[verifier::external_body]
    fn small_push(&mut self, value: ValueId)
        ensures
            values_held(*final(self)) == values_held(*old(self)).push(value),
    {
        self.items.push(value)
    }

    /// `SmallVec::len`: the claim is that it is the number of values held.
    #[verifier::external_body]
    fn small_len(&self) -> (r: usize)
        ensures
            r == values_held(*self).len(),
    {
        self.items.len()
    }

    /// The index operator of `SmallVec`: the claim is that it reads the value
    /// at a position in range. Out of range it panics.
    #[verifier::external_body]
    fn small_index(&self, index: usize) -> (r: ValueId)
        requires
            index < values_held(*self).len(),
        ensures
            r == values_held(*self)[index as int],
    {
        self.items[index]
    }

    /// Returns an empty list.
    pub fn new() -> (r: ValueList)
        ensures
            r@ == Seq::<ValueId>::empty(),
    {
        ValueList::small_new()
    }

    /// Adds a value at the end.
    pub fn push(&mut self, value: ValueId)
        ensures
            final(self)@ == old(self)@.push(value),
    {
        self.small_push(value);
    }

    /// Returns the number of values.
    pub fn len(&self) -> (r: usize)
        ensures
            r == self@.len(),
    {
        self.small_len()
    }

    /// Returns the value at a position in range.
    pub fn get(&self, index: usize) -> (r: ValueId)
        requires
            index < self@.len(),
        ensures
            r == self@[index as int],
    {
        self.small_index(index)
    }
}

/// A list of blocks, held in a `smallvec::SmallVec` that keeps two inline.
#[derive(Debug)]
#[verifier::external_body]
pub struct BlockList {
    items: smallvec::SmallVec<[BlockId; 2]>,
}

/// The blocks that a list holds, in order.
pub uninterp spec fn blocks_held(list: BlockList) -> Seq<BlockId>;

impl View for BlockList {
    type V = Seq<BlockId>;

    open spec fn view(&self) -> Seq<BlockId> {
        blocks_held(*self)
    }
}

impl BlockList {
    /// `SmallVec::new`: the claim is that the list starts out empty.
    #[verifier::external_body]
    fn small_new() -> (r: BlockList)
        ensures
            blocks_held(r) == Seq::<BlockId>::empty(),
    {
        BlockList { items: smallvec::SmallVec::new() }
    }

    /// `SmallVec::push`: the claim is that the block is added at the end.
    #[verifier::external_body]
    fn small_push(&mut self, block: BlockId)
        ensures
            blocks_held(*final(self)) == blocks_held(*old(self)).push(block),
    {
        self.items.push(block)
    }

    /// `SmallVec::len`: the claim is that it is the number of blocks held.
    #[verifier::external_body]
    fn small_len(&self) -> (r: usize)
        ensures
            r == blocks_held(*self).len(),
    {
        self.items.len()
    }

    /// The index operator of `SmallVec`: the claim is that it reads the block
    /// at a position in range. Out of range it panics.
    #[verifier::external_body]
    fn small_index(&self, index: usize) -> (r: BlockId)
        requires
            index < blocks_held(*self).len(),
        ensures
            r == blocks_held(*self)[index as int],
    {
        self.items[index]
    }

    /// Returns an empty list.
    pub fn new() -> (r: BlockList)
        ensures
            r@ == Seq::<BlockId>::empty(),
    {
        BlockList::small_new()
    }

    /// Adds a block at the end.
    pub fn push(&mut self, block: BlockId)
        ensures
            final(self)@ == old(self)@.push(block),
    {
        self.small_push(block);
    }

    /// Returns the number of blocks.
    pub fn len(&self) -> (r: usize)
        ensures
            r == self@.len(),
    {
        self.small_len()
    }

    /// Returns the block at a position in range.
    pub fn get(&self, index: usize) -> (r: BlockId)
        requires
            index < self@.len(),
        ensures
            r == self@[index as int],
    {
        self.small_index(index)
    }
}

/// The list that holds the given values.
pub fn value_list(values: &Vec<ValueId>) -> (r: ValueList)
    ensures
        r@ == values@,
{
    let mut list = ValueList::new();
    let mut i: usize = 0;
    while i < values.len()
        invariant
            i <= values@.len(),
            list@ == values@.take(i as int),
        decreases values@.len() - i,
    {
        list.push(values[i]);
        i = i + 1;
    }
    assert(values@.take(i as int) =~= values@);
    list
}

} // verus!
