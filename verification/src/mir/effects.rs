//! What the effect of an operation says of a run of it.

use crate::mir::function::FunctionView;
use crate::mir::inst::{effect_of, KindView, Op};
use crate::mir::meaning::{call_bytes, computed, held, performed, words_in, Frame};
use crate::mir::types::{BlockId, InstId, ValueId};
use vstd::prelude::*;

verus! {

/// Whether an operation reads what is fixed in the code or in the frame of a function.
pub open spec fn is_fixed(op: Op) -> bool {
    op is LoadImmutable || op is InternalFrameAddr
}

/// Whether every value holds the same in two frames, and the code is the same.
pub open spec fn same_values(x: Frame, y: Frame) -> bool {
    &&& x.args == y.args
    &&& x.results == y.results
    &&& x.undefined == y.undefined
    &&& x.hash == y.hash
    &&& forall|op: Op| #[trigger]
        is_fixed(op) ==> (x.surroundings)(op) == (y.surroundings)(op)
}

/// Whether two frames have the same call around them.
pub open spec fn same_call(x: Frame, y: Frame) -> bool {
    x.calldata == y.calldata && x.surroundings == y.surroundings
}

/// The values of an operation hold the same where all do.
proof fn lemma_same_words(f: FunctionView, x: Frame, y: Frame, args: Seq<ValueId>)
    requires
        same_values(x, y),
    ensures
        words_in(f, x, args) == words_in(f, y, args),
        forall|value: ValueId| #[trigger] held(f, x, value) == held(f, y, value),
{
    assert(words_in(f, x, args) =~= words_in(f, y, args));
}

/// A pure operation leaves everything but its own result as it was, and its result
/// depends on its operands alone.
pub proof fn law_pure(
    f: FunctionView,
    kind: KindView,
    came: BlockId,
    id: InstId,
    x: Frame,
    y: Frame,
)
    requires
        effect_of(kind) is Pure,
        same_values(x, y),
        performed(f, x, came, id, kind) is Some,
    ensures
        performed(f, y, came, id, kind) is Some,
        ({
            let (to, other) = (
                performed(f, x, came, id, kind)->0,
                performed(f, y, came, id, kind)->0,
            );
            to.results == other.results && to.memory == x.memory && to.storage == x.storage
        }),
{
    if let KindView::Inst { op, args } = kind {
        lemma_same_words(f, x, y, args);
        assert(is_fixed(op) ==> (x.surroundings)(op) == (y.surroundings)(op));
    }
}

/// What is computed from words alone is pure.
pub proof fn law_computations_are_pure(op: Op, words: Seq<nat>, args: Seq<ValueId>)
    requires
        computed(op, words) is Some,
    ensures
        effect_of(KindView::Inst { op, args }) is Pure,
{
}

/// An operation that reads memory changes neither memory nor storage, and its result
/// depends on its operands and the memory alone.
pub proof fn law_memory_read(
    f: FunctionView,
    kind: KindView,
    came: BlockId,
    id: InstId,
    x: Frame,
    y: Frame,
)
    requires
        effect_of(kind) is MemoryRead,
        same_values(x, y),
        x.memory == y.memory,
        performed(f, x, came, id, kind) is Some,
    ensures
        performed(f, y, came, id, kind) is Some,
        ({
            let (to, other) = (
                performed(f, x, came, id, kind)->0,
                performed(f, y, came, id, kind)->0,
            );
            to.results == other.results && to.memory == x.memory && to.storage == x.storage
        }),
{
    if let KindView::Inst { op, args } = kind {
        lemma_same_words(f, x, y, args);
    }
}

/// An operation that reads storage changes neither memory nor storage, and its result
/// depends on its operands and the storage alone.
pub proof fn law_storage_read(
    f: FunctionView,
    kind: KindView,
    came: BlockId,
    id: InstId,
    x: Frame,
    y: Frame,
)
    requires
        effect_of(kind) is StorageRead,
        same_values(x, y),
        x.storage == y.storage,
        performed(f, x, came, id, kind) is Some,
    ensures
        performed(f, y, came, id, kind) is Some,
        ({
            let (to, other) = (
                performed(f, x, came, id, kind)->0,
                performed(f, y, came, id, kind)->0,
            );
            to.results == other.results && to.memory == x.memory && to.storage == x.storage
        }),
{
    if let KindView::Inst { op, args } = kind {
        lemma_same_words(f, x, y, args);
    }
}

/// An operation that reads the environment changes neither memory nor storage, and
/// its result depends on its operands and the call alone.
pub proof fn law_environment_read(
    f: FunctionView,
    kind: KindView,
    came: BlockId,
    id: InstId,
    x: Frame,
    y: Frame,
)
    requires
        effect_of(kind) is EnvironmentRead,
        same_values(x, y),
        same_call(x, y),
        performed(f, x, came, id, kind) is Some,
    ensures
        performed(f, y, came, id, kind) is Some,
        ({
            let (to, other) = (
                performed(f, x, came, id, kind)->0,
                performed(f, y, came, id, kind)->0,
            );
            to.results == other.results && to.memory == x.memory && to.storage == x.storage
        }),
{
    if let KindView::Inst { op, args } = kind {
        lemma_same_words(f, x, y, args);
        assert(call_bytes(x) =~= call_bytes(y));
    }
}

/// An operation that writes memory has no result and keeps the storage; one that
/// writes storage has no result and keeps the memory.
pub proof fn law_writes(f: FunctionView, kind: KindView, came: BlockId, id: InstId, x: Frame)
    requires
        performed(f, x, came, id, kind) is Some,
    ensures
        effect_of(kind) is MemoryWrite ==> {
            let to = performed(f, x, came, id, kind)->0;
            to.results == x.results && to.storage == x.storage
        },
        effect_of(kind) is StorageWrite ==> {
            let to = performed(f, x, came, id, kind)->0;
            to.results == x.results && to.memory == x.memory
        },
        (performed(f, x, came, id, kind)->0).memory != x.memory ==> effect_of(kind) is MemoryWrite,
        (performed(f, x, came, id, kind)->0).storage != x.storage ==> effect_of(kind)
            is StorageWrite,
{
}

} // verus!
