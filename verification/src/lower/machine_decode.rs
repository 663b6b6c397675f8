//! Tasks that decode data and that find elements in storage.

use crate::hir::Expr;
use crate::lower::arrays::{
    array_length, begin_pop, begin_push, compute_mapping_slot_for_key, element_slot, hashed_element,
    hashed_element_slot, literal_key, load_array_length, lower_storage_array_element_slot,
    mapping_element, pop_begun, push_begun, str_lit_key_bytes,
};
use crate::lower::decode::{
    array_decode_begun, begin_decode_array, begin_decode_bytes, begin_elements, bytes_decode_begun,
    bytes_decode_ended, check_element, check_region, copy_words, decoded_array_placed,
    element_checked, element_head, element_head_loaded, element_placed, elements_begun,
    elements_ended, end_elements, finish_decode_bytes, has_array_tail, has_tail, object_parts,
    parts_of_bytes, place_decoded_array, region_checked, store_element_at, tail_slice, tail_sliced,
    words_copied, ArrayTail, ElementsLoop, Tail,
};
use crate::lower::emit::extends;
use crate::lower::machine::{
    block_exists, cut, did, enclosed, ready, scene, top, value_exists, Control, Machine, Scene,
    Step, StepView,
};
use crate::lower::objects::{emit_revert_error_string_from_memory, error_string_reverted};
use crate::lower::plan::Task;
use crate::lower::state::Lowerer;
use crate::lower::types::{elementary_fits, has_width};
use crate::mir::builder::{emitted, group_builder_steps, is_phi, BuilderView, FunctionBuilder};
use crate::mir::function::{function_wf, has_block, has_value, next_value, value_fits};
use crate::mir::inst::{inst, InstKind, Op};
use crate::mir::types::{MirType, Value, ValueId};
use vstd::prelude::*;

verus! {

/// Whether the values of a tail exist.
pub fn tail_exists<'b>(builder: &FunctionBuilder<'b>, tail: Tail) -> (r: bool)
    requires
        builder.wf(),
    ensures
        r == has_tail(builder@, tail),
{
    value_exists(builder, tail.len_addr) && value_exists(builder, tail.len) && value_exists(
        builder,
        tail.one_word,
    ) && value_exists(builder, tail.data_size) && value_exists(builder, tail.total_size)
        && value_exists(builder, tail.overflow)
}

/// Whether the values of an array exist.
pub fn array_exists<'b>(builder: &FunctionBuilder<'b>, tail: ArrayTail) -> (r: bool)
    requires
        builder.wf(),
    ensures
        r == has_array_tail(builder@, tail),
{
    value_exists(builder, tail.len) && value_exists(builder, tail.one_word) && value_exists(
        builder,
        tail.payload_bytes,
    ) && value_exists(builder, tail.payload_src) && value_exists(builder, tail.total_size)
        && value_exists(builder, tail.tail_head_end)
}

/// Whether the blocks and the index of a loop over elements exist.
pub open spec fn has_elements(b: BuilderView, elements: ElementsLoop) -> bool {
    &&& has_block(b.func, elements.header)
    &&& has_block(b.func, elements.exit)
    &&& has_value(b.func, elements.index)
    &&& is_phi(b.func, elements.index)
}

/// Whether the blocks and the index of a loop over elements exist.
pub fn elements_exist<'b>(builder: &FunctionBuilder<'b>, elements: ElementsLoop) -> (r: bool)
    requires
        builder.wf(),
    ensures
        r == has_elements(builder@, elements),
{
    if !block_exists(builder, elements.header) || !block_exists(builder, elements.exit)
        || !value_exists(builder, elements.index) {
        return false;
    }
    let id = match builder.func.values[elements.index.0] {
        Value::Inst(id) => id,
        _ => {
            return false;
        },
    };
    proof {
        reveal(function_wf);
        assert(value_fits(builder@.func, builder@.func.values[elements.index.0 as int]));
    }
    assert(builder@.func.insts[id.0 as int] == builder.func.insts@[id.0 as int]@);
    match &builder.func.insts[id.0].kind {
        InstKind::Phi(_) => true,
        _ => false,
    }
}

/// The bytes of a literal key, or none.
pub open spec fn key_bytes<'a>(index: Option<&'a Expr>) -> Seq<u8> {
    match index {
        Some(expr) => match literal_key(*expr) {
            Some(bytes) => bytes,
            None => Seq::empty(),
        },
        None => Seq::empty(),
    }
}

/// Copies the bytes of a literal key, or none.
fn copy_key_bytes<'a>(index: Option<&'a Expr>) -> (r: Vec<u8>)
    ensures
        r@ == key_bytes(index),
{
    let mut copy: Vec<u8> = Vec::new();
    let expr = match index {
        Some(expr) => expr,
        None => {
            return copy;
        },
    };
    if let Some(bytes) = str_lit_key_bytes(expr) {
        let mut i: usize = 0;
        while i < bytes.len()
            invariant
                i <= bytes@.len(),
                copy@ == bytes@.take(i as int),
            decreases bytes@.len() - i,
        {
            copy.push(bytes[i]);
            i = i + 1;
            assert(copy@ =~= bytes@.take(i as int));
        }
        assert(copy@ =~= bytes@);
    }
    copy
}

/// Storing an element leaves phis in place.
proof fn lemma_placing_keeps_phis(
    b: BuilderView,
    data: ValueId,
    offset: ValueId,
    value: ValueId,
    index: ValueId,
)
    requires
        function_wf(b.func),
        has_value(b.func, index),
        is_phi(b.func, index),
    ensures
        is_phi(element_placed(b, data, offset, value).func, index),
{
    reveal(function_wf);
    reveal(element_placed);
    reveal(emitted);
    assert(value_fits(b.func, b.func.values[index.0 as int]));
}

/// What performing a task that decodes data comes to.
pub open spec fn decode_step<'t>(s: Scene, lowerer: Lowerer, task: Task<'t>) -> StepView {
    match task {
        Task::CheckRegion(head_size) => {
            if ready(s.b, s.values, 2) {
                let a0 = top(s.values, 0);
                let a1 = top(s.values, 1);
                let (b, v) = region_checked(s.b, a1, head_size);
                StepView::Done(Scene { b, values: s.values.push(v), ..s })
            } else {
                StepView::NotReady
            }
        },
        Task::ObjectParts => {
            if ready(s.b, s.values, 1) {
                let a0 = top(s.values, 0);
                let (b, r) = parts_of_bytes(s.b, a0);
                StepView::Done(Scene { b, values: cut(s.values, 1).push(r.0).push(r.1), ..s })
            } else {
                StepView::NotReady
            }
        },
        Task::TailSlice => {
            if ready(s.b, s.values, 2) {
                let a0 = top(s.values, 0);
                let a1 = top(s.values, 1);
                let (b, v) = tail_sliced(s.b, a1, a0);
                StepView::Done(Scene { b, values: cut(s.values, 2).push(v), ..s })
            } else {
                StepView::NotReady
            }
        },
        Task::DecodeBytesBegin => {
            if ready(s.b, s.values, 4) {
                let a0 = top(s.values, 0);
                let a1 = top(s.values, 1);
                let a2 = top(s.values, 2);
                let a3 = top(s.values, 3);
                StepView::Done(
                    {
                        let (b, tail) = bytes_decode_begun(s.b, a3, a2, a1, a0);
                        Scene {
                            b,
                            values: cut(s.values, 4).push(tail.total_size).push(tail.overflow),
                            control: s.control.push(Control::Bytes(tail)),
                            ..s
                        }
                    },
                )
            } else {
                StepView::NotReady
            }
        },
        Task::DecodeBytesEnd => {
            if ready(s.b, s.values, 1) {
                let a0 = top(s.values, 0);
                let c0 = enclosed(s.control, 0)->0;
                let tail = c0->Bytes_0;
                if enclosed(s.control, 0) is Some && c0 is Bytes && has_tail(s.b, tail) {
                    StepView::Done(
                        Scene {
                            b: bytes_decode_ended(s.b, lowerer.has_mcopy, tail, a0),
                            control: s.control.drop_last(),
                            ..s
                        },
                    )
                } else {
                    StepView::NotReady
                }
            } else {
                StepView::NotReady
            }
        },
        Task::DecodeArrayBegin(head_size, bytes) => {
            if ready(s.b, s.values, 3) {
                let a0 = top(s.values, 0);
                let a1 = top(s.values, 1);
                let a2 = top(s.values, 2);
                StepView::Done(
                    {
                        let (b, tail) = array_decode_begun(s.b, a2, a1, head_size, a0);
                        let region_len = if bytes { next_value(b.func) } else { a1 };
                        Scene {
                            b: if bytes {
                                emitted(
                                    b,
                                    inst(Op::Sub, seq![a1, tail.tail_head_end]),
                                    Some(MirType::uint256()),
                                )
                            } else {
                                b
                            },
                            values: cut(s.values, 3).push(tail.total_size),
                            control: s.control.push(Control::Array(tail, region_len)),
                            ..s
                        }
                    },
                )
            } else {
                StepView::NotReady
            }
        },
        Task::DecodeWordsEnd => {
            if ready(s.b, s.values, 1) {
                let a0 = top(s.values, 0);
                let c0 = enclosed(s.control, 0)->0;
                let tail = c0->Array_0;
                if enclosed(s.control, 0) is Some && c0 is Array && has_array_tail(s.b, tail) {
                    StepView::Done(
                        {
                            let (b, data) = words_copied(
                                s.b,
                                lowerer.has_mcopy,
                                tail.len,
                                tail.payload_src,
                                tail.payload_bytes,
                                a0,
                            );
                            Scene { b, control: s.control.push(Control::Copy(a0, data)), ..s }
                        },
                    )
                } else {
                    StepView::NotReady
                }
            } else {
                StepView::NotReady
            }
        },
        Task::DecodePointersBegin => {
            if ready(s.b, s.values, 1) {
                let a0 = top(s.values, 0);
                let c0 = enclosed(s.control, 0)->0;
                let tail = c0->Array_0;
                if enclosed(s.control, 0) is Some && c0 is Array && has_array_tail(s.b, tail) {
                    StepView::Done(
                        {
                            let (b, data) = decoded_array_placed(s.b, tail.len, a0);
                            Scene { b, control: s.control.push(Control::Copy(a0, data)), ..s }
                        },
                    )
                } else {
                    StepView::NotReady
                }
            } else {
                StepView::NotReady
            }
        },
        Task::WordsLoopBegin => {
            let c1 = enclosed(s.control, 1)->0;
            let tail = c1->Array_0;
            if enclosed(s.control, 1) is Some && c1 is Array && has_array_tail(s.b, tail) {
                StepView::Done(
                    {
                        let (b, elements) = elements_begun(s.b, tail.len);
                        Scene { b, control: s.control.push(Control::Elements(elements)), ..s }
                    },
                )
            } else {
                StepView::NotReady
            }
        },
        Task::CheckElement(elem) => {
            let c0 = enclosed(s.control, 0)->0;
            let elements = c0->Elements_0;
            let c1 = enclosed(s.control, 1)->0;
            let data = c1->Copy_1;
            let c2 = enclosed(s.control, 2)->0;
            let tail = c2->Array_0;
            if enclosed(s.control, 0) is Some
                && c0 is Elements
                && has_elements(s.b, elements)
                && enclosed(s.control, 1) is Some
                && c1 is Copy
                && has_value(s.b.func, data)
                && enclosed(s.control, 2) is Some
                && c2 is Array
                && has_array_tail(s.b, tail)
                && elementary_fits(elem) {
                StepView::Done(
                    Scene {
                        b: element_checked(s.b, elements.index, tail.one_word, data, elem),
                        ..s
                    },
                )
            } else {
                StepView::NotReady
            }
        },
        Task::WordsLoopEnd => {
            let c0 = enclosed(s.control, 0)->0;
            let elements = c0->Elements_0;
            if enclosed(s.control, 0) is Some && c0 is Elements && has_elements(s.b, elements) {
                StepView::Done(
                    Scene { b: elements_ended(s.b, elements), control: s.control.drop_last(), ..s },
                )
            } else {
                StepView::NotReady
            }
        },
        Task::PointersLoopBegin => {
            let c1 = enclosed(s.control, 1)->0;
            let tail = c1->Array_0;
            let region_len = c1->Array_1;
            if enclosed(s.control, 1) is Some
                && c1 is Array
                && has_array_tail(s.b, tail)
                && has_value(s.b.func, region_len) {
                StepView::Done(
                    {
                        let (b, elements) = elements_begun(s.b, tail.len);
                        let (b, r) = element_head_loaded(
                            b,
                            elements.index,
                            tail.one_word,
                            tail.payload_src,
                        );
                        Scene {
                            b,
                            values: s.values.push(tail.payload_src).push(region_len).push(
                                tail.payload_bytes,
                            ).push(r.1),
                            control: s.control.push(
                                Control::Elements(elements),
                            ).push(Control::Offset(r.0)),
                            ..s
                        }
                    },
                )
            } else {
                StepView::NotReady
            }
        },
        Task::PointersLoopEnd => {
            if ready(s.b, s.values, 1) {
                let a0 = top(s.values, 0);
                let c0 = enclosed(s.control, 0)->0;
                let offset = c0->Offset_0;
                let c1 = enclosed(s.control, 1)->0;
                let elements = c1->Elements_0;
                let c2 = enclosed(s.control, 2)->0;
                let data = c2->Copy_1;
                if enclosed(s.control, 0) is Some
                    && c0 is Offset
                    && has_value(s.b.func, offset)
                    && enclosed(s.control, 1) is Some
                    && c1 is Elements
                    && has_elements(s.b, elements)
                    && enclosed(s.control, 2) is Some
                    && c2 is Copy
                    && has_value(s.b.func, data) {
                    StepView::Done(
                        Scene {
                            b: elements_ended(element_placed(s.b, data, offset, a0), elements),
                            values: cut(s.values, 1),
                            control: s.control.drop_last().drop_last(),
                            ..s
                        },
                    )
                } else {
                    StepView::NotReady
                }
            } else {
                StepView::NotReady
            }
        },
        Task::ArrayDone => {
            let c0 = enclosed(s.control, 0)->0;
            let c1 = enclosed(s.control, 1)->0;
            if enclosed(s.control, 0) is Some
                && c0 is Copy
                && enclosed(s.control, 1) is Some
                && c1 is Array {
                StepView::Done(Scene { control: s.control.drop_last().drop_last(), ..s })
            } else {
                StepView::NotReady
            }
        },
        _ => StepView::Other,
    }
}

impl Machine {
    /// Performs a task that decodes data.
    #[verifier::rlimit(40)]
    pub fn perform_decode<'b, 't>(
        &mut self,
        lowerer: &Lowerer,
        builder: &mut FunctionBuilder<'b>,
        task: &Task<'t>,
    ) -> (r: Step)
        requires
            old(builder).wf(),
        ensures
            final(builder).wf(),
            did(
                scene(*lowerer, *old(self), old(builder)@),
                scene(*lowerer, *final(self), final(builder)@),
                r,
                decode_step(scene(*lowerer, *old(self), old(builder)@), *lowerer, *task),
            ),
            extends(old(builder)@, final(builder)@),
            *final(final(builder).func) == *final(old(builder).func),
    {
        broadcast use group_builder_steps;

        let ghost before = scene(*lowerer, *self, builder@);
        let ghost expected = decode_step(before, *lowerer, *task);
        match task {
            Task::CheckRegion(head_size) => {
                if !self.is_ready(builder, 2) {
                    return Step::NotReady;
                }
                assert(has_value(builder@.func, top(self.values@, 0)));
                let a1 = self.peek(1);
                assert(has_value(builder@.func, top(self.values@, 1)));
                let v = check_region(builder, a1, *head_size);
                self.values.push(v);
                assert(scene(*lowerer, *self, builder@) =~= expected->Done_0);
                Step::Done
            },
            Task::ObjectParts => {
                if !self.is_ready(builder, 1) {
                    return Step::NotReady;
                }
                let a0 = self.peek(0);
                assert(has_value(builder@.func, top(self.values@, 0)));
                self.drop_values(1);
                let r = object_parts(builder, a0);
                self.values.push(r.0);
                self.values.push(r.1);
                assert(scene(*lowerer, *self, builder@) =~= expected->Done_0);
                Step::Done
            },
            Task::TailSlice => {
                if !self.is_ready(builder, 2) {
                    return Step::NotReady;
                }
                let a0 = self.peek(0);
                assert(has_value(builder@.func, top(self.values@, 0)));
                let a1 = self.peek(1);
                assert(has_value(builder@.func, top(self.values@, 1)));
                self.drop_values(2);
                let v = tail_slice(builder, a1, a0);
                self.values.push(v);
                assert(scene(*lowerer, *self, builder@) =~= expected->Done_0);
                Step::Done
            },
            Task::DecodeBytesBegin => {
                if !self.is_ready(builder, 4) {
                    return Step::NotReady;
                }
                let a0 = self.peek(0);
                assert(has_value(builder@.func, top(self.values@, 0)));
                let a1 = self.peek(1);
                assert(has_value(builder@.func, top(self.values@, 1)));
                let a2 = self.peek(2);
                assert(has_value(builder@.func, top(self.values@, 2)));
                let a3 = self.peek(3);
                assert(has_value(builder@.func, top(self.values@, 3)));
                self.drop_values(4);
                let tail = begin_decode_bytes(builder, a3, a2, a1, a0);
                self.values.push(tail.total_size);
                self.values.push(tail.overflow);
                self.control.push(Control::Bytes(tail));
                assert(scene(*lowerer, *self, builder@) =~= expected->Done_0);
                Step::Done
            },
            Task::DecodeBytesEnd => {
                if !self.is_ready(builder, 1) {
                    return Step::NotReady;
                }
                let a0 = self.peek(0);
                assert(has_value(builder@.func, top(self.values@, 0)));
                let tail = match self.enclosing(0) {
                    Some(Control::Bytes(tail)) => tail,
                    _ => {
                        return Step::NotReady;
                    }
                };
                if !tail_exists(builder, tail) {
                    return Step::NotReady;
                }
                finish_decode_bytes(builder, lowerer.has_mcopy, tail, a0);
                let _ = self.control.pop();
                assert(scene(*lowerer, *self, builder@) =~= expected->Done_0);
                Step::Done
            },
            Task::DecodeArrayBegin(head_size, bytes) => {
                if !self.is_ready(builder, 3) {
                    return Step::NotReady;
                }
                let a0 = self.peek(0);
                assert(has_value(builder@.func, top(self.values@, 0)));
                let a1 = self.peek(1);
                assert(has_value(builder@.func, top(self.values@, 1)));
                let a2 = self.peek(2);
                assert(has_value(builder@.func, top(self.values@, 2)));
                self.drop_values(3);
                let tail = begin_decode_array(builder, a2, a1, *head_size, a0);
                let region_len = if *bytes {
                    builder.sub(a1, tail.tail_head_end)
                } else {
                    a1
                };
                self.values.push(tail.total_size);
                self.control.push(Control::Array(tail, region_len));
                assert(scene(*lowerer, *self, builder@) =~= expected->Done_0);
                Step::Done
            },
            Task::DecodeWordsEnd => {
                if !self.is_ready(builder, 1) {
                    return Step::NotReady;
                }
                let a0 = self.peek(0);
                assert(has_value(builder@.func, top(self.values@, 0)));
                let (tail, _region_len) = match self.enclosing(0) {
                    Some(Control::Array(tail, _region_len)) => (tail, _region_len),
                    _ => {
                        return Step::NotReady;
                    }
                };
                if !array_exists(builder, tail) {
                    return Step::NotReady;
                }
                let data = copy_words(
                    builder,
                    lowerer.has_mcopy,
                    tail.len,
                    tail.payload_src,
                    tail.payload_bytes,
                    a0,
                );
                self.control.push(Control::Copy(a0, data));
                assert(scene(*lowerer, *self, builder@) =~= expected->Done_0);
                Step::Done
            },
            Task::DecodePointersBegin => {
                if !self.is_ready(builder, 1) {
                    return Step::NotReady;
                }
                let a0 = self.peek(0);
                assert(has_value(builder@.func, top(self.values@, 0)));
                let (tail, _region_len) = match self.enclosing(0) {
                    Some(Control::Array(tail, _region_len)) => (tail, _region_len),
                    _ => {
                        return Step::NotReady;
                    }
                };
                if !array_exists(builder, tail) {
                    return Step::NotReady;
                }
                let data = place_decoded_array(builder, tail.len, a0);
                self.control.push(Control::Copy(a0, data));
                assert(scene(*lowerer, *self, builder@) =~= expected->Done_0);
                Step::Done
            },
            Task::WordsLoopBegin => {
                let (tail, _region_len) = match self.enclosing(1) {
                    Some(Control::Array(tail, _region_len)) => (tail, _region_len),
                    _ => {
                        return Step::NotReady;
                    }
                };
                if !array_exists(builder, tail) {
                    return Step::NotReady;
                }
                let elements = begin_elements(builder, tail.len);
                self.control.push(Control::Elements(elements));
                assert(scene(*lowerer, *self, builder@) =~= expected->Done_0);
                Step::Done
            },
            Task::CheckElement(elem) => {
                let elements = match self.enclosing(0) {
                    Some(Control::Elements(elements)) => elements,
                    _ => {
                        return Step::NotReady;
                    }
                };
                let (_array, data) = match self.enclosing(1) {
                    Some(Control::Copy(_array, data)) => (_array, data),
                    _ => {
                        return Step::NotReady;
                    }
                };
                let (tail, _region_len) = match self.enclosing(2) {
                    Some(Control::Array(tail, _region_len)) => (tail, _region_len),
                    _ => {
                        return Step::NotReady;
                    }
                };
                if !(elements_exist(builder, elements)
                    && value_exists(builder, data)
                    && array_exists(builder, tail)
                    && has_width(*elem)) {
                    return Step::NotReady;
                }
                check_element(builder, elements.index, tail.one_word, data, *elem);
                assert(scene(*lowerer, *self, builder@) =~= expected->Done_0);
                Step::Done
            },
            Task::WordsLoopEnd => {
                let elements = match self.enclosing(0) {
                    Some(Control::Elements(elements)) => elements,
                    _ => {
                        return Step::NotReady;
                    }
                };
                if !elements_exist(builder, elements) {
                    return Step::NotReady;
                }
                end_elements(builder, elements);
                let _ = self.control.pop();
                assert(scene(*lowerer, *self, builder@) =~= expected->Done_0);
                Step::Done
            },
            Task::PointersLoopBegin => {
                let (tail, region_len) = match self.enclosing(1) {
                    Some(Control::Array(tail, region_len)) => (tail, region_len),
                    _ => {
                        return Step::NotReady;
                    }
                };
                if !(array_exists(builder, tail) && value_exists(builder, region_len)) {
                    return Step::NotReady;
                }
                let elements = begin_elements(builder, tail.len);
                let (offset, head) = element_head(
                    builder,
                    elements.index,
                    tail.one_word,
                    tail.payload_src,
                );
                self.values.push(tail.payload_src);
                self.values.push(region_len);
                self.values.push(tail.payload_bytes);
                self.values.push(head);
                self.control.push(Control::Elements(elements));
                self.control.push(Control::Offset(offset));
                assert(scene(*lowerer, *self, builder@) =~= expected->Done_0);
                Step::Done
            },
            Task::PointersLoopEnd => {
                if !self.is_ready(builder, 1) {
                    return Step::NotReady;
                }
                let a0 = self.peek(0);
                assert(has_value(builder@.func, top(self.values@, 0)));
                let offset = match self.enclosing(0) {
                    Some(Control::Offset(offset)) => offset,
                    _ => {
                        return Step::NotReady;
                    }
                };
                let elements = match self.enclosing(1) {
                    Some(Control::Elements(elements)) => elements,
                    _ => {
                        return Step::NotReady;
                    }
                };
                let (_array, data) = match self.enclosing(2) {
                    Some(Control::Copy(_array, data)) => (_array, data),
                    _ => {
                        return Step::NotReady;
                    }
                };
                if !(value_exists(builder, offset)
                    && elements_exist(builder, elements)
                    && value_exists(builder, data)) {
                    return Step::NotReady;
                }
                self.drop_values(1);
                proof {
                    lemma_placing_keeps_phis(builder@, data, offset, a0, elements.index);
                }
                store_element_at(builder, data, offset, a0);
                end_elements(builder, elements);
                let _ = self.control.pop();
                let _ = self.control.pop();
                assert(scene(*lowerer, *self, builder@) =~= expected->Done_0);
                Step::Done
            },
            Task::ArrayDone => {
                let (_array, _data) = match self.enclosing(0) {
                    Some(Control::Copy(_array, _data)) => (_array, _data),
                    _ => {
                        return Step::NotReady;
                    }
                };
                let (_tail, _region_len) = match self.enclosing(1) {
                    Some(Control::Array(_tail, _region_len)) => (_tail, _region_len),
                    _ => {
                        return Step::NotReady;
                    }
                };
                let _ = self.control.pop();
                let _ = self.control.pop();
                assert(scene(*lowerer, *self, builder@) =~= expected->Done_0);
                Step::Done
            },
            _ => Step::Other,
        }
    }
}

/// What performing a task that finds an element in storage comes to.
pub open spec fn storage_step<'t>(s: Scene, lowerer: Lowerer, task: Task<'t>) -> StepView {
    match task {
        Task::ArrayLength(fixed_len) => {
            if ready(s.b, s.values, 2) {
                let a0 = top(s.values, 0);
                let a1 = top(s.values, 1);
                let (b, v) = array_length(s.b, a1, fixed_len);
                StepView::Done(Scene { b, values: s.values.push(v), ..s })
            } else {
                StepView::NotReady
            }
        },
        Task::ElementSlot(fixed_len, slots) => {
            if ready(s.b, s.values, 2) {
                let a0 = top(s.values, 0);
                let a1 = top(s.values, 1);
                let (b, v) = element_slot(s.b, a1, fixed_len, a0, slots);
                StepView::Done(Scene { b, values: cut(s.values, 2).push(v), ..s })
            } else {
                StepView::NotReady
            }
        },
        Task::PushBegin => {
            if ready(s.b, s.values, 1) {
                let a0 = top(s.values, 0);
                let (b, r) = push_begun(s.b, a0);
                StepView::Done(Scene { b, values: s.values.push(r.0).push(r.1).push(r.2), ..s })
            } else {
                StepView::NotReady
            }
        },
        Task::PushedElement(slots) => {
            if ready(s.b, s.values, 3) {
                let a0 = top(s.values, 0);
                let a1 = top(s.values, 1);
                let a2 = top(s.values, 2);
                let (b, v) = hashed_element(s.b, a2, a1, slots);
                StepView::Done(Scene { b, values: s.values.push(v), ..s })
            } else {
                StepView::NotReady
            }
        },
        Task::PushEnd => {
            if ready(s.b, s.values, 4) {
                let a0 = top(s.values, 0);
                let a1 = top(s.values, 1);
                let a2 = top(s.values, 2);
                let a3 = top(s.values, 3);
                StepView::Done(
                    Scene {
                        b: emitted(s.b, inst(Op::SStore, seq![a3, a1]), None),
                        values: cut(s.values, 4).push(a0),
                        ..s
                    },
                )
            } else {
                StepView::NotReady
            }
        },
        Task::PopBegin => {
            if ready(s.b, s.values, 1) {
                let a0 = top(s.values, 0);
                let (b, v) = pop_begun(s.b, a0);
                StepView::Done(Scene { b, values: s.values.push(v), ..s })
            } else {
                StepView::NotReady
            }
        },
        Task::PoppedElement(slots) => {
            if ready(s.b, s.values, 3) {
                let a0 = top(s.values, 0);
                let a1 = top(s.values, 1);
                let a2 = top(s.values, 2);
                let (b, v) = hashed_element(s.b, a2, a0, slots);
                StepView::Done(Scene { b, values: s.values.push(v), ..s })
            } else {
                StepView::NotReady
            }
        },
        Task::PopEnd => {
            if ready(s.b, s.values, 3) {
                let a0 = top(s.values, 0);
                let a1 = top(s.values, 1);
                let a2 = top(s.values, 2);
                StepView::Done(
                    Scene {
                        b: emitted(s.b, inst(Op::SStore, seq![a2, a0]), None),
                        values: cut(s.values, 3),
                        ..s
                    },
                )
            } else {
                StepView::NotReady
            }
        },
        Task::MappingSlotBy(hash, index) => {
            if ready(s.b, s.values, 2) {
                let a0 = top(s.values, 0);
                let a1 = top(s.values, 1);
                if key_bytes(index).len() <= usize::MAX - 64 {
                    let (b, v) = mapping_element(
                        s.b,
                        lowerer.has_mcopy,
                        hash,
                        key_bytes(index),
                        a0,
                        a1,
                    );
                    StepView::Done(Scene { b, values: cut(s.values, 2).push(v), ..s })
                } else {
                    StepView::NotReady
                }
            } else {
                StepView::NotReady
            }
        },
        Task::StringRevert => {
            if ready(s.b, s.values, 1) {
                let a0 = top(s.values, 0);
                StepView::Done(
                    Scene {
                        b: error_string_reverted(s.b, lowerer.has_mcopy, a0),
                        values: cut(s.values, 1),
                        ..s
                    },
                )
            } else {
                StepView::NotReady
            }
        },
        _ => StepView::Other,
    }
}

impl Machine {
    /// Performs a task that finds an element in storage.
    #[verifier::rlimit(40)]
    pub fn perform_storage<'b, 't>(
        &mut self,
        lowerer: &Lowerer,
        builder: &mut FunctionBuilder<'b>,
        task: &Task<'t>,
    ) -> (r: Step)
        requires
            old(builder).wf(),
        ensures
            final(builder).wf(),
            did(
                scene(*lowerer, *old(self), old(builder)@),
                scene(*lowerer, *final(self), final(builder)@),
                r,
                storage_step(scene(*lowerer, *old(self), old(builder)@), *lowerer, *task),
            ),
            extends(old(builder)@, final(builder)@),
            *final(final(builder).func) == *final(old(builder).func),
    {
        broadcast use group_builder_steps;

        let ghost before = scene(*lowerer, *self, builder@);
        let ghost expected = storage_step(before, *lowerer, *task);
        match task {
            Task::ArrayLength(fixed_len) => {
                if !self.is_ready(builder, 2) {
                    return Step::NotReady;
                }
                assert(has_value(builder@.func, top(self.values@, 0)));
                let a1 = self.peek(1);
                assert(has_value(builder@.func, top(self.values@, 1)));
                let v = load_array_length(builder, a1, *fixed_len);
                self.values.push(v);
                assert(scene(*lowerer, *self, builder@) =~= expected->Done_0);
                Step::Done
            },
            Task::ElementSlot(fixed_len, slots) => {
                if !self.is_ready(builder, 2) {
                    return Step::NotReady;
                }
                let a0 = self.peek(0);
                assert(has_value(builder@.func, top(self.values@, 0)));
                let a1 = self.peek(1);
                assert(has_value(builder@.func, top(self.values@, 1)));
                self.drop_values(2);
                let v = lower_storage_array_element_slot(builder, a1, *fixed_len, a0, *slots);
                self.values.push(v);
                assert(scene(*lowerer, *self, builder@) =~= expected->Done_0);
                Step::Done
            },
            Task::PushBegin => {
                if !self.is_ready(builder, 1) {
                    return Step::NotReady;
                }
                let a0 = self.peek(0);
                assert(has_value(builder@.func, top(self.values@, 0)));
                let r = begin_push(builder, a0);
                self.values.push(r.0);
                self.values.push(r.1);
                self.values.push(r.2);
                assert(scene(*lowerer, *self, builder@) =~= expected->Done_0);
                Step::Done
            },
            Task::PushedElement(slots) => {
                if !self.is_ready(builder, 3) {
                    return Step::NotReady;
                }
                assert(has_value(builder@.func, top(self.values@, 0)));
                let a1 = self.peek(1);
                assert(has_value(builder@.func, top(self.values@, 1)));
                let a2 = self.peek(2);
                assert(has_value(builder@.func, top(self.values@, 2)));
                let v = hashed_element_slot(builder, a2, a1, *slots);
                self.values.push(v);
                assert(scene(*lowerer, *self, builder@) =~= expected->Done_0);
                Step::Done
            },
            Task::PushEnd => {
                if !self.is_ready(builder, 4) {
                    return Step::NotReady;
                }
                let a0 = self.peek(0);
                assert(has_value(builder@.func, top(self.values@, 0)));
                let a1 = self.peek(1);
                assert(has_value(builder@.func, top(self.values@, 1)));
                assert(has_value(builder@.func, top(self.values@, 2)));
                let a3 = self.peek(3);
                assert(has_value(builder@.func, top(self.values@, 3)));
                self.drop_values(4);
                builder.sstore(a3, a1);
                self.values.push(a0);
                assert(scene(*lowerer, *self, builder@) =~= expected->Done_0);
                Step::Done
            },
            Task::PopBegin => {
                if !self.is_ready(builder, 1) {
                    return Step::NotReady;
                }
                let a0 = self.peek(0);
                assert(has_value(builder@.func, top(self.values@, 0)));
                let v = begin_pop(builder, a0);
                self.values.push(v);
                assert(scene(*lowerer, *self, builder@) =~= expected->Done_0);
                Step::Done
            },
            Task::PoppedElement(slots) => {
                if !self.is_ready(builder, 3) {
                    return Step::NotReady;
                }
                let a0 = self.peek(0);
                assert(has_value(builder@.func, top(self.values@, 0)));
                assert(has_value(builder@.func, top(self.values@, 1)));
                let a2 = self.peek(2);
                assert(has_value(builder@.func, top(self.values@, 2)));
                let v = hashed_element_slot(builder, a2, a0, *slots);
                self.values.push(v);
                assert(scene(*lowerer, *self, builder@) =~= expected->Done_0);
                Step::Done
            },
            Task::PopEnd => {
                if !self.is_ready(builder, 3) {
                    return Step::NotReady;
                }
                let a0 = self.peek(0);
                assert(has_value(builder@.func, top(self.values@, 0)));
                assert(has_value(builder@.func, top(self.values@, 1)));
                let a2 = self.peek(2);
                assert(has_value(builder@.func, top(self.values@, 2)));
                self.drop_values(3);
                builder.sstore(a2, a0);
                assert(scene(*lowerer, *self, builder@) =~= expected->Done_0);
                Step::Done
            },
            Task::MappingSlotBy(hash, index) => {
                if !self.is_ready(builder, 2) {
                    return Step::NotReady;
                }
                let a0 = self.peek(0);
                assert(has_value(builder@.func, top(self.values@, 0)));
                let a1 = self.peek(1);
                assert(has_value(builder@.func, top(self.values@, 1)));
                let literal = copy_key_bytes(*index);
                if !(literal.len() <= usize::MAX - 64) {
                    return Step::NotReady;
                }
                self.drop_values(2);
                let v = compute_mapping_slot_for_key(
                    builder,
                    lowerer.has_mcopy,
                    *hash,
                    &literal,
                    a0,
                    a1,
                );
                self.values.push(v);
                assert(scene(*lowerer, *self, builder@) =~= expected->Done_0);
                Step::Done
            },
            Task::StringRevert => {
                if !self.is_ready(builder, 1) {
                    return Step::NotReady;
                }
                let a0 = self.peek(0);
                assert(has_value(builder@.func, top(self.values@, 0)));
                self.drop_values(1);
                emit_revert_error_string_from_memory(builder, lowerer.has_mcopy, a0);
                assert(scene(*lowerer, *self, builder@) =~= expected->Done_0);
                Step::Done
            },
            _ => Step::Other,
        }
    }
}

} // verus!
