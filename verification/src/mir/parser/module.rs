//! Functions and modules.

use crate::mir::builder::{moved, BuilderView, FunctionBuilder};
use crate::mir::function::{
    block_fits, edges_fit, empty_function, function_wf, has_block, has_value, has_values,
    lemma_blocks_fit_frame, lemma_same_places, lemma_wf_frame, next_value, with_param, BlockView,
    Function, FunctionAttributes, FunctionView, StateMutability,
};
use crate::mir::inst::{inst, operands_of, InstKind, InstView, KindView, Op, TermView, Terminator};
use crate::mir::module::{function_views, functions_wf, name_view, Module, ModuleView};
use crate::mir::parser::instruction::line;
use crate::mir::parser::layout::{abi_layout, joined_name, left, type_of};
use crate::mir::parser::state::{
    args_fit, args_kept, at, at_most, bump, eat, expect, fail, follows, ident, kept, keyword, kind,
    layouts_distinct, lemma_args_fit, lemma_grown, parser_state, pending_views, refs_fit, span,
    state_wf, uint, FunctionRef, FunctionRefTarget, Parser, PendingFunctionRef, PendingView,
    RefView, State,
};
use crate::mir::parser::token::{token_views, Failure, ParseError, Problem, Punct, Token};
use crate::mir::parser::value::{
    block_header, blocks_defined, define, least_unknown, values_defined,
};
use crate::mir::types::{AbiLayoutRef, Arg, BlockId, FunctionId, MirType, Value};
use crate::mir::utils::{is_rename_table, new_name, remap_block_order, reordered, selects};
use crate::text::{
    after_prefix, concat, decimal, decimal_text, number_of, parse_number, strip_prefix, text_is,
};
use vstd::prelude::*;

verus! {

broadcast use crate::mir::parser::state::group_kept;

/// The state at the start of a function.
pub open spec fn cleared(s: State) -> State {
    State {
        refs: Seq::empty(),
        args: Seq::empty(),
        labels: Seq::empty(),
        order: Seq::empty(),
        values: Seq::empty(),
        b: BuilderView { func: empty_function(Seq::empty()), block: BlockId(0) },
        ..s
    }
}

/// The state with the function changed in something other than its body.
pub open spec fn with_func(s: State, func: FunctionView) -> State {
    State { b: BuilderView { func, block: s.b.block }, ..s }
}

/// The state with one more parameter.
pub open spec fn with_param_read(s: State, ty: MirType) -> State {
    State { args: s.args.push(next_value(s.b.func)), ..with_func(s, with_param(s.b.func, ty)) }
}

/// Reads the further parameters of a function, and the parenthesis that closes
/// them.
pub open spec fn params(s: State) -> Result<((), State), Failure>
    decreases left(s),
{
    let rest = left(s);
    match ident(s) {
        Err(failure) => Err(failure),
        Ok((name, s)) => {
            match after_prefix(name, "arg"@) {
                None => fail(s, Problem::ExpectedArgName, name),
                Some(digits) => match number_of(digits, u32::MAX as nat) {
                    None => fail(s, Problem::InvalidArgIndex, name),
                    Some(index) => if index != s.b.func.params.len() {
                        fail(s, Problem::ArgOutOfOrder(s.b.func.params.len() as u32), name)
                    } else {
                        match expect(s, Punct::Colon) {
                            Err(failure) => Err(failure),
                            Ok((_mark, s)) => {
                                match type_of(s) {
                                    Err(failure) => Err(failure),
                                    Ok((ty, s)) => {
                                        let s = with_param_read(s, ty);
                                        if at(s, Punct::Comma) {
                                            let s = bump(s);
                                            if left(s) < rest {
                                                params(s)
                                            } else {
                                                fail(
                                                    s,
                                                    Problem::Expected(Punct::Comma),
                                                    Seq::empty(),
                                                )
                                            }
                                        } else {
                                            expect(s, Punct::CloseParen)
                                        }
                                    },
                                }
                            },
                        }
                    },
                },
            }
        },
    }
}

/// The state with one more return type.
pub open spec fn with_return(s: State, ty: MirType) -> State {
    with_func(
        s,
        FunctionView { return_types: s.b.func.return_types.push(ty), ..s.b.func },
    )
}

/// Reads the further return types of a function, and the parenthesis that
/// closes them.
pub open spec fn return_list(s: State) -> Result<((), State), Failure>
    decreases left(s),
{
    let rest = left(s);
    match type_of(s) {
        Err(failure) => Err(failure),
        Ok((ty, s)) => {
            let s = with_return(s, ty);
            if at(s, Punct::Comma) {
                let s = bump(s);
                if left(s) < rest {
                    return_list(s)
                } else {
                    fail(s, Problem::Expected(Punct::Comma), Seq::empty())
                }
            } else {
                expect(s, Punct::CloseParen)
            }
        },
    }
}

/// Reads the return types of a function, if there are any.
#[verifier::opaque]
pub open spec fn return_types(s: State) -> Result<((), State), Failure> {
    if at(s, Punct::Arrow) {
        let s = bump(s);
        if at(s, Punct::OpenParen) {
            let s = bump(s);
            if at(s, Punct::CloseParen) {
                Ok(((), bump(s)))
            } else {
                return_list(s)
            }
        } else {
            match type_of(s) {
                Err(failure) => Err(failure),
                Ok((ty, s)) => {
                    Ok(((), with_return(s, ty)))
                },
            }
        }
    } else {
        Ok(((), s))
    }
}

/// Reads one attribute of a function whose name has been read.
#[verifier::opaque]
pub open spec fn attribute(s: State, key: Seq<char>) -> Result<((), State), Failure> {
    let func = s.b.func;
    if key == "selector"@ {
        match expect(s, Punct::Eq) {
            Err(failure) => Err(failure),
            Ok((_mark, s)) => {
                match uint(s) {
                    Err(failure) => Err(failure),
                    Ok((number, s)) => {
                        match at_most(s, number, u32::MAX as nat, Problem::DoesNotFit { value: number, bits: 32 }) {
                            Err(failure) => Err(failure),
                            Ok((small, s)) => {
                                Ok(
                                    (
                                        (),
                                        with_func(
                                            s,
                                            FunctionView { selector: Some(small as u32), ..func },
                                        ),
                                    ),
                                )
                            },
                        }
                    },
                }
            },
        }
    } else if key == "abi_returns"@ {
        match expect(s, Punct::Eq) {
            Err(failure) => Err(failure),
            Ok((_mark, s)) => {
                match abi_layout(s) {
                    Err(failure) => Err(failure),
                    Ok((layout, s)) => {
                        Ok(((), with_func(s, FunctionView { abi_returns: Some(layout), ..func })))
                    },
                }
            },
        }
    } else if key == "receive"@ {
        let attributes = FunctionAttributes { is_receive: true, ..func.attributes };
        Ok(((), with_func(s, FunctionView { attributes, ..func })))
    } else if key == "fallback"@ {
        let attributes = FunctionAttributes { is_fallback: true, ..func.attributes };
        Ok(((), with_func(s, FunctionView { attributes, ..func })))
    } else if key == "payable"@ {
        let attributes = FunctionAttributes {
            state_mutability: StateMutability::Payable,
            ..func.attributes
        };
        Ok(((), with_func(s, FunctionView { attributes, ..func })))
    } else {
        fail(s, Problem::UnknownFunctionAttribute, key)
    }
}

/// Reads the further attributes of a function, and the bracket that closes
/// them.
pub open spec fn attribute_list(s: State) -> Result<((), State), Failure>
    decreases left(s),
{
    let rest = left(s);
    match ident(s) {
        Err(failure) => Err(failure),
        Ok((key, s)) => {
            match attribute(s, key) {
                Err(failure) => Err(failure),
                Ok((_unit, s)) => {
                    if at(s, Punct::Comma) {
                        let s = bump(s);
                        if left(s) < rest {
                            attribute_list(s)
                        } else {
                            fail(s, Problem::Expected(Punct::Comma), Seq::empty())
                        }
                    } else {
                        expect(s, Punct::CloseBracket)
                    }
                },
            }
        },
    }
}

/// Reads the attributes of a function, if there are any.
pub open spec fn attributes(s: State) -> Result<((), State), Failure> {
    if at(s, Punct::OpenBracket) {
        attribute_list(bump(s))
    } else {
        Ok(((), s))
    }
}

/// Reads the further blocks of a function, and the brace that closes it.
pub open spec fn body(s: State, started: bool) -> Result<((), State), Failure>
    decreases left(s),
{
    let rest = left(s);
    if kind(s) is Eof {
        fail(s, Problem::UnterminatedBody, Seq::empty())
    } else if at(s, Punct::CloseBrace) {
        Ok(((), bump(s)))
    } else if let Some(header) = block_header(s) {
        let (label, s) = header;
        match define(s, label) {
            Err(failure) => Err(failure),
            Ok((block, s)) => {
                let s = State { b: moved(s.b, block), ..s };
                if left(s) < rest {
                    body(s, true)
                } else {
                    fail(s, Problem::UnterminatedBody, Seq::empty())
                }
            },
        }
    } else if !started {
        fail(s, Problem::OutsideBlock, Seq::empty())
    } else {
        match line(s) {
            Err(failure) => Err(failure),
            Ok((_unit, s)) => {
                if left(s) < rest {
                    body(s, true)
                } else {
                    fail(s, Problem::UnterminatedBody, Seq::empty())
                }
            },
        }
    }
}

/// Reads the head of a function: name, parameters, return types, attributes
/// and the brace that opens the body.
#[verifier::opaque]
pub open spec fn function_head(s: State) -> Result<((), State), Failure> {
    let s = cleared(s);
    match keyword(s, "fn"@) {
        Err(failure) => Err(failure),
        Ok((_word, s)) => {
            match expect(s, Punct::At) {
                Err(failure) => Err(failure),
                Ok((_mark, s)) => {
                    match joined_name(s, Punct::Dot) {
                        Err(failure) => Err(failure),
                        Ok((name, s)) => {
                            let s = with_func(s, FunctionView { name, ..s.b.func });
                            match expect(s, Punct::OpenParen) {
                                Err(failure) => Err(failure),
                                Ok((_mark, s)) => {
                                    match (if at(s, Punct::CloseParen) {
                                            Ok(((), bump(s)))
                                        } else {
                                            params(s)
                                    }) {
                                        Err(failure) => Err(failure),
                                        Ok((_unit, s)) => {
                                            match return_types(s) {
                                                Err(failure) => Err(failure),
                                                Ok((_unit, s)) => {
                                                    match attributes(s) {
                                                        Err(failure) => Err(failure),
                                                        Ok((_unit, s)) => {
                                                            expect(s, Punct::OpenBrace)
                                                        },
                                                    }
                                                },
                                            }
                                        },
                                    }
                                },
                            }
                        },
                    }
                },
            }
        },
    }
}

/// A mention of a function with its block under its new name.
pub open spec fn moved_ref(item: PendingView, order: Seq<BlockId>) -> PendingView {
    PendingView {
        target: match item.target {
            FunctionRefTarget::Terminator(block) => FunctionRefTarget::Terminator(
                new_name(order, block),
            ),
            other => other,
        },
        ..item
    }
}

/// The function that has been read, its blocks in order of their definition,
/// and the mentions of functions in it.
pub open spec fn finished(s: State) -> (FunctionView, Seq<PendingView>) {
    (
        reordered(s.b.func, s.order),
        s.refs.map_values(|item: PendingView| moved_ref(item, s.order)),
    )
}

/// Rejects a function without blocks, or with a mention of something that is
/// not defined.
#[verifier::opaque]
pub open spec fn complete(s: State) -> Result<((), State), Failure> {
    if s.order.len() == 0 {
        fail(s, Problem::NoBlock, Seq::empty())
    } else {
        match blocks_defined(s) {
            Err(failure) => Err(failure),
            Ok((_unit, s)) => {
                values_defined(s)
            },
        }
    }
}

/// Reads a function.
#[verifier::opaque]
pub open spec fn function(s: State) -> Result<((FunctionView, Seq<PendingView>), State), Failure> {
    match function_head(s) {
        Err(failure) => Err(failure),
        Ok((_unit, s)) => {
            match body(s, false) {
                Err(failure) => Err(failure),
                Ok((_unit, s)) => {
                    match complete(s) {
                        Err(failure) => Err(failure),
                        Ok((_unit, s)) => {
                            Ok((finished(s), cleared(s)))
                        },
                    }
                },
            }
        },
    }
}

/// Whether a function has the name that a mention of it uses.
pub open spec fn is_named(functions: Seq<FunctionView>, i: int, reference: RefView) -> bool {
    if reference.displayed {
        functions[i].name + decimal(i as nat) == reference.name
    } else {
        functions[i].name == reference.name
    }
}

/// The first `count` functions that have the name that a mention uses.
pub open spec fn candidates(functions: Seq<FunctionView>, reference: RefView, count: nat) -> Seq<
    nat,
>
    decreases count,
{
    if count == 0 {
        Seq::empty()
    } else {
        let front = candidates(functions, reference, (count - 1) as nat);
        if is_named(functions, count - 1, reference) {
            front.push((count - 1) as nat)
        } else {
            front
        }
    }
}

/// A call of another function.
pub open spec fn with_callee(kind: KindView, callee: FunctionId) -> KindView {
    match kind {
        KindView::Inst { op: Op::InternalCall { function, return_count }, args } => inst(
            Op::InternalCall { function: callee, return_count },
            args,
        ),
        _ => kind,
    }
}

/// A tail call of another function.
pub open spec fn with_tail_callee(term: Option<TermView>, callee: FunctionId) -> Option<TermView> {
    match term {
        Some(TermView::TailCall { function, args }) => Some(
            TermView::TailCall { function: callee, args },
        ),
        _ => term,
    }
}

/// A function in which one mention of a function has been resolved.
pub open spec fn with_target(
    func: FunctionView,
    target: FunctionRefTarget,
    callee: FunctionId,
) -> FunctionView {
    match target {
        FunctionRefTarget::Instruction(id) => if id.0 < func.insts.len() {
            let old = func.insts[id.0 as int];
            FunctionView {
                insts: func.insts.update(
                    id.0 as int,
                    InstView { kind: with_callee(old.kind, callee), ..old },
                ),
                ..func
            }
        } else {
            func
        },
        FunctionRefTarget::Terminator(block) => if block.0 < func.blocks.len() {
            let old = func.blocks[block.0 as int];
            FunctionView {
                blocks: func.blocks.update(
                    block.0 as int,
                    BlockView { terminator: with_tail_callee(old.terminator, callee), ..old },
                ),
                ..func
            }
        } else {
            func
        },
    }
}

/// The functions with one mention resolved.
pub open spec fn resolved_one(
    functions: Seq<FunctionView>,
    owner: nat,
    item: PendingView,
) -> Result<
    Seq<FunctionView>,
    Failure,
> {
    let found = candidates(functions, item.reference, functions.len());
    if found.len() == 0 {
        Err(
            Failure {
                problem: Problem::UnknownFunction,
                text: item.reference.name,
                span: item.reference.span,
            },
        )
    } else if found.len() > 1 {
        Err(
            Failure {
                problem: Problem::AmbiguousFunction,
                text: item.reference.name,
                span: item.reference.span,
            },
        )
    } else {
        Ok(
            functions.update(
                owner as int,
                with_target(
                    functions[owner as int],
                    item.target,
                    FunctionId(found[0] as usize),
                ),
            ),
        )
    }
}

/// The functions with the first `count` mentions resolved, in order.
pub open spec fn resolved(
    functions: Seq<FunctionView>,
    items: Seq<(nat, PendingView)>,
    count: nat,
) -> Result<Seq<FunctionView>, Failure>
    decreases count,
{
    if count == 0 {
        Ok(functions)
    } else {
        match resolved(functions, items, (count - 1) as nat) {
            Err(failure) => Err(failure),
            Ok(done) => resolved_one(done, items[count - 1].0, items[count - 1].1),
        }
    }
}

/// The mentions in one function, each with the function's position.
pub open spec fn owned(owner: nat, items: Seq<PendingView>) -> Seq<(nat, PendingView)> {
    items.map_values(|item: PendingView| (owner, item))
}

/// Reads the further functions of a module, after those given.
pub open spec fn functions(
    s: State,
    found: Seq<FunctionView>,
    items: Seq<(nat, PendingView)>,
) -> Result<((Seq<FunctionView>, Seq<(nat, PendingView)>), State), Failure>
    decreases left(s),
{
    let rest = left(s);
    if kind(s) is Eof {
        Ok(((found, items), s))
    } else {
        match function(s) {
            Err(failure) => Err(failure),
            Ok((one, s)) => {
                if left(s) < rest {
                    functions(s, found.push(one.0), items + owned(found.len(), one.1))
                } else {
                    fail(s, Problem::UnterminatedBody, Seq::empty())
                }
            },
        }
    }
}

/// Reads the attributes of a module, after the phase that is known so far.
pub open spec fn module_attributes(
    s: State,
    phase: Option<Seq<char>>,
    phases: Seq<Seq<char>>,
) -> Result<(Option<Seq<char>>, State), Failure>
    decreases left(s),
{
    let rest = left(s);
    if at(s, Punct::At) {
        let s = bump(s);
        match ident(s) {
            Err(failure) => Err(failure),
            Ok((key, s)) => {
                if key == "phase"@ {
                    let here = span(s);
                    match joined_name(s, Punct::Minus) {
                        Err(failure) => Err(failure),
                        Ok((name, s)) => {
                            if !phases.contains(name) {
                                Err(
                                    Failure {
                                        problem: Problem::UnknownPhase,
                                        text: name,
                                        span: here,
                                    },
                                )
                            } else if left(s) < rest {
                                module_attributes(s, Some(name), phases)
                            } else {
                                fail(s, Problem::ExpectedIdent, Seq::empty())
                            }
                        },
                    }
                } else {
                    fail(s, Problem::UnknownModuleAttribute, key)
                }
            },
        }
    } else {
        Ok((phase, s))
    }
}

/// Reads the head of a module: its name and attributes.
#[verifier::opaque]
pub open spec fn module_head(s: State, phases: Seq<Seq<char>>) -> Result<
    ((Seq<char>, Option<Seq<char>>), State),
    Failure,
> {
    match expect(s, Punct::At) {
        Err(failure) => Err(failure),
        Ok((_mark, s)) => {
            match keyword(s, "module"@) {
                Err(failure) => Err(failure),
                Ok((_word, s)) => {
                    match ident(s) {
                        Err(failure) => Err(failure),
                        Ok((name, s)) => {
                            match module_attributes(s, None, phases) {
                                Err(failure) => Err(failure),
                                Ok((phase, s)) => {
                                    Ok(((name, phase), s))
                                },
                            }
                        },
                    }
                },
            }
        },
    }
}

/// Reads a module.
pub open spec fn module(s: State, phases: Seq<Seq<char>>) -> Result<(ModuleView, State), Failure> {
    match module_head(s, phases) {
        Err(failure) => Err(failure),
        Ok((head, s)) => {
            match functions(s, Seq::empty(), Seq::empty()) {
                Err(failure) => Err(failure),
                Ok((found, s)) => {
                    match resolved(found.0, found.1, found.1.len()) {
                        Err(failure) => Err(failure),
                        Ok(done) => Ok((
                                ModuleView {
                                    name: head.0,
                                    phase: head.1,
                                    functions: done,
                                    is_interface: false,
                                    abi_layouts: s.abi,
                                    aggregate_layouts: s.storage,
                                    immutables: Seq::empty(),
                                },
                                s,
                        )),
                    }
                },
            }
        },
    }
}

/// The state before anything has been read.
pub open spec fn start(tokens: Seq<Token>) -> State {
    State {
        toks: token_views(tokens),
        pos: 0,
        gt: 0,
        pending: None,
        refs: Seq::empty(),
        args: Seq::empty(),
        labels: Seq::empty(),
        order: Seq::empty(),
        values: Seq::empty(),
        abi: Seq::empty(),
        storage: Seq::empty(),
        b: BuilderView { func: empty_function(Seq::empty()), block: BlockId(0) },
    }
}

/// The texts of names.
pub open spec fn texts(names: Seq<String>) -> Seq<Seq<char>> {
    names.map_values(|name: String| name@)
}

/// The module that a text denotes, or why it is rejected. A phase has to be
/// one of `phases`.
pub open spec fn parsed(tokens: Seq<Token>, phases: Seq<String>) -> Result<ModuleView, Failure> {
    match module(start(tokens), texts(phases)) {
        Ok((found, s)) => Ok(found),
        Err(failure) => Err(failure),
    }
}

/// A state whose function differs in something other than its body stays
/// well-formed.
proof fn lemma_with_func_wf(s: State, func: FunctionView)
    requires
        state_wf(s),
        func.params == s.b.func.params,
        func.values == s.b.func.values,
        func.insts == s.b.func.insts,
        func.blocks == s.b.func.blocks,
    ensures
        state_wf(with_func(s, func)),
        follows(with_func(s, func), s),
{
    reveal(state_wf);
    lemma_wf_frame(s.b.func, func);
    lemma_args_fit(s, with_func(s, func));
}

/// The state at the start of a function is well-formed.
proof fn lemma_cleared_wf(s: State, func: Function)
    requires
        s.pos <= s.toks.len(),
        layouts_distinct(s),
        func@ == empty_function(Seq::empty()),
        function_wf(func@),
    ensures
        state_wf(cleared(s)),
{
    reveal(state_wf);
    func.lemma_sizes();
    let after = cleared(s);
    assert(after.b.func.blocks.len() == 1);
    assert forall|block: BlockId| !(#[trigger] after.order.contains(block)) by {}
}

/// Where no label is unknown, all are defined.
proof fn lemma_all_defined(s: State, count: nat)
    requires
        least_unknown(s, count) is None,
        count <= s.labels.len(),
    ensures
        forall|i: int| 0 <= i < count ==> (#[trigger] s.labels[i]).1.defined,
    decreases count,
{
    if count > 0 {
        lemma_all_defined(s, (count - 1) as nat);
    }
}

/// In a complete function every block is listed once.
proof fn lemma_complete_order(s: State)
    requires
        state_wf(s),
        complete(s) is Ok,
    ensures
        selects(s.b.func, s.order),
        s.order.len() == s.b.func.blocks.len(),
        s.order.len() > 0,
{
    reveal(state_wf);
    reveal(complete);
    lemma_all_defined(s, s.labels.len());
    let func = s.b.func;
    assert(s.order.contains(s.order[0]));
    assert(s.labels.len() == func.blocks.len());
    assert forall|i: int| 0 <= i < s.order.len() implies has_block(func, #[trigger] s.order[i]) by {
        assert(s.order.contains(s.order[i]));
    }
    let names = s.order.map_values(|block: BlockId| block.0 as int);
    assert(names.no_duplicates()) by {
        assert forall|i: int, j: int|
            0 <= i < names.len() && 0 <= j < names.len() && i != j implies names[i] != names[j] by {
            assert(s.order[i] != s.order[j]);
        }
    }
    names.unique_seq_to_set();
    let all = vstd::set_lib::set_int_range(0, func.blocks.len() as int);
    vstd::set_lib::lemma_int_range(0, func.blocks.len() as int);
    assert(names.to_set() =~= all) by {
        assert forall|n: int| names.to_set().contains(n) <==> all.contains(n) by {
            if names.to_set().contains(n) {
                let k = choose|k: int| 0 <= k < names.len() && names[k] == n;
                assert(has_block(func, s.order[k]));
            }
            if all.contains(n) {
                let block = BlockId(n as usize);
                assert(s.labels[n].1.defined);
                assert(s.order.contains(block));
                let k = choose|k: int| 0 <= k < s.order.len() && s.order[k] == block;
                assert(names[k] == n);
            }
        }
    }
}

/// Resolving a mention keeps a function well-formed.
proof fn lemma_with_target_wf(func: FunctionView, target: FunctionRefTarget, callee: FunctionId)
    requires
        function_wf(func),
    ensures
        function_wf(with_target(func, target, callee)),
        with_target(func, target, callee).name == func.name,
{
    reveal(function_wf);
    let after = with_target(func, target, callee);
    lemma_blocks_fit_frame(func, after);
    assert forall|j: int| 0 <= j < after.insts.len() implies has_values(
        after,
        operands_of((#[trigger] after.insts[j]).kind),
    ) by {
        assert(has_values(func, operands_of(func.insts[j].kind)));
        assert(operands_of(after.insts[j].kind) == operands_of(func.insts[j].kind));
    }
    assert forall|b: int| 0 <= b < after.blocks.len() implies block_fits(
        after,
        #[trigger] after.blocks[b],
    ) by {
        assert(block_fits(func, func.blocks[b]));
    }
    lemma_same_places(func.blocks, after.blocks);
    assert forall|b: int, i: int|
        #![trigger after.blocks[b].instructions[i]]
        0 <= b < after.blocks.len() && 0 <= i < after.blocks[b].instructions.len() implies edges_fit(
        after,
        after.insts[after.blocks[b].instructions[i].0 as int].kind,
    ) by {
        let id = func.blocks[b].instructions[i];
        assert(after.blocks[b].instructions[i] == id);
        assert(edges_fit(func, func.insts[id.0 as int].kind));
    }
}

/// Which functions have a name does not depend on their bodies.
proof fn lemma_candidates_same(
    before: Seq<FunctionView>,
    after: Seq<FunctionView>,
    reference: RefView,
    count: nat,
)
    requires
        before.len() == after.len(),
        count <= before.len(),
        forall|i: int| 0 <= i < before.len() ==> (#[trigger] after[i]).name == before[i].name,
    ensures
        candidates(after, reference, count) == candidates(before, reference, count),
    decreases count,
{
    if count > 0 {
        lemma_candidates_same(before, after, reference, (count - 1) as nat);
        assert(after[count - 1].name == before[count - 1].name);
    }
}

/// The functions that have a name are functions.
proof fn lemma_candidates_bound(functions: Seq<FunctionView>, reference: RefView, count: nat)
    ensures
        forall|k: int|
            0 <= k < candidates(functions, reference, count).len() ==> #[trigger] candidates(
                functions,
                reference,
                count,
            )[k] < count,
    decreases count,
{
    if count > 0 {
        lemma_candidates_bound(functions, reference, (count - 1) as nat);
        let front = candidates(functions, reference, (count - 1) as nat);
        assert forall|k: int|
            0 <= k < candidates(functions, reference, count).len() implies #[trigger] candidates(
            functions,
            reference,
            count,
        )[k] < count by {
            if k < front.len() {
                assert(candidates(functions, reference, count)[k] == front[k]);
            }
        }
    }
}

impl<'a> Parser<'a> {
    /// Makes ready for a new function.
    fn reset(&mut self) -> (r: Function)
        requires
            old(self)@.pos <= old(self)@.toks.len(),
            layouts_distinct(old(self)@),
        ensures
            final(self)@ == cleared(old(self)@),
            final(self).wf(),
            r@ == old(self)@.b.func,
    {
        proof {
            reveal(parser_state);
        }
        let mut func = Function::new(String::new());
        proof {
            lemma_cleared_wf(self@, func);
        }
        core::mem::swap(&mut func, &mut self.func);
        self.block = BlockId(0);
        self.function_refs = Vec::new();
        self.arg_values = Vec::new();
        self.block_labels = Vec::new();
        self.block_order = Vec::new();
        self.value_labels = Vec::new();
        assert(self@ =~= cleared(old(self)@));
        func
    }

    /// Parses the parameters of a function and the parenthesis that closes
    /// them.
    fn parse_params(&mut self) -> (r: Result<(), ParseError>)
        requires
            old(self).wf(),
            old(self)@.args.len() == old(self)@.b.func.params.len(),
        ensures
            match params(old(self)@) {
                Ok((_, s)) => r is Ok && final(self)@ == s,
                Err(failure) => r matches Err(e) && e@ == failure,
            },
            final(self).wf(),
            follows(final(self)@, old(self)@),
            kept(final(self)@.b, old(self)@.b),
    {
        loop
            invariant
                self.wf(),
                follows(self@, old(self)@),
                kept(self@.b, old(self)@.b),
                self@.args.len() == self@.b.func.params.len(),
                params(self@) == params(old(self)@),
            decreases left(self@),
        {
            let id = self.parse_ident()?;
            let index: u64 = match strip_prefix(id.as_str(), "arg") {
                None => {
                    return Err(self.error(Problem::ExpectedArgName, id.clone()));
                },
                Some(digits) => match parse_number(digits.as_str(), u32::MAX as u64) {
                    None => {
                        return Err(self.error(Problem::InvalidArgIndex, id.clone()));
                    },
                    Some(index) => index,
                },
            };
            let expected: usize = self.param_count();
            if index != expected as u64 {
                return Err(self.error(Problem::ArgOutOfOrder(expected as u32), id.clone()));
            }
            self.expect(Punct::Colon)?;
            let ty = self.parse_type()?;
            self.add_param_read(ty);
            if self.eat(Punct::Comma) {
                continue;
            }
            self.expect(Punct::CloseParen)?;
            return Ok(());
        }
    }

    /// How many parameters the current function has.
    fn param_count(&self) -> (r: usize)
        ensures
            r == self@.b.func.params.len(),
    {
        proof {
            reveal(parser_state);
        }
        self.func.params.len()
    }

    /// Adds a parameter.
    fn add_param_read(&mut self, ty: MirType)
        requires
            old(self).wf(),
            old(self)@.args.len() == old(self)@.b.func.params.len(),
        ensures
            final(self)@ == with_param_read(old(self)@, ty),
            final(self).wf(),
            follows(final(self)@, old(self)@),
            kept(final(self)@.b, old(self)@.b),
    {
        proof {
            reveal(state_wf);
            reveal(parser_state);
        }
        let ghost before = self@;
        let mut builder = FunctionBuilder { func: &mut self.func, current_block: self.block };
        let arg = builder.add_param(ty);
        self.arg_values.push(arg);
        proof {
            reveal(kept);
            assert(self@ =~= with_param_read(before, ty));
            reveal(args_kept);
            assert forall|i: int| 0 <= i < self@.args.len() implies has_value(
                self@.b.func,
                #[trigger] self@.args[i],
            ) && self@.b.func.values[self@.args[i].0 as int] == Value::Arg(
                Arg { index: i as usize, ty: self@.b.func.params[i] },
            ) by {
                if i < before.args.len() {
                    assert(has_value(before.b.func, before.args[i]));
                }
            }
            assert(args_fit(self@));
        }
    }

    /// Adds a return type.
    fn add_return_read(&mut self, ty: MirType)
        requires
            old(self).wf(),
        ensures
            final(self)@ == with_return(old(self)@, ty),
            final(self).wf(),
            follows(final(self)@, old(self)@),
            kept(final(self)@.b, old(self)@.b),
    {
        proof {
            reveal(parser_state);
        }
        self.func.return_types.push(ty);
        proof {
            assert(self@ =~= with_return(old(self)@, ty));
            lemma_with_func_wf(old(self)@, self@.b.func);
        }
    }

    /// Parses the return types of a function and the parenthesis that closes
    /// them.
    fn parse_return_list(&mut self) -> (r: Result<(), ParseError>)
        requires
            old(self).wf(),
        ensures
            match return_list(old(self)@) {
                Ok((_, s)) => r is Ok && final(self)@ == s,
                Err(failure) => r matches Err(e) && e@ == failure,
            },
            final(self).wf(),
            follows(final(self)@, old(self)@),
            kept(final(self)@.b, old(self)@.b),
    {
        loop
            invariant
                self.wf(),
                follows(self@, old(self)@),
                kept(self@.b, old(self)@.b),
                return_list(self@) == return_list(old(self)@),
            decreases left(self@),
        {
            let ty = self.parse_type()?;
            self.add_return_read(ty);
            if self.eat(Punct::Comma) {
                continue;
            }
            self.expect(Punct::CloseParen)?;
            return Ok(());
        }
    }

    /// Parses the return types of a function, if there are any.
    fn parse_return_types(&mut self) -> (r: Result<(), ParseError>)
        requires
            old(self).wf(),
        ensures
            match return_types(old(self)@) {
                Ok((_, s)) => r is Ok && final(self)@ == s,
                Err(failure) => r matches Err(e) && e@ == failure,
            },
            final(self).wf(),
            follows(final(self)@, old(self)@),
            kept(final(self)@.b, old(self)@.b),
    {
        proof {
            reveal(return_types);
        }
        if self.eat(Punct::Arrow) {
            if self.eat(Punct::OpenParen) {
                if !self.eat(Punct::CloseParen) {
                    self.parse_return_list()?;
                }
            } else {
                let ty = self.parse_type()?;
                self.add_return_read(ty);
            }
        }
        Ok(())
    }

    /// Parses one attribute of a function whose name has been read.
    #[verifier::rlimit(40)]
    fn parse_function_attribute(&mut self, id: &String) -> (r: Result<(), ParseError>)
        requires
            old(self).wf(),
        ensures
            match attribute(old(self)@, id@) {
                Ok((_, s)) => r is Ok && final(self)@ == s,
                Err(failure) => r matches Err(e) && e@ == failure,
            },
            final(self).wf(),
            follows(final(self)@, old(self)@),
            kept(final(self)@.b, old(self)@.b),
    {
        proof {
            reveal(attribute);
        }
        let key = id.as_str();
        if text_is(key, "selector") {
            self.expect(Punct::Eq)?;
            let number = self.parse_uint()?;
            let selector = self.u256_to_u32(number)?;
            self.set_selector(selector);
        } else if text_is(key, "abi_returns") {
            self.expect(Punct::Eq)?;
            let layout = self.parse_abi_layout()?;
            self.set_abi_returns(layout);
        } else if text_is(key, "receive") {
            let mut attributes = self.function_attributes();
            attributes.is_receive = true;
            self.set_attributes(attributes);
        } else if text_is(key, "fallback") {
            let mut attributes = self.function_attributes();
            attributes.is_fallback = true;
            self.set_attributes(attributes);
        } else if text_is(key, "payable") {
            let mut attributes = self.function_attributes();
            attributes.state_mutability = StateMutability::Payable;
            self.set_attributes(attributes);
        } else {
            return Err(self.error(Problem::UnknownFunctionAttribute, id.clone()));
        }
        Ok(())
    }

    /// The attributes of the current function.
    fn function_attributes(&self) -> (r: FunctionAttributes)
        ensures
            r == self@.b.func.attributes,
    {
        proof {
            reveal(parser_state);
        }
        self.func.attributes
    }

    /// Sets the selector of the current function.
    fn set_selector(&mut self, selector: u32)
        requires
            old(self).wf(),
        ensures
            final(self)@ == with_func(
                old(self)@,
                FunctionView { selector: Some(selector), ..old(self)@.b.func },
            ),
            final(self).wf(),
            follows(final(self)@, old(self)@),
            kept(final(self)@.b, old(self)@.b),
    {
        proof {
            reveal(parser_state);
        }
        self.func.selector = Some(selector);
        proof {
            assert(self@ =~= with_func(
                old(self)@,
                FunctionView { selector: Some(selector), ..old(self)@.b.func },
            ));
            lemma_with_func_wf(old(self)@, self@.b.func);
        }
    }

    /// Sets how the results of the current function are encoded.
    fn set_abi_returns(&mut self, layout: AbiLayoutRef)
        requires
            old(self).wf(),
        ensures
            final(self)@ == with_func(
                old(self)@,
                FunctionView { abi_returns: Some(layout@), ..old(self)@.b.func },
            ),
            final(self).wf(),
            follows(final(self)@, old(self)@),
            kept(final(self)@.b, old(self)@.b),
    {
        proof {
            reveal(parser_state);
        }
        self.func.abi_returns = Some(layout);
        proof {
            assert(self@ =~= with_func(
                old(self)@,
                FunctionView { abi_returns: Some(layout@), ..old(self)@.b.func },
            ));
            lemma_with_func_wf(old(self)@, self@.b.func);
        }
    }

    /// Sets the attributes of the current function.
    fn set_attributes(&mut self, attributes: FunctionAttributes)
        requires
            old(self).wf(),
        ensures
            final(self)@ == with_func(
                old(self)@,
                FunctionView { attributes, ..old(self)@.b.func },
            ),
            final(self).wf(),
            follows(final(self)@, old(self)@),
            kept(final(self)@.b, old(self)@.b),
    {
        proof {
            reveal(parser_state);
        }
        self.func.attributes = attributes;
        proof {
            assert(self@ =~= with_func(
                old(self)@,
                FunctionView { attributes, ..old(self)@.b.func },
            ));
            lemma_with_func_wf(old(self)@, self@.b.func);
        }
    }

    /// Sets the name of the current function.
    fn set_name(&mut self, name: String)
        requires
            old(self).wf(),
        ensures
            final(self)@ == with_func(
                old(self)@,
                FunctionView { name: name@, ..old(self)@.b.func },
            ),
            final(self).wf(),
            follows(final(self)@, old(self)@),
            kept(final(self)@.b, old(self)@.b),
    {
        proof {
            reveal(parser_state);
        }
        self.func.name = name;
        proof {
            assert(self@ =~= with_func(
                old(self)@,
                FunctionView { name: name@, ..old(self)@.b.func },
            ));
            lemma_with_func_wf(old(self)@, self@.b.func);
        }
    }

    /// Parses the attributes of a function and the bracket that closes them.
    fn parse_attribute_list(&mut self) -> (r: Result<(), ParseError>)
        requires
            old(self).wf(),
        ensures
            match attribute_list(old(self)@) {
                Ok((_, s)) => r is Ok && final(self)@ == s,
                Err(failure) => r matches Err(e) && e@ == failure,
            },
            final(self).wf(),
            follows(final(self)@, old(self)@),
            kept(final(self)@.b, old(self)@.b),
    {
        loop
            invariant
                self.wf(),
                follows(self@, old(self)@),
                kept(self@.b, old(self)@.b),
                attribute_list(self@) == attribute_list(old(self)@),
            decreases left(self@),
        {
            let key = self.parse_ident()?;
            self.parse_function_attribute(key)?;
            if self.eat(Punct::Comma) {
                continue;
            }
            self.expect(Punct::CloseBracket)?;
            return Ok(());
        }
    }

    /// Parses the attributes of a function, if there are any.
    pub fn parse_function_attributes(&mut self) -> (r: Result<(), ParseError>)
        requires
            old(self).wf(),
        ensures
            match attributes(old(self)@) {
                Ok((_, s)) => r is Ok && final(self)@ == s,
                Err(failure) => r matches Err(e) && e@ == failure,
            },
            final(self).wf(),
            follows(final(self)@, old(self)@),
            kept(final(self)@.b, old(self)@.b),
    {
        if !self.eat(Punct::OpenBracket) {
            return Ok(());
        }
        self.parse_attribute_list()
    }

    /// Parses the head of a function.
    fn parse_function_head(&mut self) -> (r: Result<(), ParseError>)
        requires
            old(self).wf(),
        ensures
            match function_head(old(self)@) {
                Ok((_, s)) => r is Ok && final(self)@ == s,
                Err(failure) => r matches Err(e) && e@ == failure,
            },
            final(self).wf(),
            final(self)@.toks == old(self)@.toks,
            final(self)@.pos >= old(self)@.pos,
            r is Ok ==> final(self)@.pos > old(self)@.pos,
    {
        proof {
            reveal(function_head);
            reveal(state_wf);
        }
        self.reset();
        self.expect_keyword("fn")?;
        self.expect(Punct::At)?;
        let name = self.parse_function_name()?;
        self.set_name(name);
        self.expect(Punct::OpenParen)?;
        if !self.eat(Punct::CloseParen) {
            self.parse_params()?;
        }
        self.parse_return_types()?;
        self.parse_function_attributes()?;
        self.expect(Punct::OpenBrace)
    }

    /// Moves to another block.
    fn enter_block(&mut self, block: BlockId)
        requires
            old(self).wf(),
            has_block(old(self)@.b.func, block),
        ensures
            final(self)@ == (State { b: moved(old(self)@.b, block), ..old(self)@ }),
            final(self).wf(),
            follows(final(self)@, old(self)@),
    {
        proof {
            reveal(state_wf);
            reveal(parser_state);
            reveal(moved);
        }
        self.block = block;
        proof {
            assert(self@ =~= (State { b: moved(old(self)@.b, block), ..old(self)@ }));
            lemma_grown(old(self)@, self@);
        }
    }

    /// Parses the blocks of a function and the brace that closes it.
    fn parse_body(&mut self) -> (r: Result<(), ParseError>)
        requires
            old(self).wf(),
        ensures
            match body(old(self)@, false) {
                Ok((_, s)) => r is Ok && final(self)@ == s,
                Err(failure) => r matches Err(e) && e@ == failure,
            },
            final(self).wf(),
            follows(final(self)@, old(self)@),
    {
        let mut started = false;
        loop
            invariant
                self.wf(),
                follows(self@, old(self)@),
                body(self@, started) == body(old(self)@, false),
            decreases left(self@),
        {
            if self.is_eof() {
                return Err(self.plain_error(Problem::UnterminatedBody));
            }
            if self.eat(Punct::CloseBrace) {
                return Ok(());
            }
            if let Some(label) = self.try_parse_block_header() {
                let block = self.define_block(label)?;
                self.enter_block(block);
                started = true;
            } else {
                if !started {
                    return Err(self.plain_error(Problem::OutsideBlock));
                }
                self.parse_instruction_or_terminator()?;
            }
        }
    }

    /// Rejects a function that is not complete.
    fn check_complete(&self) -> (r: Result<(), ParseError>)
        requires
            self.wf(),
        ensures
            match complete(self@) {
                Ok((_, s)) => r is Ok && s == self@,
                Err(failure) => r matches Err(e) && e@ == failure,
            },
    {
        proof {
            reveal(complete);
            reveal(parser_state);
        }
        if self.block_order.len() == 0 {
            return Err(self.plain_error(Problem::NoBlock));
        }
        self.reject_unresolved_block_labels()?;
        self.reject_unresolved_value_labels()
    }

    /// Parses a function.
    pub fn parse_function(&mut self) -> (r: Result<
        (Function, Vec<PendingFunctionRef>),
        ParseError,
    >)
        requires
            old(self).wf(),
        ensures
            match function(old(self)@) {
                Ok((found, s)) => r matches Ok(pair) && pair.0@ == found.0 && pending_views(
                    pair.1@,
                ) == found.1 && final(self)@ == s,
                Err(failure) => r matches Err(e) && e@ == failure,
            },
            final(self).wf(),
            final(self)@.toks == old(self)@.toks,
            final(self)@.pos >= old(self)@.pos,
            r is Ok ==> final(self)@.pos > old(self)@.pos,
            r matches Ok(pair) ==> function_wf(pair.0@),
    {
        proof {
            reveal(function);
        }
        self.parse_function_head()?;
        self.parse_body()?;
        self.check_complete()?;
        Ok(self.finish_function())
    }

    /// Takes the finished function, its blocks in order of their definition,
    /// and the mentions of functions in it.
    fn finish_function(&mut self) -> (r: (Function, Vec<PendingFunctionRef>))
        requires
            old(self).wf(),
            complete(old(self)@) is Ok,
        ensures
            r.0@ == finished(old(self)@).0,
            pending_views(r.1@) == finished(old(self)@).1,
            function_wf(r.0@),
            final(self)@ == cleared(old(self)@),
            final(self).wf(),
    {
        let ghost before = self@;
        proof {
            lemma_complete_order(before);
            reveal(state_wf);
            reveal(parser_state);
        }
        let mut order: Vec<BlockId> = Vec::new();
        core::mem::swap(&mut order, &mut self.block_order);
        let mut refs: Vec<PendingFunctionRef> = Vec::new();
        core::mem::swap(&mut refs, &mut self.function_refs);
        assert(order@ == before.order);
        assert(pending_views(refs@) == before.refs);
        let mut func = self.reset();
        let table = remap_block_order(&mut func, &order);
        let mut i: usize = 0;
        proof {
            assert forall|k: int| 0 <= k < refs@.len() implies #[trigger] refs@[k]@
                == before.refs[k] by {}
        }
        while i < refs.len()
            invariant
                i <= refs@.len(),
                refs@.len() == before.refs.len(),
                refs_fit(before),
                order@ == before.order,
                is_rename_table(table@, before.b.func.blocks.len(), order@),
                selects(before.b.func, order@),
                order@.len() == before.b.func.blocks.len(),
                forall|k: int| i <= k < refs@.len() ==> (#[trigger] refs@[k])@ == before.refs[k],
                forall|k: int|
                    0 <= k < i ==> (#[trigger] refs@[k])@ == moved_ref(before.refs[k], order@),
            decreases refs@.len() - i,
        {
            assert(refs@[i as int]@ == before.refs[i as int]);
            if let FunctionRefTarget::Terminator(block) = refs[i].target {
                proof {
                    assert(has_block(before.b.func, block));
                    crate::mir::utils::lemma_full_order_contains(
                        before.b.func,
                        order@,
                        block,
                    );
                    assert(BlockId(block.0 as int as usize) == block);
                }
                let name = table[block.0];
                refs[i].target = FunctionRefTarget::Terminator(name);
            }
            i = i + 1;
        }
        assert(pending_views(refs@) =~= finished(before).1);
        (func, refs)
    }

    /// Parses the attributes of a module.
    fn parse_module_attributes(&mut self, phases: &Vec<String>) -> (r: Result<
        Option<String>,
        ParseError,
    >)
        requires
            old(self).wf(),
        ensures
            match module_attributes(old(self)@, None, texts(phases@)) {
                Ok((phase, s)) => r matches Ok(found) && name_view(found) == phase && final(self)@
                    == s,
                Err(failure) => r matches Err(e) && e@ == failure,
            },
            final(self).wf(),
            follows(final(self)@, old(self)@),
            final(self)@.b == old(self)@.b,
    {
        let mut phase: Option<String> = None;
        while self.eat(Punct::At)
            invariant
                self.wf(),
                follows(self@, old(self)@),
                self@.b == old(self)@.b,
                module_attributes(self@, name_view(phase), texts(phases@)) == module_attributes(
                    old(self)@,
                    None,
                    texts(phases@),
                ),
            decreases left(self@),
        {
            let key = self.parse_ident()?;
            if !text_is(key.as_str(), "phase") {
                return Err(self.error(Problem::UnknownModuleAttribute, key.clone()));
            }
            let here = self.span();
            let name = self.parse_phase_name()?;
            if !is_listed(&name, phases) {
                return Err(ParseError { problem: Problem::UnknownPhase, text: name, span: here });
            }
            phase = Some(name);
        }
        Ok(phase)
    }

    /// Parses the head of a module.
    fn parse_module_head(&mut self, phases: &Vec<String>) -> (r: Result<
        (String, Option<String>),
        ParseError,
    >)
        requires
            old(self).wf(),
        ensures
            match module_head(old(self)@, texts(phases@)) {
                Ok((head, s)) => r matches Ok(found) && found.0@ == head.0 && name_view(found.1)
                    == head.1 && final(self)@ == s,
                Err(failure) => r matches Err(e) && e@ == failure,
            },
            final(self).wf(),
            follows(final(self)@, old(self)@),
            final(self)@.b == old(self)@.b,
    {
        proof {
            reveal(module_head);
        }
        self.expect(Punct::At)?;
        self.expect_keyword("module")?;
        let name = self.parse_ident()?;
        let phase = self.parse_module_attributes(phases)?;
        Ok((name.clone(), phase))
    }

    /// Parses the functions of a module.
    fn parse_functions(&mut self) -> (r: Result<
        (Vec<Function>, Vec<(usize, PendingFunctionRef)>),
        ParseError,
    >)
        requires
            old(self).wf(),
        ensures
            match functions(old(self)@, Seq::empty(), Seq::empty()) {
                Ok((found, s)) => r matches Ok(pair) && function_views(pair.0@) == found.0
                    && owned_views(pair.1@) == found.1 && final(self)@ == s,
                Err(failure) => r matches Err(e) && e@ == failure,
            },
            final(self).wf(),
            final(self)@.toks == old(self)@.toks,
            final(self)@.pos >= old(self)@.pos,
            r matches Ok(pair) ==> functions_wf(function_views(pair.0@)) && owners_fit(
                pair.1@,
                pair.0@.len(),
            ),
    {
        let mut found: Vec<Function> = Vec::new();
        let mut items: Vec<(usize, PendingFunctionRef)> = Vec::new();
        assert(function_views(found@) =~= Seq::empty());
        assert(owned_views(items@) =~= Seq::empty());
        while !self.is_eof()
            invariant
                self.wf(),
                self@.toks == old(self)@.toks,
                self@.pos >= old(self)@.pos,
                functions_wf(function_views(found@)),
                owners_fit(items@, found@.len()),
                functions(self@, function_views(found@), owned_views(items@)) == functions(
                    old(self)@,
                    Seq::empty(),
                    Seq::empty(),
                ),
            decreases left(self@),
        {
            let ghost before = function_views(found@);
            let ghost items_before = owned_views(items@);
            let (func, refs) = self.parse_function()?;
            let owner: usize = found.len();
            let ghost views = pending_views(refs@);
            push_owned(&mut items, owner, refs);
            found.push(func);
            proof {
                assert(function_views(found@) =~= before.push(func@));
                assert(owned_views(items@) =~= items_before + owned(owner as nat, views));
            }
        }
        Ok((found, items))
    }

    /// Parses a module.
    pub fn parse_module(&mut self, phases: &Vec<String>) -> (r: Result<Module, ParseError>)
        requires
            old(self).wf(),
            old(self)@.abi.len() == 0,
            old(self)@.storage.len() == 0,
        ensures
            match module(old(self)@, texts(phases@)) {
                Ok((found, s)) => r matches Ok(m) && m@ == found,
                Err(failure) => r matches Err(e) && e@ == failure,
            },
            r matches Ok(m) ==> functions_wf(m@.functions),
            r is Err ==> final(self).wf() && final(self)@.toks == old(self)@.toks
                && final(self)@.pos >= old(self)@.pos,
    {
        let (name, phase) = self.parse_module_head(phases)?;
        let (found, items) = self.parse_functions()?;
        let found = resolve_function_refs(found, &items)?;
        let mut module = Module::new(name);
        module.phase = phase;
        module.functions = found;
        proof {
            reveal(parser_state);
        }
        core::mem::swap(&mut module.abi_layouts, &mut self.abi_layouts);
        core::mem::swap(&mut module.aggregate_layouts, &mut self.storage_layouts);
        Ok(module)
    }
}

/// The mathematical values of mentions with their owners.
pub open spec fn owned_views(items: Seq<(usize, PendingFunctionRef)>) -> Seq<(nat, PendingView)> {
    items.map_values(|item: (usize, PendingFunctionRef)| (item.0 as nat, item.1@))
}

/// Whether every mention belongs to one of so many functions.
pub open spec fn owners_fit(items: Seq<(usize, PendingFunctionRef)>, count: nat) -> bool {
    forall|i: int| 0 <= i < items.len() ==> (#[trigger] items[i]).0 < count
}

/// Adds the mentions in one function.
fn push_owned(
    items: &mut Vec<(usize, PendingFunctionRef)>,
    owner: usize,
    refs: Vec<PendingFunctionRef>,
)
    requires
        owners_fit(old(items)@, owner as nat),
    ensures
        owned_views(final(items)@) == owned_views(old(items)@) + owned(
            owner as nat,
            pending_views(refs@),
        ),
        owners_fit(final(items)@, owner as nat + 1),
{
    let ghost all = refs@;
    for item in iter: refs
        invariant
            iter.seq() == all,
            owners_fit(items@, owner as nat + 1),
            owned_views(items@) == owned_views(old(items)@) + owned(
                owner as nat,
                pending_views(all.take(iter.index() as int)),
            ),
    {
        let ghost k = iter.index() as int;
        let ghost before = items@;
        items.push((owner, item));
        proof {
            assert(all.take(k + 1) =~= all.take(k).push(all[k]));
            assert(owned_views(items@) =~= owned_views(before).push((owner as nat, item@)));
            assert(owned(owner as nat, pending_views(all.take(k + 1))) =~= owned(
                owner as nat,
                pending_views(all.take(k)),
            ).push((owner as nat, all[k]@)));
        }
    }
    assert(all.take(all.len() as int) =~= all);
}

/// Whether a name is in a list.
fn is_listed(name: &String, names: &Vec<String>) -> (r: bool)
    ensures
        r == texts(names@).contains(name@),
{
    let mut i: usize = 0;
    while i < names.len()
        invariant
            i <= names@.len(),
            forall|k: int| 0 <= k < i ==> (#[trigger] names@[k])@ != name@,
        decreases names@.len() - i,
    {
        if text_is(names[i].as_str(), name.as_str()) {
            assert(texts(names@)[i as int] == name@);
            return true;
        }
        i = i + 1;
    }
    assert(!texts(names@).contains(name@)) by {
        if texts(names@).contains(name@) {
            let k = choose|k: int| 0 <= k < texts(names@).len() && texts(names@)[k] == name@;
            assert(names@[k]@ == name@);
        }
    }
    false
}

/// The functions that have the name that a mention uses: how many, and the
/// first.
fn find_functions(functions: &Vec<Function>, reference: &FunctionRef) -> (r: (usize, usize))
    ensures
        ({
            let found = candidates(
                function_views(functions@),
                reference@,
                functions@.len(),
            );
            r.0 == found.len() && (r.0 > 0 ==> r.1 == found[0])
        }),
{
    let mut count: usize = 0;
    let mut first: usize = 0;
    let mut i: usize = 0;
    while i < functions.len()
        invariant
            i <= functions@.len(),
            count <= i,
            count == candidates(function_views(functions@), reference@, i as nat).len(),
            count > 0 ==> first == candidates(
                function_views(functions@),
                reference@,
                i as nat,
            )[0],
        decreases functions@.len() - i,
    {
        let name = if reference.displayed {
            let digits = decimal_text(i as u64);
            concat(functions[i].name.as_str(), digits.as_str())
        } else {
            functions[i].name.clone()
        };
        assert(function_views(functions@)[i as int].name == functions@[i as int].name@);
        if text_is(name.as_str(), reference.name.as_str()) {
            if count == 0 {
                first = i;
            }
            count = count + 1;
        }
        i = i + 1;
    }
    (count, first)
}

/// Resolves one mention in a function.
fn set_target(func: &mut Function, target: FunctionRefTarget, callee: FunctionId)
    requires
        function_wf(old(func)@),
    ensures
        final(func)@ == with_target(old(func)@, target, callee),
        function_wf(final(func)@),
        final(func)@.name == old(func)@.name,
{
    let ghost before = func@;
    proof {
        lemma_with_target_wf(before, target, callee);
    }
    match target {
        FunctionRefTarget::Instruction(id) => {
            if id.0 < func.insts.len() {
                if let InstKind::InternalCall { function, .. } = &mut func.insts[id.0].kind {
                    *function = callee;
                }
                assert(func@.insts =~= with_target(before, target, callee).insts);
            }
        },
        FunctionRefTarget::Terminator(block) => {
            if block.0 < func.blocks.len() {
                if let Some(Terminator::TailCall { function, .. }) = &mut func.blocks[block.0].terminator {
                    *function = callee;
                }
                assert(func@.blocks =~= with_target(before, target, callee).blocks);
            }
        },
    }
    assert(func@ =~= with_target(before, target, callee));
}

/// Resolves the mentions of functions in a module.
pub fn resolve_function_refs(
    given: Vec<Function>,
    items: &Vec<(usize, PendingFunctionRef)>,
) -> (r: Result<Vec<Function>, ParseError>)
    requires
        functions_wf(function_views(given@)),
        owners_fit(items@, given@.len()),
    ensures
        match resolved(function_views(given@), owned_views(items@), items@.len()) {
            Ok(done) => r matches Ok(found) && function_views(found@) == done,
            Err(failure) => r matches Err(e) && e@ == failure,
        },
        r matches Ok(found) ==> functions_wf(function_views(found@)),
{
    let ghost start = function_views(given@);
    let ghost all = owned_views(items@);
    let mut functions = given;
    let mut i: usize = 0;
    while i < items.len()
        invariant
            i <= items@.len(),
            all == owned_views(items@),
            start == function_views(given@),
            owners_fit(items@, functions@.len()),
            functions_wf(function_views(functions@)),
            resolved(start, all, i as nat) == Ok::<Seq<FunctionView>, Failure>(
                function_views(functions@),
            ),
        decreases items@.len() - i,
    {
        let ghost before = function_views(functions@);
        let owner: usize = items[i].0;
        let item = &items[i].1;
        assert(all[i as int] == (owner as nat, item@));
        let (count, first) = find_functions(&functions, &item.reference);
        if count == 0 {
            proof {
                lemma_resolved_fails(start, all, i as nat + 1, all.len());
            }
            return Err(
                ParseError {
                    problem: Problem::UnknownFunction,
                    text: item.reference.name.clone(),
                    span: item.reference.span,
                },
            );
        }
        if count > 1 {
            proof {
                lemma_resolved_fails(start, all, i as nat + 1, all.len());
            }
            return Err(
                ParseError {
                    problem: Problem::AmbiguousFunction,
                    text: item.reference.name.clone(),
                    span: item.reference.span,
                },
            );
        }
        assert(function_wf(before[owner as int]));
        set_target(&mut functions[owner], item.target, FunctionId(first));
        proof {
            let after = before.update(
                owner as int,
                with_target(before[owner as int], item.target, FunctionId(first)),
            );
            assert(function_views(functions@) =~= after);
            assert forall|k: int| 0 <= k < after.len() implies function_wf(#[trigger] after[k]) by {
                assert(function_wf(before[k]));
            }
        }
        i = i + 1;
    }
    Ok(functions)
}

/// A rejection of one mention is the rejection of all.
proof fn lemma_resolved_fails(
    functions: Seq<FunctionView>,
    items: Seq<(nat, PendingView)>,
    i: nat,
    count: nat,
)
    requires
        i <= count,
        resolved(functions, items, i) is Err,
    ensures
        resolved(functions, items, count) == resolved(functions, items, i),
    decreases count - i,
{
    if i < count {
        lemma_resolved_fails(functions, items, i, (count - 1) as nat);
    }
}

/// Parses a module. A phase has to be one of `phases`.
pub fn parse(tokens: &Vec<Token>, phases: &Vec<String>) -> (r: Result<Module, ParseError>)
    ensures
        match parsed(tokens@, phases@) {
            Ok(found) => r matches Ok(m) && m@ == found,
            Err(failure) => r matches Err(e) && e@ == failure,
        },
        r matches Ok(m) ==> functions_wf(m@.functions),
{
    let func = Function::new(String::new());
    let ghost blank = func;
    let mut parser = Parser {
        tokens,
        pos: 0,
        pending_gt: 0,
        pending_function_ref: None,
        function_refs: Vec::new(),
        arg_values: Vec::new(),
        block_labels: Vec::new(),
        block_order: Vec::new(),
        value_labels: Vec::new(),
        abi_layouts: Vec::new(),
        storage_layouts: Vec::new(),
        func,
        block: BlockId(0),
    };
    proof {
        reveal(parser_state);
        reveal_strlit("");
        assert(blank@.name =~= Seq::empty());
        assert(parser@ =~= start(tokens@));
        lemma_cleared_wf(parser@, blank);
        assert(cleared(parser@) =~= parser@);
    }
    parser.parse_module(phases)
}

} // verus!
