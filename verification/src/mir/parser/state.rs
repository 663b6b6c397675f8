//! The state of the parser and its smallest steps.

use crate::mir::builder::{
    appended, builder_wf, ended, group_builder_steps, valued, BuilderView, FunctionBuilder,
};
use crate::mir::function::{
    has_block, has_value, has_values, kind_fits, next_inst, next_value, place, term_fits, with_inst,
    Function, FunctionView,
};
use crate::mir::inst::{InstView, Instruction, Terminator};
use crate::mir::parser::token::{
    token_views, Failure, Kind, LitKind, ParseError, Problem, Punct, Token, TokenKind, TokenView,
};
use crate::mir::types::{
    AbiLayoutRef, AbiTypeView, Arg, BlockId, InstId, MirType, Span, StorageLayoutRef,
    StorageLayoutView, Value, ValueId,
};
use crate::text::text_is;
use crate::word::{lemma_word_of, literal_value, word_of, U256};
use vstd::prelude::*;

verus! {

/// What is known about a block label.
#[derive(Clone, Copy, Debug, PartialEq, Eq, Structural)]
pub struct BlockLabel {
    /// The block it names.
    pub id: BlockId,
    /// Whether the block has been defined.
    pub defined: bool,
    /// Where it was first mentioned, if that was before its definition.
    pub reference_span: Option<Span>,
}

/// A mention of a function by name.
#[derive(Debug)]
pub struct FunctionRef {
    /// Whether the name has the function's position appended.
    pub displayed: bool,
    /// The name.
    pub name: String,
    /// Where it was mentioned.
    pub span: Span,
}

/// The mathematical value of a [`FunctionRef`].
#[verifier::ext_equal]
pub struct RefView {
    /// Whether the name has the function's position appended.
    pub displayed: bool,
    /// The name.
    pub name: Seq<char>,
    /// Where it was mentioned.
    pub span: Span,
}

impl View for FunctionRef {
    type V = RefView;

    open spec fn view(&self) -> RefView {
        RefView { displayed: self.displayed, name: self.name@, span: self.span }
    }
}

/// What a mention of a function is part of.
#[derive(Clone, Copy, Debug, PartialEq, Eq, Structural)]
pub enum FunctionRefTarget {
    /// A call instruction.
    Instruction(InstId),
    /// The terminator of a block.
    Terminator(BlockId),
}

/// A mention of a function that still has to be resolved.
#[derive(Debug)]
pub struct PendingFunctionRef {
    /// The mention.
    pub reference: FunctionRef,
    /// What it is part of.
    pub target: FunctionRefTarget,
}

/// The mathematical value of a [`PendingFunctionRef`].
#[verifier::ext_equal]
pub struct PendingView {
    /// The mention.
    pub reference: RefView,
    /// What it is part of.
    pub target: FunctionRefTarget,
}

impl View for PendingFunctionRef {
    type V = PendingView;

    open spec fn view(&self) -> PendingView {
        PendingView { reference: self.reference@, target: self.target }
    }
}

/// The mathematical values of pending references.
pub open spec fn pending_views(refs: Seq<PendingFunctionRef>) -> Seq<PendingView> {
    refs.map_values(|item: PendingFunctionRef| item@)
}

/// The mathematical values of ABI layouts.
pub open spec fn abi_views(layouts: Seq<AbiLayoutRef>) -> Seq<Seq<AbiTypeView>> {
    layouts.map_values(|layout: AbiLayoutRef| layout@)
}

/// The mathematical values of storage layouts.
pub open spec fn storage_views(layouts: Seq<StorageLayoutRef>) -> Seq<StorageLayoutView> {
    layouts.map_values(|layout: StorageLayoutRef| layout@)
}

/// A parser of the textual format.
pub struct Parser<'a> {
    /// The text.
    pub tokens: &'a Vec<Token>,
    /// How much of it has been read.
    pub pos: usize,
    /// Number of `>` closers still owed after splitting a `>>` or `>>>`.
    pub pending_gt: u32,
    /// The mention of a function that has just been read.
    pub pending_function_ref: Option<FunctionRef>,
    /// The mentions of functions in the current function.
    pub function_refs: Vec<PendingFunctionRef>,
    /// The values of the arguments.
    pub arg_values: Vec<ValueId>,
    /// The block labels, in order of their first mention.
    pub block_labels: Vec<(u32, BlockLabel)>,
    /// The defined blocks, in order of their definition.
    pub block_order: Vec<BlockId>,
    /// The value labels, in order of their first mention.
    pub value_labels: Vec<(u32, ValueId)>,
    /// ABI layouts, each once.
    pub abi_layouts: Vec<AbiLayoutRef>,
    /// Aggregate storage layouts, each once.
    pub storage_layouts: Vec<StorageLayoutRef>,
    /// The current function.
    pub func: Function,
    /// The current block.
    pub block: BlockId,
}

/// The mathematical value of a [`Parser`].
#[verifier::ext_equal]
pub struct State {
    /// The text.
    pub toks: Seq<TokenView>,
    /// How much of it has been read.
    pub pos: nat,
    /// Number of `>` closers still owed.
    pub gt: nat,
    /// The mention of a function that has just been read.
    pub pending: Option<RefView>,
    /// The mentions of functions in the current function.
    pub refs: Seq<PendingView>,
    /// The values of the arguments.
    pub args: Seq<ValueId>,
    /// The block labels.
    pub labels: Seq<(u32, BlockLabel)>,
    /// The defined blocks.
    pub order: Seq<BlockId>,
    /// The value labels.
    pub values: Seq<(u32, ValueId)>,
    /// ABI layouts.
    pub abi: Seq<Seq<AbiTypeView>>,
    /// Storage layouts.
    pub storage: Seq<StorageLayoutView>,
    /// The current function and block.
    pub b: BuilderView,
}

/// The mathematical value of an optional mention.
pub open spec fn ref_view(reference: Option<FunctionRef>) -> Option<RefView> {
    match reference {
        Some(reference) => Some(reference@),
        None => None,
    }
}

impl<'a> View for Parser<'a> {
    type V = State;

    open spec fn view(&self) -> State {
        parser_state(*self)
    }
}

/// The mathematical value of a [`Parser`].
#[verifier::opaque]
pub open spec fn parser_state(parser: Parser) -> State {
    State {
        toks: token_views(parser.tokens@),
        pos: parser.pos as nat,
        gt: parser.pending_gt as nat,
        pending: ref_view(parser.pending_function_ref),
        refs: pending_views(parser.function_refs@),
        args: parser.arg_values@,
        labels: parser.block_labels@,
        order: parser.block_order@,
        values: parser.value_labels@,
        abi: abi_views(parser.abi_layouts@),
        storage: storage_views(parser.storage_layouts@),
        b: BuilderView { func: parser.func@, block: parser.block },
    }
}

/// Whether the labels name the blocks in order, and the blocks that are
/// defined are listed once.
pub open spec fn labels_wf(s: State) -> bool {
    &&& forall|i: int| 0 <= i < s.labels.len() ==> (#[trigger] s.labels[i]).1.id.0 == i
    &&& s.labels.len() == 0 ==> s.b.func.blocks.len() == 1
    &&& s.labels.len() > 0 ==> s.labels.len() == s.b.func.blocks.len()
    &&& s.order.no_duplicates()
    &&& forall|block: BlockId| #[trigger]
        s.order.contains(block) <==> block.0 < s.labels.len()
            && s.labels[block.0 as int].1.defined
}

/// Whether the mentions of functions are in blocks of the function.
pub open spec fn refs_fit(s: State) -> bool {
    forall|i: int|
        0 <= i < s.refs.len() ==> ((#[trigger] s.refs[i]).target matches FunctionRefTarget::Terminator(
            block,
        ) ==> has_block(s.b.func, block))
}

/// Whether every layout is recorded once.
pub open spec fn layouts_distinct(s: State) -> bool {
    s.abi.no_duplicates() && s.storage.no_duplicates()
}

/// The type of an argument: that of the parameter, or of a word where the
/// function declares no parameters.
pub open spec fn arg_type(func: FunctionView, index: int) -> MirType {
    if func.params.len() > 0 {
        func.params[index]
    } else {
        MirType::uint256()
    }
}

/// Whether the recorded arguments are those of the function, in order: where it
/// declares parameters there is one for each.
pub open spec fn args_fit(s: State) -> bool {
    &&& has_values(s.b.func, s.args)
    &&& s.b.func.params.len() > 0 ==> s.args.len() == s.b.func.params.len()
    &&& forall|i: int|
        0 <= i < s.args.len() ==> s.b.func.values[(#[trigger] s.args[i]).0 as int] == Value::Arg(
            Arg { index: i as usize, ty: arg_type(s.b.func, i) },
        )
}

/// Arguments stay those of the function while no argument changes.
pub proof fn lemma_args_fit(before: State, after: State)
    requires
        args_fit(before),
        after.args == before.args,
        after.b.func.params == before.b.func.params,
        after.b.func.values.len() >= before.b.func.values.len(),
        forall|i: int|
            0 <= i < before.b.func.values.len() && before.b.func.values[i] is Arg
                ==> #[trigger] after.b.func.values[i] == before.b.func.values[i],
    ensures
        args_fit(after),
{
    assert forall|i: int| 0 <= i < after.args.len() implies has_value(
        after.b.func,
        #[trigger] after.args[i],
    ) && after.b.func.values[after.args[i].0 as int]
        == before.b.func.values[before.args[i].0 as int] by {
        assert(has_value(before.b.func, before.args[i]));
    }
}

/// Whether the function under construction is well-formed, the labels name
/// values and blocks of it, the recorded arguments are its arguments, and every
/// layout is recorded once.
#[verifier::opaque]
pub open spec fn state_wf(s: State) -> bool {
    &&& s.pos <= s.toks.len()
    &&& builder_wf(s.b)
    &&& args_fit(s)
    &&& forall|i: int| 0 <= i < s.values.len() ==> has_value(s.b.func, (#[trigger] s.values[i]).1)
    &&& labels_wf(s)
    &&& refs_fit(s)
    &&& layouts_distinct(s)
}

/// Whether every argument that was recorded still is, in its place.
#[verifier::opaque]
pub open spec fn args_kept(after: Seq<ValueId>, before: Seq<ValueId>) -> bool {
    &&& before.len() <= after.len()
    &&& forall|i: int| 0 <= i < before.len() ==> #[trigger] after[i] == before[i]
}

/// Arguments that did not change are kept.
pub broadcast proof fn lemma_same_args_are_kept(args: Seq<ValueId>)
    ensures
        #[trigger] args_kept(args, args),
{
    reveal(args_kept);
}

/// Arguments that are kept twice are kept.
pub broadcast proof fn lemma_args_kept_twice(
    last: Seq<ValueId>,
    middle: Seq<ValueId>,
    first: Seq<ValueId>,
)
    requires
        #[trigger] args_kept(last, middle),
        #[trigger] args_kept(middle, first),
    ensures
        args_kept(last, first),
{
    reveal(args_kept);
    assert forall|i: int| 0 <= i < first.len() implies #[trigger] last[i] == first[i] by {
        assert(middle[i] == first[i]);
    }
}

/// Whether a state comes after another: the text has been read further, the
/// function has grown, and its arguments are kept.
pub open spec fn follows(after: State, before: State) -> bool {
    &&& after.toks == before.toks
    &&& args_kept(after.args, before.args)
    &&& after.pos >= before.pos
    &&& after.b.func.values.len() >= before.b.func.values.len()
    &&& after.b.func.insts.len() >= before.b.func.insts.len()
    &&& after.b.func.blocks.len() >= before.b.func.blocks.len()
}

/// Whether a function only has more values and blocks than before: no instruction
/// was added, and every value and block that was there is as it was.
#[verifier::opaque]
pub open spec fn kept(after: BuilderView, before: BuilderView) -> bool {
    &&& after.block == before.block
    &&& after.func.insts == before.func.insts
    &&& before.func.values.len() <= after.func.values.len()
    &&& before.func.blocks.len() <= after.func.blocks.len()
    &&& forall|i: int|
        0 <= i < before.func.values.len() ==> #[trigger] after.func.values[i]
            == before.func.values[i]
    &&& forall|i: int|
        0 <= i < before.func.blocks.len() ==> #[trigger] after.func.blocks[i]
            == before.func.blocks[i]
}

/// A function with the same values, instructions and blocks is kept.
pub broadcast proof fn lemma_same_body_is_kept(after: BuilderView, before: BuilderView)
    requires
        after.block == before.block,
        after.func.values == before.func.values,
        after.func.insts == before.func.insts,
        after.func.blocks == before.func.blocks,
    ensures
        #[trigger] kept(after, before),
{
    reveal(kept);
}

/// What is kept twice is kept.
pub broadcast proof fn lemma_kept_twice(last: BuilderView, middle: BuilderView, first: BuilderView)
    requires
        #[trigger] kept(last, middle),
        #[trigger] kept(middle, first),
    ensures
        kept(last, first),
{
    reveal(kept);
    assert forall|i: int| 0 <= i < first.func.values.len() implies #[trigger] last.func.values[i]
        == first.func.values[i] by {
        assert(middle.func.values[i] == first.func.values[i]);
    }
    assert forall|i: int| 0 <= i < first.func.blocks.len() implies #[trigger] last.func.blocks[i]
        == first.func.blocks[i] by {
        assert(middle.func.blocks[i] == first.func.blocks[i]);
    }
}

pub broadcast group group_kept {
    lemma_same_body_is_kept,
    lemma_kept_twice,
    lemma_same_args_are_kept,
    lemma_args_kept_twice,
}

/// The token that is next.
pub open spec fn kind(s: State) -> Kind {
    kind_at(s, 0)
}

/// The token so many places ahead.
pub open spec fn kind_at(s: State, ahead: nat) -> Kind {
    if s.pos + ahead < s.toks.len() {
        s.toks[(s.pos + ahead) as int].kind
    } else {
        Kind::Eof
    }
}

/// The place of the next token, or of the last one at the end of the text.
pub open spec fn span(s: State) -> Span {
    if s.pos < s.toks.len() {
        s.toks[s.pos as int].span
    } else if s.toks.len() > 0 {
        s.toks.last().span
    } else {
        Span { lo: 0, hi: 0 }
    }
}

/// The state after the next token.
pub open spec fn bump(s: State) -> State {
    State { pos: if s.pos < s.toks.len() { s.pos + 1 } else { s.pos }, ..s }
}

/// A rejection at the next token.
pub open spec fn fail<T>(s: State, problem: Problem, text: Seq<char>) -> Result<
    (T, State),
    Failure,
> {
    Err(Failure { problem, text, span: span(s) })
}

/// Whether the next token is a mark.
pub open spec fn at(s: State, mark: Punct) -> bool {
    kind(s) == Kind::Punct(mark)
}

/// The state after a mark, if it is next.
pub open spec fn eat(s: State, mark: Punct) -> State {
    if at(s, mark) {
        bump(s)
    } else {
        s
    }
}

/// Reads a mark.
pub open spec fn expect(s: State, mark: Punct) -> Result<((), State), Failure> {
    if at(s, mark) {
        Ok(((), bump(s)))
    } else {
        fail(s, Problem::Expected(mark), Seq::empty())
    }
}

/// Reads a name.
pub open spec fn ident(s: State) -> Result<(Seq<char>, State), Failure> {
    match kind(s) {
        Kind::Ident(name) => Ok((name, bump(s))),
        _ => fail(s, Problem::ExpectedIdent, Seq::empty()),
    }
}

/// Reads a given word.
pub open spec fn keyword(s: State, word: Seq<char>) -> Result<((), State), Failure> {
    if kind(s) == Kind::Ident(word) {
        Ok(((), bump(s)))
    } else {
        fail(s, Problem::ExpectedKeyword, word)
    }
}

/// Reads a whole number.
pub open spec fn uint(s: State) -> Result<(U256, State), Failure> {
    match kind(s) {
        Kind::Literal(LitKind::Integer, text) => match literal_value(text) {
            Some(value) => Ok((word_of(value), bump(s))),
            None => fail(s, Problem::InvalidInteger, text),
        },
        _ => fail(s, Problem::ExpectedInteger, Seq::empty()),
    }
}

/// A number that has to be at most `max`.
pub open spec fn at_most(s: State, value: U256, max: nat, problem: Problem) -> Result<
    (nat, State),
    Failure,
> {
    if value@ <= max {
        Ok((value@, s))
    } else {
        fail(s, problem, Seq::empty())
    }
}

/// Reads one closing `>`, splitting `>>` and `>>>` so that nested `<...>`
/// arguments close correctly.
pub open spec fn eat_gt(s: State) -> Option<State> {
    if s.gt > 0 {
        Some(State { gt: (s.gt - 1) as nat, ..s })
    } else if at(s, Punct::Gt) {
        Some(bump(s))
    } else if at(s, Punct::Shr) {
        Some(State { gt: 1, ..bump(s) })
    } else if at(s, Punct::Sar) {
        Some(State { gt: 2, ..bump(s) })
    } else {
        None
    }
}

/// Reads one closing `>`.
pub open spec fn expect_gt(s: State) -> Result<((), State), Failure> {
    match eat_gt(s) {
        Some(s) => Ok(((), s)),
        None => fail(s, Problem::Expected(Punct::Gt), Seq::empty()),
    }
}

/// Where a label is among the labels.
pub open spec fn find<T>(labels: Seq<(u32, T)>, label: u32) -> Option<int>
    decreases labels.len(),
{
    if labels.len() == 0 {
        None
    } else {
        match find(labels.drop_last(), label) {
            Some(i) => Some(i),
            None => if labels.last().0 == label {
                Some(labels.len() - 1)
            } else {
                None
            },
        }
    }
}

/// A label that is found is there, and one that is not found is not.
pub proof fn lemma_find<T>(labels: Seq<(u32, T)>, label: u32)
    ensures
        match find(labels, label) {
            Some(i) => 0 <= i < labels.len() && labels[i].0 == label,
            None => forall|i: int| 0 <= i < labels.len() ==> (#[trigger] labels[i]).0 != label,
        },
    decreases labels.len(),
{
    if labels.len() > 0 {
        lemma_find(labels.drop_last(), label);
        if find(labels, label) is None {
            assert forall|i: int| 0 <= i < labels.len() implies (#[trigger] labels[i]).0
                != label by {
                if i < labels.len() - 1 {
                    assert(labels.drop_last()[i] == labels[i]);
                }
            }
        }
    }
}

/// Looks a label up.
pub fn find_label<T>(labels: &Vec<(u32, T)>, label: u32) -> (r: Option<usize>)
    ensures
        match find(labels@, label) {
            Some(i) => r matches Some(k) && k == i && i < labels@.len() && labels@[i].0 == label,
            None => r is None,
        },
{
    let mut i: usize = 0;
    while i < labels.len()
        invariant
            i <= labels@.len(),
            find(labels@.take(i as int), label) is None,
        decreases labels@.len() - i,
    {
        proof {
            assert(labels@.take(i + 1).drop_last() =~= labels@.take(i as int));
        }
        if labels[i].0 == label {
            proof {
                lemma_find_prefix(labels@, label, i + 1);
            }
            return Some(i);
        }
        i = i + 1;
    }
    assert(labels@.take(i as int) =~= labels@);
    None
}

/// A label found in a prefix is found there in the whole.
proof fn lemma_find_prefix<T>(labels: Seq<(u32, T)>, label: u32, count: int)
    requires
        0 <= count <= labels.len(),
        find(labels.take(count), label) is Some,
    ensures
        find(labels, label) == find(labels.take(count), label),
    decreases labels.len(),
{
    if count < labels.len() {
        assert(labels.drop_last().take(count) =~= labels.take(count));
        lemma_find_prefix(labels.drop_last(), label, count);
    } else {
        assert(labels.take(count) =~= labels);
    }
}

/// A state stays well-formed while the function under it only grows in values
/// and instructions.
pub proof fn lemma_grown(before: State, after: State)
    requires
        state_wf(before),
        after.b == before.b || builder_wf(after.b) && args_fit(after),
        after == (State { b: after.b, pos: after.pos, gt: after.gt, pending: after.pending,
            refs: after.refs, abi: after.abi, storage: after.storage, ..before }),
        after.refs == before.refs || refs_fit(after),
        after.abi == before.abi || after.abi.no_duplicates(),
        after.storage == before.storage || after.storage.no_duplicates(),
        before.pos <= after.pos <= before.toks.len(),
        after.b.func.values.len() >= before.b.func.values.len(),
        after.b.func.insts.len() >= before.b.func.insts.len(),
        after.b.func.blocks.len() == before.b.func.blocks.len(),
    ensures
        state_wf(after),
        follows(after, before),
{
    reveal(state_wf);
    broadcast use group_kept;

}

impl<'a> Parser<'a> {
    /// Whether the function under construction is well-formed, the labels name
    /// values and blocks of it, and every layout is recorded once.
    pub open spec fn wf(&self) -> bool {
        self@.pos <= self@.toks.len() && state_wf(self@)
    }

    /// Where the next token is.
    pub fn span(&self) -> (r: Span)
        requires
            self.wf(),
        ensures
            r == span(self@),
    {
        proof {
            reveal(state_wf);
            reveal(parser_state);
        }
        if self.pos < self.tokens.len() {
            self.tokens[self.pos].span
        } else if self.tokens.len() > 0 {
            self.tokens[self.tokens.len() - 1].span
        } else {
            Span { lo: 0, hi: 0 }
        }
    }

    /// A rejection at the next token.
    pub fn error(&self, problem: Problem, text: String) -> (r: ParseError)
        requires
            self.wf(),
        ensures
            r@ == (Failure { problem, text: text@, span: span(self@) }),
    {
        ParseError { problem, text, span: self.span() }
    }

    /// A rejection at the next token that is about no name.
    pub fn plain_error(&self, problem: Problem) -> (r: ParseError)
        requires
            self.wf(),
        ensures
            r@ == (Failure { problem, text: Seq::empty(), span: span(self@) }),
    {
        self.error(problem, String::new())
    }

    /// Whether the text has been read to the end.
    pub fn is_eof(&self) -> (r: bool)
        requires
            self.wf(),
        ensures
            r == (kind(self@) is Eof),
            r == (self@.pos == self@.toks.len()),
    {
        proof {
            reveal(state_wf);
            reveal(parser_state);
        }
        proof {
            if self.pos < self.tokens@.len() {
                assert(self@.toks[self.pos as int] == self.tokens@[self.pos as int]@);
            }
        }
        self.pos >= self.tokens.len()
    }

    /// Whether the token so many places ahead is a mark.
    pub fn at_ahead(&self, ahead: usize, mark: Punct) -> (r: bool)
        requires
            self.wf(),
        ensures
            r == (kind_at(self@, ahead as nat) == Kind::Punct(mark)),
    {
        proof {
            reveal(state_wf);
            reveal(parser_state);
        }
        if ahead >= self.tokens.len() - self.pos {
            return false;
        }
        let i: usize = self.pos + ahead;
        assert(self@.toks[i as int] == self.tokens@[i as int]@);
        match &self.tokens[i].kind {
            TokenKind::Punct(found) => *found == mark,
            _ => false,
        }
    }

    /// Whether the next token is a mark.
    pub fn at(&self, mark: Punct) -> (r: bool)
        requires
            self.wf(),
        ensures
            r == at(self@, mark),
            r ==> self@.pos < self@.toks.len(),
    {
        self.at_ahead(0, mark)
    }

    /// Passes over the next token.
    pub fn bump(&mut self)
        requires
            old(self).wf(),
        ensures
            final(self)@ == bump(old(self)@),
            final(self).wf(),
            follows(final(self)@, old(self)@),
    {
        proof {
            reveal(state_wf);
            reveal(parser_state);
        }
        if self.pos < self.tokens.len() {
            self.pos = self.pos + 1;
        }
        proof {
            assert(self@ =~= bump(old(self)@));
            lemma_grown(old(self)@, self@);
        }
    }

    /// Reads a mark if it is next.
    pub fn eat(&mut self, mark: Punct) -> (r: bool)
        requires
            old(self).wf(),
        ensures
            r == at(old(self)@, mark),
            final(self)@ == eat(old(self)@, mark),
            final(self).wf(),
            follows(final(self)@, old(self)@),
            r ==> final(self)@.pos == old(self)@.pos + 1,
    {
        broadcast use group_kept;

        if self.at(mark) {
            self.bump();
            true
        } else {
            false
        }
    }

    /// Reads a mark.
    pub fn expect(&mut self, mark: Punct) -> (r: Result<(), ParseError>)
        requires
            old(self).wf(),
        ensures
            match expect(old(self)@, mark) {
                Ok((_, s)) => r is Ok && final(self)@ == s && final(self)@.pos == old(self)@.pos
                    + 1,
                Err(failure) => r matches Err(e) && e@ == failure,
            },
            final(self).wf(),
            follows(final(self)@, old(self)@),
            final(self)@.b == old(self)@.b,
    {
        if self.eat(mark) {
            Ok(())
        } else {
            Err(self.plain_error(Problem::Expected(mark)))
        }
    }

    /// The next token, where it is a name.
    pub fn peek_ident(&self) -> (r: Option<&'a String>)
        requires
            self.wf(),
        ensures
            match kind(self@) {
                Kind::Ident(name) => r matches Some(found) && found@ == name && self@.pos
                    < self@.toks.len(),
                _ => r is None,
            },
    {
        proof {
            reveal(state_wf);
            reveal(parser_state);
        }
        let tokens: &'a Vec<Token> = self.tokens;
        if self.pos >= tokens.len() {
            return None;
        }
        assert(self@.toks[self.pos as int] == self.tokens@[self.pos as int]@);
        match &tokens[self.pos].kind {
            TokenKind::Ident(name) => Some(name),
            _ => None,
        }
    }

    /// The next token, where it is a literal.
    pub fn peek_literal(&self) -> (r: Option<(LitKind, &'a String)>)
        requires
            self.wf(),
        ensures
            match kind(self@) {
                Kind::Literal(lit, text) => r matches Some(found) && found.0 == lit && found.1@
                    == text && self@.pos < self@.toks.len(),
                _ => r is None,
            },
    {
        proof {
            reveal(state_wf);
            reveal(parser_state);
        }
        let tokens: &'a Vec<Token> = self.tokens;
        if self.pos >= tokens.len() {
            return None;
        }
        assert(self@.toks[self.pos as int] == self.tokens@[self.pos as int]@);
        match &tokens[self.pos].kind {
            TokenKind::Literal(kind, text) => Some((*kind, text)),
            _ => None,
        }
    }

    /// Reads a name.
    pub fn parse_ident(&mut self) -> (r: Result<&'a String, ParseError>)
        requires
            old(self).wf(),
        ensures
            match ident(old(self)@) {
                Ok((name, s)) => r matches Ok(found) && found@ == name && final(self)@ == s
                    && final(self)@.pos == old(self)@.pos + 1,
                Err(failure) => r matches Err(e) && e@ == failure,
            },
            final(self).wf(),
            follows(final(self)@, old(self)@),
            final(self)@.b == old(self)@.b,
            final(self)@.args == old(self)@.args,
    {
        broadcast use group_kept;

        match self.peek_ident() {
            Some(name) => {
                self.bump();
                Ok(name)
            },
            None => Err(self.plain_error(Problem::ExpectedIdent)),
        }
    }

    /// Reads a given word if it is next.
    pub fn eat_keyword(&mut self, word: &str) -> (r: bool)
        requires
            old(self).wf(),
        ensures
            r == (kind(old(self)@) == Kind::Ident(word@)),
            final(self)@ == if r {
                bump(old(self)@)
            } else {
                old(self)@
            },
            final(self).wf(),
            follows(final(self)@, old(self)@),
            r ==> final(self)@.pos == old(self)@.pos + 1,
    {
        broadcast use group_kept;

        match self.peek_ident() {
            Some(name) => {
                if text_is(name.as_str(), word) {
                    self.bump();
                    true
                } else {
                    false
                }
            },
            None => false,
        }
    }

    /// Reads a given word.
    pub fn expect_keyword(&mut self, word: &str) -> (r: Result<(), ParseError>)
        requires
            old(self).wf(),
        ensures
            match keyword(old(self)@, word@) {
                Ok((_, s)) => r is Ok && final(self)@ == s && final(self)@.pos == old(self)@.pos
                    + 1,
                Err(failure) => r matches Err(e) && e@ == failure,
            },
            final(self).wf(),
            follows(final(self)@, old(self)@),
            final(self)@.b == old(self)@.b,
    {
        if self.eat_keyword(word) {
            Ok(())
        } else {
            Err(self.error(Problem::ExpectedKeyword, word.to_owned()))
        }
    }

    /// Reads a whole number.
    pub fn parse_uint(&mut self) -> (r: Result<U256, ParseError>)
        requires
            old(self).wf(),
        ensures
            match uint(old(self)@) {
                Ok((value, s)) => r == Ok::<U256, ParseError>(value) && final(self)@ == s
                    && final(self)@.pos == old(self)@.pos + 1,
                Err(failure) => r matches Err(e) && e@ == failure,
            },
            final(self).wf(),
            follows(final(self)@, old(self)@),
            final(self)@.b == old(self)@.b,
    {
        broadcast use group_kept;

        match self.peek_literal() {
            Some((LitKind::Integer, text)) => match U256::from_literal(text.as_str()) {
                Some(value) => {
                    proof {
                        lemma_word_of(value);
                    }
                    self.bump();
                    Ok(value)
                },
                None => Err(self.error(Problem::InvalidInteger, text.clone())),
            },
            _ => Err(self.plain_error(Problem::ExpectedInteger)),
        }
    }

    /// A number that has to be at most `max`.
    pub fn at_most(&self, value: U256, max: u64, problem: Problem) -> (r: Result<u64, ParseError>)
        requires
            self.wf(),
        ensures
            match at_most(self@, value, max as nat, problem) {
                Ok((small, s)) => r == Ok::<u64, ParseError>(small as u64) && small <= max && s
                    == self@,
                Err(failure) => r matches Err(e) && e@ == failure,
            },
    {
        match value.to_u64() {
            Some(small) => {
                if small <= max {
                    Ok(small)
                } else {
                    Err(self.plain_error(problem))
                }
            },
            None => Err(self.plain_error(problem)),
        }
    }

    /// Consumes one `>` closer, splitting `>>`/`>>>` shift tokens so nested
    /// `<...>` layout arguments close correctly.
    pub fn eat_gt(&mut self) -> (r: bool)
        requires
            old(self).wf(),
        ensures
            match eat_gt(old(self)@) {
                Some(s) => r && final(self)@ == s,
                None => !r && final(self)@ == old(self)@,
            },
            final(self).wf(),
            follows(final(self)@, old(self)@),
    {
        proof {
            reveal(state_wf);
            reveal(parser_state);
        }
        if self.pending_gt > 0 {
            self.pending_gt = self.pending_gt - 1;
            proof {
                assert(self@ =~= eat_gt(old(self)@)->0);
                lemma_grown(old(self)@, self@);
            }
            return true;
        }
        if self.eat(Punct::Gt) {
            return true;
        }
        if self.eat(Punct::Shr) {
            self.pending_gt = 1;
            proof {
                assert(self@ =~= eat_gt(old(self)@)->0);
                lemma_grown(old(self)@, self@);
            }
            return true;
        }
        if self.eat(Punct::Sar) {
            self.pending_gt = 2;
            proof {
                assert(self@ =~= eat_gt(old(self)@)->0);
                lemma_grown(old(self)@, self@);
            }
            return true;
        }
        false
    }

    /// Consumes one `>` closer.
    pub fn expect_gt(&mut self) -> (r: Result<(), ParseError>)
        requires
            old(self).wf(),
        ensures
            match expect_gt(old(self)@) {
                Ok((_, s)) => r is Ok && final(self)@ == s,
                Err(failure) => r matches Err(e) && e@ == failure,
            },
            final(self).wf(),
            follows(final(self)@, old(self)@),
            final(self)@.b == old(self)@.b,
    {
        if self.eat_gt() {
            Ok(())
        } else {
            Err(self.plain_error(Problem::Expected(Punct::Gt)))
        }
    }

    /// Adds a value to the function.
    pub fn add_value(&mut self, value: Value) -> (r: ValueId)
        requires
            old(self).wf(),
            !(value is Inst),
        ensures
            final(self)@ == (State { b: valued(old(self)@.b, value), ..old(self)@ }),
            r == next_value(old(self)@.b.func),
            has_value(final(self)@.b.func, r),
            final(self).wf(),
            follows(final(self)@, old(self)@),
            kept(final(self)@.b, old(self)@.b),
    {
        proof {
            reveal(state_wf);
            reveal(parser_state);
        }
        broadcast use group_builder_steps;

        let mut builder = FunctionBuilder { func: &mut self.func, current_block: self.block };
        let r = builder.alloc_value(value);
        proof {
            assert(self@ =~= (State { b: valued(old(self)@.b, value), ..old(self)@ }));
            reveal(valued);
            lemma_args_fit(old(self)@, self@);
            lemma_grown(old(self)@, self@);
            reveal(kept);
        }
        r
    }

    /// The current block.
    pub fn current_block(&self) -> (r: BlockId)
        ensures
            r == self@.b.block,
    {
        proof {
            reveal(parser_state);
        }
        self.block
    }

    /// Ends the current block.
    pub fn end_block(&mut self, term: Terminator)
        requires
            old(self).wf(),
            term_fits(old(self)@.b.func, term@),
        ensures
            final(self)@ == (State { b: ended(old(self)@.b, term@), ..old(self)@ }),
            final(self).wf(),
            follows(final(self)@, old(self)@),
    {
        proof {
            reveal(state_wf);
            reveal(parser_state);
        }
        broadcast use group_builder_steps;

        let mut builder = FunctionBuilder { func: &mut self.func, current_block: self.block };
        builder.set_terminator(term);
        proof {
            assert(self@ =~= (State { b: ended(old(self)@.b, term@), ..old(self)@ }));
            assert(args_fit(self@)) by {
                reveal(ended);
                lemma_args_fit(old(self)@, self@);
            }
            lemma_grown(old(self)@, self@);
        }
    }

    /// Appends an instruction to the current block.
    pub fn append(&mut self, inst: Instruction) -> (r: (InstId, Option<ValueId>))
        requires
            old(self).wf(),
            kind_fits(old(self)@.b.func, inst.kind@),
        ensures
            final(self)@ == (State {
                b: BuilderView {
                    func: appended(old(self)@.b.func, old(self)@.b.block, inst@),
                    block: old(self)@.b.block,
                },
                ..old(self)@
            }),
            r.0 == next_inst(old(self)@.b.func),
            r.1 == if inst.result_ty is Some {
                Some(next_value(old(self)@.b.func))
            } else {
                None
            },
            r.1 matches Some(value) ==> has_value(final(self)@.b.func, value),
            final(self).wf(),
            follows(final(self)@, old(self)@),
    {
        proof {
            reveal(state_wf);
            reveal(parser_state);
        }
        let mut builder = FunctionBuilder { func: &mut self.func, current_block: self.block };
        let r = builder.append_instruction(inst);
        proof {
            let after = appended(old(self)@.b.func, old(self)@.b.block, inst@);
            assert(self@ =~= (State {
                b: BuilderView { func: after, block: old(self)@.b.block },
                ..old(self)@
            }));
            assert(after.blocks.len() == old(self)@.b.func.blocks.len());
            lemma_args_fit(old(self)@, self@);
            lemma_grown(old(self)@, self@);
        }
        r
    }

    /// Appends an instruction whose result is a value mentioned before.
    pub fn append_for(&mut self, inst: Instruction, result: ValueId) -> (r: InstId)
        requires
            old(self).wf(),
            kind_fits(old(self)@.b.func, inst.kind@),
            has_value(old(self)@.b.func, result),
            old(self)@.b.func.values[result.0 as int] is Undef,
        ensures
            final(self)@ == (State {
                b: BuilderView {
                    func: defining(old(self)@.b.func, old(self)@.b.block, inst@, result),
                    block: old(self)@.b.block,
                },
                ..old(self)@
            }),
            r == next_inst(old(self)@.b.func),
            final(self).wf(),
            follows(final(self)@, old(self)@),
    {
        proof {
            reveal(state_wf);
            reveal(parser_state);
        }
        let mut builder = FunctionBuilder { func: &mut self.func, current_block: self.block };
        let r = builder.append_instruction_with_result(inst, result);
        proof {
            let after = defining(old(self)@.b.func, old(self)@.b.block, inst@, result);
            assert(self@ =~= (State {
                b: BuilderView { func: after, block: old(self)@.b.block },
                ..old(self)@
            }));
            assert(after.blocks.len() == old(self)@.b.func.blocks.len());
            lemma_args_fit(old(self)@, self@);
            lemma_grown(old(self)@, self@);
        }
        r
    }
}

/// The function with `inst` appended to `block`, its result being a value
/// mentioned before.
pub open spec fn defining(
    func: FunctionView,
    block: BlockId,
    inst: InstView,
    result: ValueId,
) -> FunctionView {
    place(
        FunctionView {
            values: func.values.update(result.0 as int, Value::Inst(next_inst(func))),
            ..with_inst(func, inst)
        },
        block,
        next_inst(func),
    )
}

} // verus!
