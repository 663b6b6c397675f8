//! Tokens of the textual format.

use crate::mir::types::Span;
use vstd::prelude::*;

verus! {

/// A punctuation mark.
#[derive(Clone, Copy, Debug, PartialEq, Eq, Structural)]
pub enum Punct {
    /// `@`
    At,
    /// `.`
    Dot,
    /// `,`
    Comma,
    /// `:`
    Colon,
    /// `=`
    Eq,
    /// `=>`
    FatArrow,
    /// `->`
    Arrow,
    /// `<`
    Lt,
    /// `>`
    Gt,
    /// `>>`
    Shr,
    /// `>>>`
    Sar,
    /// `!`
    Not,
    /// `-`
    Minus,
    /// `(`
    OpenParen,
    /// `)`
    CloseParen,
    /// `{`
    OpenBrace,
    /// `}`
    CloseBrace,
    /// `[`
    OpenBracket,
    /// `]`
    CloseBracket,
}

/// The kind of a literal.
#[derive(Clone, Copy, Debug, PartialEq, Eq, Structural)]
pub enum LitKind {
    /// A whole number.
    Integer,
    /// A number with a decimal point.
    Rational,
    /// A string or the like.
    Other,
}

/// What a token is.
#[derive(Debug)]
pub enum TokenKind {
    /// A name.
    Ident(String),
    /// A literal with its text.
    Literal(LitKind, String),
    /// A punctuation mark.
    Punct(Punct),
    /// A mark that the format does not use.
    Other,
}

/// A token with its place in the source.
#[derive(Debug)]
pub struct Token {
    /// What it is.
    pub kind: TokenKind,
    /// Where it is.
    pub span: Span,
}

/// The mathematical value of a [`TokenKind`], and the end of the text.
pub enum Kind {
    /// A name.
    Ident(Seq<char>),
    /// A literal with its text.
    Literal(LitKind, Seq<char>),
    /// A punctuation mark.
    Punct(Punct),
    /// A mark that the format does not use.
    Other,
    /// The end of the text.
    Eof,
}

/// The mathematical value of a [`Token`].
pub struct TokenView {
    /// What it is.
    pub kind: Kind,
    /// Where it is.
    pub span: Span,
}

impl View for Token {
    type V = TokenView;

    open spec fn view(&self) -> TokenView {
        TokenView {
            kind: match self.kind {
                TokenKind::Ident(name) => Kind::Ident(name@),
                TokenKind::Literal(kind, text) => Kind::Literal(kind, text@),
                TokenKind::Punct(mark) => Kind::Punct(mark),
                TokenKind::Other => Kind::Other,
            },
            span: self.span,
        }
    }
}

/// The mathematical values of tokens.
pub open spec fn token_views(tokens: Seq<Token>) -> Seq<TokenView> {
    tokens.map_values(|token: Token| token@)
}

/// What is wrong with a text.
#[derive(Clone, Copy, Debug, PartialEq, Eq, Structural)]
pub enum Problem {
    /// A mark is missing.
    Expected(Punct),
    /// A word is missing; the text says which.
    ExpectedKeyword,
    /// A name is missing.
    ExpectedIdent,
    /// A whole number is missing.
    ExpectedInteger,
    /// The text is no number of at most 256 bits.
    InvalidInteger,
    /// A number does not fit in so many bits.
    DoesNotFit {
        /// The number.
        value: crate::word::U256,
        /// The bits it has to fit in.
        bits: u16,
    },
    /// No phase of that name.
    UnknownPhase,
    /// No module attribute of that name.
    UnknownModuleAttribute,
    /// No function of that name.
    UnknownFunction,
    /// Several functions of that name.
    AmbiguousFunction,
    /// A parameter is not named `argN`.
    ExpectedArgName,
    /// A parameter name has no number.
    InvalidArgIndex,
    /// A parameter is out of order; the number is the expected one.
    ArgOutOfOrder(u32),
    /// The text ends inside a function.
    UnterminatedBody,
    /// An instruction stands in front of the first block.
    OutsideBlock,
    /// A function has no block.
    NoBlock,
    /// A block is defined twice.
    DuplicateBlock(u32),
    /// A block is mentioned and not defined.
    UnknownBlock(u32),
    /// A value is mentioned and not defined.
    UndefinedValue(u32),
    /// A value is defined twice.
    DuplicateValue(u32),
    /// No function attribute of that name.
    UnknownFunctionAttribute,
    /// An unsigned type without a width.
    InvalidUnsignedType,
    /// A signed type without a width.
    InvalidSignedType,
    /// A bytes type without a width.
    InvalidBytesType,
    /// No type of that name.
    UnknownType,
    /// An argument without a number.
    InvalidArg,
    /// An argument that the function does not have.
    ArgOutOfRange(usize),
    /// A value name without a number.
    InvalidValue,
    /// Something else where a value is expected.
    ExpectedValue,
    /// Something else where a block is expected.
    ExpectedBlock,
    /// A block name without a number.
    InvalidBlock,
    /// A fixed-array length that does not fit.
    AbiArrayLength,
    /// No ABI type of that name.
    UnknownAbiType,
    /// A storage array length that does not fit.
    StorageArrayLength,
    /// No storage layout of that name.
    UnknownStorageLayout,
    /// A memory-array stride that does not fit.
    MemoryArrayStride,
    /// A memory fixed-array length that does not fit.
    MemoryFixedArrayLength,
    /// A memory fixed-array stride that does not fit.
    MemoryFixedArrayStride,
    /// A memory struct field count that does not fit.
    MemoryStructFields,
    /// No memory-object layout of that name.
    UnknownMemoryObjectLayout,
    /// A memory field index that does not fit.
    MemoryFieldIndex,
    /// An instruction without a result is given a name.
    NoResult,
    /// No metadata key of that name.
    UnknownMetadataKey,
    /// A span without a start.
    InvalidSpanStart,
    /// A span without an end.
    ExpectedSpanEnd,
    /// A span end that is no number.
    InvalidSpanEnd,
    /// No storage metadata of that name.
    UnknownStorageMetadata,
    /// No memory metadata of that name.
    UnknownMemoryMetadata,
    /// No effect metadata of that name.
    UnknownEffectMetadata,
    /// No allocation alignment of that name.
    UnknownAlignment,
    /// No allocation initialization of that name.
    UnknownInitialization,
    /// No allocation failure of that name.
    UnknownFailure,
    /// Operands of an ABI encoding in the wrong place.
    UnexpectedOperandGroup,
    /// An ABI encoding with the wrong number of arguments.
    AbiEncodeArity {
        /// How many types the layout has.
        types: usize,
        /// How many arguments there are.
        args: usize,
    },
    /// No instruction of that name.
    UnknownInstruction,
}

/// Why a text was rejected.
#[derive(Debug)]
pub struct ParseError {
    /// What is wrong.
    pub problem: Problem,
    /// The name it is about, or nothing.
    pub text: String,
    /// Where it is.
    pub span: Span,
}

/// The mathematical value of a [`ParseError`].
pub struct Failure {
    /// What is wrong.
    pub problem: Problem,
    /// The name it is about, or nothing.
    pub text: Seq<char>,
    /// Where it is.
    pub span: Span,
}

impl View for ParseError {
    type V = Failure;

    open spec fn view(&self) -> Failure {
        Failure { problem: self.problem, text: self.text@, span: self.span }
    }
}

} // verus!
