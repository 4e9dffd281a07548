//! Source positions and the error taxonomy: parse-time, semantic and
//! run-time faults.

use vstd::prelude::*;

verus! {

/// A source-code coordinate: 1-based line and column, 0-based byte offset.
#[derive(Debug, Clone, Copy, PartialEq, Eq, Structural)]
pub struct Position {
    pub line: u32,
    pub column: u32,
    pub offset: u32,
}

impl Position {
    pub fn new(line: u32, column: u32, offset: u32) -> (r: Position)
        ensures
            r == (Position { line, column, offset }),
    {
        Position { line, column, offset }
    }
}

/// A source-code range, from `start` to `end` inclusive.
#[derive(Debug, Clone, Copy, PartialEq, Eq, Structural)]
pub struct Span {
    pub start: Position,
    pub end: Position,
}

impl Span {
    pub fn new(start: Position, end: Position) -> (r: Span)
        ensures
            r == (Span { start, end }),
    {
        Span { start, end }
    }

    pub fn single(pos: Position) -> (r: Span)
        ensures
            r == (Span { start: pos, end: pos }),
    {
        Span { start: pos, end: pos }
    }
}

/// A fault found while turning source text into an abstract syntax tree.
#[derive(Debug, Clone, PartialEq)]
pub enum ParseError {
    LexicalError { span: Span, message: String },
    SyntaxError { span: Span, message: String },
    UnexpectedToken { span: Span, expected: String, found: String },
    UnexpectedEndOfInput,
    InvalidNumberLiteral { span: Span, message: String },
}

impl ParseError {
    pub fn lexical_error(span: Span, message: String) -> (r: ParseError)
        ensures
            r == (ParseError::LexicalError { span, message }),
    {
        ParseError::LexicalError { span, message }
    }

    pub fn syntax_error(span: Span, message: String) -> (r: ParseError)
        ensures
            r == (ParseError::SyntaxError { span, message }),
    {
        ParseError::SyntaxError { span, message }
    }

    pub fn unexpected_token(span: Span, expected: String, found: String) -> (r: ParseError)
        ensures
            r == (ParseError::UnexpectedToken { span, expected, found }),
    {
        ParseError::UnexpectedToken { span, expected, found }
    }

    pub fn unexpected_end_of_input() -> (r: ParseError)
        ensures
            r == ParseError::UnexpectedEndOfInput,
    {
        ParseError::UnexpectedEndOfInput
    }

    pub fn invalid_number_literal(span: Span, message: String) -> (r: ParseError)
        ensures
            r == (ParseError::InvalidNumberLiteral { span, message }),
    {
        ParseError::InvalidNumberLiteral { span, message }
    }
}

/// A fault found while checking a parsed program.
#[derive(Debug, Clone, PartialEq, Eq, Structural)]
pub enum SemanticError {
    EmptyProgram,
    DiceCountZero,
    DiceFacesZero,
}

/// A fault while generating a class file or instruction stream from a
/// dice expression.
#[derive(Debug, Clone, PartialEq)]
pub enum GenerateError {
    Parse(ParseError),
    Semantic(SemanticError),
    /// The constant does not fit the immediate forms the writer emits.
    UnsupportedConstant(i32),
}

/// A fault raised by the class-file reader or the interpreter.
#[derive(Debug, Clone, Copy, PartialEq, Eq, Structural)]
pub enum RuntimeError {
    InvalidStackState,
    StackUnderflow,
    StackOverflow,
    DivisionByZero,
    InvalidInstructionPointer(usize),
    InvalidOpcode(u8),
    CallStackOverflow,
    CallStackUnderflow,
    UnknownConstantPoolTag { tag: u8, index: u16 },
}

} // verus!
