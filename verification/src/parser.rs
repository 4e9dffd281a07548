//! The parser for dice expressions: one statement of the form `NdM`.

use vstd::prelude::*;
use crate::ast::Expression;
use crate::ast::Program;
use crate::ast::Statement;
use crate::ast::StatementKind;
use crate::ast::ExpressionKind;
use crate::ast::BinaryOperator;
use crate::errors::ParseError;
use crate::errors::Position;
use crate::errors::Span;
use crate::lexer::Lexer;
use crate::lexer::Token;
use crate::lexer::TokenKind;
use crate::lexer::spec_lex;
use crate::lexer::token_kinds;

verus! {

/// The token kind at an index, with `Eof` past the end, as the parser's
/// cursor reads the stream.
pub open spec fn kind_at(ks: Seq<TokenKind>, i: int) -> TokenKind {
    if 0 <= i < ks.len() {
        ks[i]
    } else {
        TokenKind::Eof
    }
}

/// What a token stream parses to from cursor position `c`: the count,
/// the dice operator, the face count, and then the end of the stream.
pub open spec fn spec_parse_at(ks: Seq<TokenKind>, c: int) -> Option<(u32, u32)> {
    match kind_at(ks, c) {
        TokenKind::U32(count) => {
            if kind_at(ks, c + 1) != TokenKind::Dice {
                None
            } else {
                match kind_at(ks, c + 2) {
                    TokenKind::U32(faces) => if kind_at(ks, c + 3) == TokenKind::Eof {
                        Some((count, faces))
                    } else {
                        None
                    },
                    _ => None,
                }
            }
        },
        _ => None,
    }
}

/// What a whole token stream parses to.
pub open spec fn spec_parse(ks: Seq<TokenKind>) -> Option<(u32, u32)> {
    spec_parse_at(ks, 0)
}

/// Which `ParseError` a failed parse from cursor `c` surfaces as: no
/// leading count is a syntax error, a wrong operator or face token an
/// unexpected token, and trailing input the end-of-input fault.
pub open spec fn parse_fault_matches(ks: Seq<TokenKind>, c: int, e: ParseError) -> bool {
    match kind_at(ks, c) {
        TokenKind::U32(_) => {
            if kind_at(ks, c + 1) != TokenKind::Dice {
                e is UnexpectedToken
            } else {
                match kind_at(ks, c + 2) {
                    TokenKind::U32(_) => e == ParseError::UnexpectedEndOfInput,
                    _ => e is UnexpectedToken,
                }
            }
        },
        _ => e is SyntaxError,
    }
}

/// The parser: the token stream and a cursor.
pub struct Parser {
    tokens: Vec<Token>,
    current: usize,
}

impl Parser {
    /// The tokens being parsed.
    pub closed spec fn spec_tokens(&self) -> Seq<Token> {
        self.tokens@
    }

    /// The cursor.
    pub closed spec fn spec_current(&self) -> int {
        self.current as int
    }

    /// Lex the source; a lexing fault is reported as the lexer raised it.
    pub fn new(source: &str) -> (r: Result<Parser, ParseError>)
        ensures
            match r {
                Ok(p) => spec_lex(source@) == Ok::<
                    Seq<TokenKind>,
                    crate::lexer::LexFault,
                >(token_kinds(p.spec_tokens())) && p.spec_current() == 0,
                Err(e) => match spec_lex(source@) {
                    Ok(_) => false,
                    Err(f) => crate::lexer::lex_fault_matches(f, e),
                },
            },
    {
        let lexer = Lexer::new(source);
        let tokens = match lexer.lex() {
            Ok(tokens) => tokens,
            Err(e) => {
                return Err(e);
            },
        };
        Ok(Parser { tokens, current: 0 })
    }

    /// The token at the cursor, or `Eof` past the end.
    fn current_token(&self) -> (r: Token)
        ensures
            r.kind == kind_at(token_kinds(self.spec_tokens()), self.spec_current()),
    {
        if self.current < self.tokens.len() {
            self.tokens[self.current]
        } else {
            Token {
                kind: TokenKind::Eof,
                span: Span {
                    start: Position { line: 1, column: 1, offset: 0 },
                    end: Position { line: 1, column: 1, offset: 0 },
                },
            }
        }
    }

    /// Whether the cursor reads the end of the stream.
    fn is_at_end(&self) -> (r: bool)
        ensures
            r == (kind_at(token_kinds(self.spec_tokens()), self.spec_current()) == TokenKind::Eof),
    {
        match self.current_token().kind {
            TokenKind::Eof => true,
            _ => false,
        }
    }

    /// Move past the current token unless at the end; yields the token
    /// before the new cursor.
    fn advance(&mut self) -> (r: Token)
        ensures
            final(self).spec_tokens() == old(self).spec_tokens(),
            if kind_at(token_kinds(old(self).spec_tokens()), old(self).spec_current())
                == TokenKind::Eof {
                final(self).spec_current() == old(self).spec_current()
            } else {
                final(self).spec_current() == old(self).spec_current() + 1
            },
            r.kind == (if kind_at(token_kinds(old(self).spec_tokens()), old(self).spec_current())
                != TokenKind::Eof {
                kind_at(token_kinds(old(self).spec_tokens()), old(self).spec_current())
            } else if old(self).spec_current() >= 1 {
                kind_at(token_kinds(old(self).spec_tokens()), old(self).spec_current() - 1)
            } else {
                TokenKind::Eof
            }),
    {
        if !self.is_at_end() {
            let n = self.tokens.len();
            proof {
                assert(self.current < n);
            }
            self.current = self.current + 1;
        }
        if self.current >= 1 && self.current - 1 < self.tokens.len() {
            self.tokens[self.current - 1]
        } else {
            Token {
                kind: TokenKind::Eof,
                span: Span {
                    start: Position { line: 1, column: 1, offset: 0 },
                    end: Position { line: 1, column: 1, offset: 0 },
                },
            }
        }
    }

    fn token_to_binary_operator(&self, token: &TokenKind) -> (r: Option<BinaryOperator>)
        ensures
            r is Some <==> *token == TokenKind::Dice,
    {
        match token {
            TokenKind::Dice => Some(BinaryOperator::Dice),
            _ => None,
        }
    }

    /// Parse the stream from the cursor into a one-statement program,
    /// exactly as `spec_parse_at` describes.
    pub fn parse(&mut self) -> (r: Result<Program, ParseError>)
        ensures
            match r {
                Ok(p) => {
                    &&& spec_parse_at(
                        token_kinds(old(self).spec_tokens()),
                        old(self).spec_current(),
                    ) is Some
                    &&& match p.statement {
                        Some(stmt) => match stmt.kind {
                            StatementKind::Expression { expr } => match expr.kind {
                                ExpressionKind::Dice { count, faces } => Some((count, faces))
                                    == spec_parse_at(
                                    token_kinds(old(self).spec_tokens()),
                                    old(self).spec_current(),
                                ),
                            },
                        },
                        None => false,
                    }
                },
                Err(e) => {
                    &&& spec_parse_at(
                        token_kinds(old(self).spec_tokens()),
                        old(self).spec_current(),
                    ) is None
                    &&& parse_fault_matches(
                        token_kinds(old(self).spec_tokens()),
                        old(self).spec_current(),
                        e,
                    )
                },
            },
    {
        let first = self.current_token();
        let count = match first.kind {
            TokenKind::U32(count) => count,
            _ => {
                return Err(
                    ParseError::SyntaxError {
                        span: first.span,
                        message: String::from_str("expected a statement"),
                    },
                );
            },
        };
        let start_span = first.span;
        self.advance();
        let operator_token = self.advance();
        match self.token_to_binary_operator(&operator_token.kind) {
            Some(_) => (),
            None => {
                return Err(
                    ParseError::UnexpectedToken {
                        span: operator_token.span,
                        expected: String::from_str("the dice operator d"),
                        found: String::from_str("another token"),
                    },
                );
            },
        }
        let at_faces = self.current_token();
        let faces = match at_faces.kind {
            TokenKind::U32(faces) => faces,
            _ => {
                return Err(
                    ParseError::UnexpectedToken {
                        span: at_faces.span,
                        expected: String::from_str("u32"),
                        found: String::from_str("another token"),
                    },
                );
            },
        };
        self.advance();
        let end_span = self.current_token().span;
        if !self.is_at_end() {
            return Err(ParseError::UnexpectedEndOfInput);
        }
        let mut program = Program::new();
        program.statement = Some(
            Statement::expr_stmt(
                Expression::dice(count, faces, Span { start: start_span.start, end: end_span.end }),
                Span { start: start_span.start, end: end_span.end },
            ),
        );
        Ok(program)
    }
}

} // verus!
