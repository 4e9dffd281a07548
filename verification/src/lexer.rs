//! The lexer for dice expressions: decimal numbers and the dice operator
//! `d` (or `D`), with source positions carried on every token.

use vstd::prelude::*;
use crate::errors::ParseError;
use crate::errors::Position;
use crate::errors::Span;
use crate::text::spec_is_digit;

verus! {

#[derive(Debug, Clone, Copy, PartialEq, Eq, Structural)]
pub enum TokenKind {
    U32(u32),
    Dice,
    Eof,
}

#[derive(Debug, Clone, Copy, PartialEq, Eq, Structural)]
pub struct Token {
    pub kind: TokenKind,
    pub span: Span,
}

impl Token {
    pub fn new(kind: TokenKind, span: Span) -> (r: Token)
        ensures
            r == (Token { kind, span }),
    {
        Token { kind, span }
    }
}

/// An ASCII letter, as identifier runs accept.
pub open spec fn spec_is_letter(c: char) -> bool {
    (97 <= c as int <= 122) || (65 <= c as int <= 90)
}

/// A character that continues an identifier run.
pub open spec fn spec_is_ident_char(c: char) -> bool {
    spec_is_letter(c) || c == '_'
}

/// Why a piece of text does not lex: a number beyond 32 bits, or any
/// other run that is no token.
#[derive(Debug, Clone, Copy, PartialEq, Eq, Structural)]
pub enum LexFault {
    NumberTooLarge,
    BadToken,
}

/// The token kinds the text lexes to from position `i`, with the kinds
/// already produced, or why it does not lex.
pub open spec fn spec_lex_from(s: Seq<char>, i: int, acc: Seq<TokenKind>) -> Result<
    Seq<TokenKind>,
    LexFault,
>
    decreases s.len() - i, 0int,
{
    if i < 0 {
        Err(LexFault::BadToken)
    } else if i >= s.len() {
        Ok(acc.push(TokenKind::Eof))
    } else if spec_is_digit(s[i]) {
        spec_lex_number(s, i + 1, s[i] as int - 48, acc)
    } else if spec_is_letter(s[i]) {
        spec_lex_ident(s, i + 1, Some(s[i]), acc)
    } else {
        Err(LexFault::BadToken)
    }
}

/// Inside a digit run with the value so far; a value beyond u32 does not
/// lex.
pub open spec fn spec_lex_number(s: Seq<char>, i: int, val: int, acc: Seq<TokenKind>) -> Result<
    Seq<TokenKind>,
    LexFault,
>
    decreases s.len() - i, 1int,
{
    if 0 <= i < s.len() && spec_is_digit(s[i]) {
        spec_lex_number(s, i + 1, val * 10 + (s[i] as int - 48), acc)
    } else if 0 <= val <= 0xFFFFFFFF {
        spec_lex_from(s, i, acc.push(TokenKind::U32(val as u32)))
    } else {
        Err(LexFault::NumberTooLarge)
    }
}

/// Inside an identifier run; `single` holds the run's only character
/// while it is exactly one long. Only the runs `d` and `D` lex, to the
/// dice operator.
pub open spec fn spec_lex_ident(
    s: Seq<char>,
    i: int,
    single: Option<char>,
    acc: Seq<TokenKind>,
) -> Result<Seq<TokenKind>, LexFault>
    decreases s.len() - i, 1int,
{
    if 0 <= i < s.len() && spec_is_ident_char(s[i]) {
        spec_lex_ident(s, i + 1, None, acc)
    } else {
        match single {
            Some(c) => if c == 'd' || c == 'D' {
                spec_lex_from(s, i, acc.push(TokenKind::Dice))
            } else {
                Err(LexFault::BadToken)
            },
            None => Err(LexFault::BadToken),
        }
    }
}

/// What a whole piece of text lexes to, or why it does not.
pub open spec fn spec_lex(s: Seq<char>) -> Result<Seq<TokenKind>, LexFault> {
    spec_lex_from(s, 0, Seq::empty())
}

/// Which `ParseError` a lexing fault surfaces as: an oversized number is
/// an invalid number literal, anything else a lexical error.
pub open spec fn lex_fault_matches(f: LexFault, e: crate::errors::ParseError) -> bool {
    match f {
        LexFault::NumberTooLarge => e is InvalidNumberLiteral,
        LexFault::BadToken => e is LexicalError,
    }
}

/// The kinds of a token sequence.
pub open spec fn token_kinds(ts: Seq<Token>) -> Seq<TokenKind> {
    ts.map_values(|t: Token| t.kind)
}

/// Whether the character at `i` is an ASCII digit.
fn digit_at(s: &str, i: usize) -> (r: bool)
    requires
        i < s@.len(),
    ensures
        r == spec_is_digit(s@[i as int]),
{
    let c = s.get_char(i);
    let cv = c as u32;
    48 <= cv && cv <= 57
}

/// Whether the character at `i` continues an identifier run.
fn ident_char_at(s: &str, i: usize) -> (r: bool)
    requires
        i < s@.len(),
    ensures
        r == spec_is_ident_char(s@[i as int]),
{
    let c = s.get_char(i);
    let cv = c as u32;
    (97 <= cv && cv <= 122) || (65 <= cv && cv <= 90) || c == '_'
}

/// How many bytes a character occupies in UTF-8.
fn char_utf8_len(c: char) -> (r: u32)
    ensures
        1 <= r <= 4,
{
    let cv = #[verifier::truncate] (c as u32);
    if cv < 0x80 {
        1
    } else if cv < 0x800 {
        2
    } else if cv < 0x10000 {
        3
    } else {
        4
    }
}

/// The lexer: the input text and a cursor with its source position.
pub struct Lexer {
    input: String,
    index: usize,
    position: Position,
}

impl Lexer {
    /// The characters being lexed.
    pub closed spec fn spec_chars(&self) -> Seq<char> {
        self.input@
    }

    /// The cursor.
    pub closed spec fn spec_index(&self) -> int {
        self.index as int
    }

    pub fn new(input: &str) -> (r: Lexer)
        ensures
            r.spec_chars() == input@,
            r.spec_index() == 0,
    {
        Lexer {
            input: input.to_owned(),
            index: 0,
            position: Position { line: 1, column: 1, offset: 0 },
        }
    }

    /// Lex the whole input from the start, leaving this lexer untouched.
    pub fn lex(&self) -> (r: Result<Vec<Token>, ParseError>)
        ensures
            match r {
                Ok(tokens) => spec_lex(self.spec_chars()) == Ok::<Seq<TokenKind>, LexFault>(
                    token_kinds(tokens@),
                ),
                Err(e) => match spec_lex(self.spec_chars()) {
                    Ok(_) => false,
                    Err(f) => lex_fault_matches(f, e),
                },
            },
    {
        let mut fresh = Lexer {
            input: self.input.clone(),
            index: 0,
            position: Position { line: 1, column: 1, offset: 0 },
        };
        fresh.tokenize()
    }

    /// Advance one character, tracking line, column and byte offset.
    fn advance(&mut self)
        requires
            old(self).spec_index() < old(self).spec_chars().len(),
        ensures
            final(self).spec_chars() == old(self).spec_chars(),
            final(self).spec_index() == old(self).spec_index() + 1,
    {
        let n = self.input.as_str().unicode_len();
        let c = self.input.as_str().get_char(self.index);
        if c == '\n' {
            self.position.line = self.position.line.wrapping_add(1);
            self.position.column = 1;
        } else {
            self.position.column = self.position.column.wrapping_add(1);
        }
        self.position.offset = self.position.offset.wrapping_add(char_utf8_len(c));
        proof {
            assert(self.index < n);
        }
        self.index = self.index + 1;
    }

    /// Lex the rest of the input into tokens, ending with `Eof`, exactly
    /// as `spec_lex_from` describes.
    pub fn tokenize(&mut self) -> (r: Result<Vec<Token>, ParseError>)
        ensures
            match r {
                Ok(tokens) => spec_lex_from(
                    old(self).spec_chars(),
                    old(self).spec_index(),
                    Seq::empty(),
                ) == Ok::<Seq<TokenKind>, LexFault>(token_kinds(tokens@)),
                Err(e) => match spec_lex_from(
                    old(self).spec_chars(),
                    old(self).spec_index(),
                    Seq::empty(),
                ) {
                    Ok(_) => false,
                    Err(f) => lex_fault_matches(f, e),
                },
            },
    {
        let ghost s = self.spec_chars();
        let ghost i0 = self.spec_index();
        let mut tokens: Vec<Token> = Vec::new();
        let n = self.input.as_str().unicode_len();
        proof {
            assert(token_kinds(tokens@) =~= Seq::<TokenKind>::empty());
        }
        loop
            invariant
                s == old(self).spec_chars(),
                i0 == old(self).spec_index(),
                self.spec_chars() == s,
                n == s.len(),
                0 <= self.spec_index(),
                spec_lex_from(s, i0, Seq::empty()) == spec_lex_from(
                    s,
                    self.spec_index(),
                    token_kinds(tokens@),
                ),
            decreases n as int - self.spec_index() + 1,
        {
            let ghost iter_start = self.spec_index();
            if self.index >= n {
                let t = Token {
                    kind: TokenKind::Eof,
                    span: Span { start: self.position, end: self.position },
                };
                let ghost ks = token_kinds(tokens@);
                tokens.push(t);
                proof {
                    assert(token_kinds(tokens@) =~= ks.push(TokenKind::Eof));
                }
                return Ok(tokens);
            }
            let start_pos = self.position;
            let c = self.input.as_str().get_char(self.index);
            let cv = c as u32;
            if 48 <= cv && cv <= 57 {
                let mut value: u64 = (cv - 48) as u64;
                let ghost mut vspec = c as int - 48;
                self.advance();
                while self.index < n && digit_at(self.input.as_str(), self.index)
                    invariant
                        s == old(self).spec_chars(),
                        i0 == old(self).spec_index(),
                        self.spec_chars() == s,
                        n == s.len(),
                        iter_start < self.spec_index() <= n,
                        vspec <= 0xFFFFFFFF ==> value == vspec,
                        vspec > 0xFFFFFFFF ==> value == 0x100000000,
                        vspec >= 0,
                        spec_lex_from(s, i0, Seq::empty()) == spec_lex_number(
                            s,
                            self.spec_index(),
                            vspec,
                            token_kinds(tokens@),
                        ),
                    decreases s.len() - self.spec_index(),
                {
                    let dc = self.input.as_str().get_char(self.index);
                    let dv = dc as u32;
                    let d = (dv - 48) as u64;
                    proof {
                        let c2 = s[self.spec_index()];
                        assert(spec_is_digit(c2));
                        assert(spec_lex_number(s, self.spec_index(), vspec, token_kinds(tokens@))
                            == spec_lex_number(
                            s,
                            self.spec_index() + 1,
                            vspec * 10 + (c2 as int - 48),
                            token_kinds(tokens@),
                        ));
                        vspec = vspec * 10 + (c2 as int - 48);
                    }
                    if value > 0xFFFFFFFF {
                        // the value is already beyond range; keep the marker
                    } else {
                        value = value * 10 + d;
                        if value > 0xFFFFFFFF {
                            value = 0x100000000;
                        }
                    }
                    self.advance();
                }
                if value > 0xFFFFFFFF {
                    return Err(
                        ParseError::InvalidNumberLiteral {
                            span: Span { start: start_pos, end: self.position },
                            message: String::from_str("the number does not fit 32 bits"),
                        },
                    );
                }
                let t = Token {
                    kind: TokenKind::U32(value as u32),
                    span: Span { start: start_pos, end: self.position },
                };
                let ghost ks = token_kinds(tokens@);
                tokens.push(t);
                proof {
                    assert(token_kinds(tokens@) =~= ks.push(TokenKind::U32(vspec as u32)));
                }
            } else if (97 <= cv && cv <= 122) || (65 <= cv && cv <= 90) {
                self.advance();
                let mut run_len: u64 = 1;
                while self.index < n && ident_char_at(self.input.as_str(), self.index)
                    invariant
                        s == old(self).spec_chars(),
                        i0 == old(self).spec_index(),
                        self.spec_chars() == s,
                        n == s.len(),
                        iter_start < self.spec_index() <= n,
                        1 <= run_len,
                        spec_lex_from(s, i0, Seq::empty()) == spec_lex_ident(
                            s,
                            self.spec_index(),
                            if run_len == 1 {
                                Some(c)
                            } else {
                                None::<char>
                            },
                            token_kinds(tokens@),
                        ),
                    decreases s.len() - self.spec_index(),
                {
                    proof {
                        let c2 = s[self.spec_index()];
                        assert(spec_is_ident_char(c2));
                    }
                    self.advance();
                    if run_len < 2 {
                        run_len = run_len + 1;
                    }
                }
                if run_len == 1 && (c == 'd' || c == 'D') {
                    let t = Token {
                        kind: TokenKind::Dice,
                        span: Span { start: start_pos, end: self.position },
                    };
                    let ghost ks = token_kinds(tokens@);
                    tokens.push(t);
                    proof {
                        assert(token_kinds(tokens@) =~= ks.push(TokenKind::Dice));
                    }
                } else {
                    return Err(
                        ParseError::LexicalError {
                            span: Span { start: start_pos, end: self.position },
                            message: String::from_str("only d or D names the dice operator"),
                        },
                    );
                }
            } else {
                self.advance();
                return Err(
                    ParseError::LexicalError {
                        span: Span { start: start_pos, end: self.position },
                        message: String::from_str("unexpected character"),
                    },
                );
            }
        }
    }
}

} // verus!

verus! {

impl Lexer {
    /// Lex one token at the cursor and advance past it. At the end of
    /// the input the token is `Eof` and the cursor stays; otherwise the
    /// consumed token is exactly the next one the lexing spec produces,
    /// whatever was lexed before it.
    pub fn next_token(&mut self) -> (r: Result<Token, ParseError>)
        ensures
            final(self).spec_chars() == old(self).spec_chars(),
            old(self).spec_index() <= final(self).spec_index(),
            match r {
                Ok(t) => if t.kind == TokenKind::Eof {
                    final(self).spec_index() == old(self).spec_index() && old(self).spec_index()
                        >= old(self).spec_chars().len()
                } else {
                    &&& final(self).spec_index() > old(self).spec_index()
                    &&& forall|acc: Seq<TokenKind>|
                        #[trigger] spec_lex_from(
                            old(self).spec_chars(),
                            old(self).spec_index(),
                            acc,
                        ) == spec_lex_from(
                            old(self).spec_chars(),
                            final(self).spec_index(),
                            acc.push(t.kind),
                        )
                },
                Err(e) => forall|acc: Seq<TokenKind>|
                    match #[trigger] spec_lex_from(
                        old(self).spec_chars(),
                        old(self).spec_index(),
                        acc,
                    ) {
                        Ok(_) => false,
                        Err(f) => lex_fault_matches(f, e),
                    },
            },
    {
        let ghost s = self.spec_chars();
        let ghost i0 = self.spec_index();
        let n = self.input.as_str().unicode_len();
        let start_pos = self.position;
        if self.index >= n {
            return Ok(
                Token { kind: TokenKind::Eof, span: Span { start: start_pos, end: start_pos } },
            );
        }
        let c = self.input.as_str().get_char(self.index);
        let cv = c as u32;
        if 48 <= cv && cv <= 57 {
            let mut value: u64 = (cv - 48) as u64;
            let ghost d0 = c as int - 48;
            let ghost mut vspec = d0;
            self.advance();
            while self.index < n && digit_at(self.input.as_str(), self.index)
                invariant
                    n == s.len(),
                    self.spec_chars() == s,
                    i0 < self.spec_index() <= s.len(),
                    vspec <= 0xFFFFFFFF ==> value == vspec,
                    vspec > 0xFFFFFFFF ==> value == 0x100000000,
                    vspec >= 0,
                    forall|acc: Seq<TokenKind>|
                        #[trigger] spec_lex_number(s, i0 + 1, d0, acc) == spec_lex_number(
                            s,
                            self.spec_index(),
                            vspec,
                            acc,
                        ),
                decreases s.len() - self.spec_index(),
            {
                let dc = self.input.as_str().get_char(self.index);
                let dv = dc as u32;
                let d = (dv - 48) as u64;
                proof {
                    let c2 = s[self.spec_index()];
                    assert(spec_is_digit(c2));
                    assert forall|acc: Seq<TokenKind>|
                        #[trigger] spec_lex_number(s, self.spec_index(), vspec, acc)
                            == spec_lex_number(
                            s,
                            self.spec_index() + 1,
                            vspec * 10 + (c2 as int - 48),
                            acc,
                        ) by {}
                    vspec = vspec * 10 + (c2 as int - 48);
                }
                if value <= 0xFFFFFFFF {
                    value = value * 10 + d;
                    if value > 0xFFFFFFFF {
                        value = 0x100000000;
                    }
                }
                self.advance();
            }
            if value > 0xFFFFFFFF {
                proof {
                    assert forall|acc: Seq<TokenKind>|
                        match #[trigger] spec_lex_from(s, i0, acc) {
                            Ok(_) => false,
                            Err(f) => f == LexFault::NumberTooLarge,
                        } by {
                        assert(spec_lex_from(s, i0, acc) == spec_lex_number(s, i0 + 1, d0, acc));
                        assert(spec_lex_number(s, i0 + 1, d0, acc) == spec_lex_number(
                            s,
                            self.spec_index(),
                            vspec,
                            acc,
                        ));
                    }
                }
                return Err(
                    ParseError::InvalidNumberLiteral {
                        span: Span { start: start_pos, end: self.position },
                        message: String::from_str("the number does not fit 32 bits"),
                    },
                );
            }
            proof {
                assert forall|acc: Seq<TokenKind>| #[trigger] spec_lex_from(s, i0, acc)
                    == spec_lex_from(
                    s,
                    self.spec_index(),
                    acc.push(TokenKind::U32(vspec as u32)),
                ) by {
                    assert(spec_lex_from(s, i0, acc) == spec_lex_number(s, i0 + 1, d0, acc));
                    assert(spec_lex_number(s, i0 + 1, d0, acc) == spec_lex_number(
                        s,
                        self.spec_index(),
                        vspec,
                        acc,
                    ));
                }
            }
            Ok(
                Token {
                    kind: TokenKind::U32(value as u32),
                    span: Span { start: start_pos, end: self.position },
                },
            )
        } else if (97 <= cv && cv <= 122) || (65 <= cv && cv <= 90) {
            self.advance();
            let mut run_len: u64 = 1;
            while self.index < n && ident_char_at(self.input.as_str(), self.index)
                invariant
                    n == s.len(),
                    self.spec_chars() == s,
                    i0 < self.spec_index() <= s.len(),
                    1 <= run_len,
                    forall|acc: Seq<TokenKind>|
                        #[trigger] spec_lex_ident(s, i0 + 1, Some(c), acc) == spec_lex_ident(
                            s,
                            self.spec_index(),
                            if run_len == 1 {
                                Some(c)
                            } else {
                                None::<char>
                            },
                            acc,
                        ),
                decreases s.len() - self.spec_index(),
            {
                proof {
                    let c2 = s[self.spec_index()];
                    assert(spec_is_ident_char(c2));
                }
                self.advance();
                if run_len < 2 {
                    run_len = run_len + 1;
                }
            }
            if run_len == 1 && (c == 'd' || c == 'D') {
                proof {
                    assert forall|acc: Seq<TokenKind>| #[trigger] spec_lex_from(s, i0, acc)
                        == spec_lex_from(s, self.spec_index(), acc.push(TokenKind::Dice)) by {
                        assert(spec_lex_from(s, i0, acc) == spec_lex_ident(s, i0 + 1, Some(c), acc));
                        assert(spec_lex_ident(s, i0 + 1, Some(c), acc) == spec_lex_ident(
                            s,
                            self.spec_index(),
                            Some(c),
                            acc,
                        ));
                    }
                }
                Ok(
                    Token {
                        kind: TokenKind::Dice,
                        span: Span { start: start_pos, end: self.position },
                    },
                )
            } else {
                proof {
                    assert forall|acc: Seq<TokenKind>|
                        match #[trigger] spec_lex_from(s, i0, acc) {
                            Ok(_) => false,
                            Err(f) => f == LexFault::BadToken,
                        } by {
                        assert(spec_lex_from(s, i0, acc) == spec_lex_ident(s, i0 + 1, Some(c), acc));
                    }
                }
                Err(
                    ParseError::LexicalError {
                        span: Span { start: start_pos, end: self.position },
                        message: String::from_str("only d or D names the dice operator"),
                    },
                )
            }
        } else {
            self.advance();
            proof {
                assert forall|acc: Seq<TokenKind>|
                    match #[trigger] spec_lex_from(s, i0, acc) {
                        Ok(_) => false,
                        Err(f) => f == LexFault::BadToken,
                    } by {}
            }
            Err(
                ParseError::LexicalError {
                    span: Span { start: start_pos, end: self.position },
                    message: String::from_str("unexpected character"),
                },
            )
        }
    }
}

} // verus!
