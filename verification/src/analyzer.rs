//! The semantic analyzer: a parsed dice expression is valid when both
//! its count and its face count are nonzero.

use vstd::prelude::*;
use crate::ast::ExpressionKind;
use crate::ast::Program;
use crate::ast::StatementKind;
use crate::errors::ParseError;
use crate::errors::SemanticError;
use crate::lexer::spec_lex;
use crate::lexer::token_kinds;
use crate::parser::Parser;
use crate::parser::spec_parse;

verus! {

/// What a piece of source compiles to: its count and face count, or
/// nothing when it does not lex, does not parse, or names a zero count
/// or zero faces.
pub open spec fn spec_compile(src: Seq<char>) -> Option<(u32, u32)> {
    match spec_lex(src) {
        Ok(ks) => match spec_parse(ks) {
            Some(cf) => if cf.0 != 0 && cf.1 != 0 {
                Some(cf)
            } else {
                None
            },
            None => None,
        },
        Err(_) => None,
    }
}

/// The analyzer holds the parsed program.
#[derive(Debug)]
pub struct SemanticAnalyzer {
    ast: Program,
}

impl SemanticAnalyzer {
    /// The parsed program.
    pub closed spec fn spec_ast(&self) -> Program {
        self.ast
    }

    /// Parse the source; lexical and syntax faults are reported as they
    /// stand.
    pub fn new(source: &str) -> (r: Result<SemanticAnalyzer, ParseError>)
        ensures
            match r {
                Ok(a) => {
                    &&& spec_lex(source@) is Ok
                    &&& spec_parse(spec_lex(source@).unwrap()) is Some
                    &&& match a.spec_ast().statement {
                        Some(stmt) => match stmt.kind {
                            StatementKind::Expression { expr } => match expr.kind {
                                ExpressionKind::Dice { count, faces } => Some((count, faces))
                                    == spec_parse(spec_lex(source@).unwrap()),
                            },
                        },
                        None => false,
                    }
                },
                Err(e) => match spec_lex(source@) {
                    Err(f) => crate::lexer::lex_fault_matches(f, e),
                    Ok(ks) => spec_parse(ks) is None && crate::parser::parse_fault_matches(
                        ks,
                        0,
                        e,
                    ),
                },
            },
    {
        let mut parser = match Parser::new(source) {
            Ok(p) => p,
            Err(e) => {
                return Err(e);
            },
        };
        let ast = match parser.parse() {
            Ok(ast) => ast,
            Err(e) => {
                return Err(e);
            },
        };
        Ok(SemanticAnalyzer { ast })
    }

    /// Check the parsed program: a zero count or zero face count is
    /// refused; otherwise the program comes back as parsed.
    pub fn analyze(&mut self) -> (r: Result<Program, SemanticError>)
        ensures
            final(self).spec_ast() == old(self).spec_ast(),
            match r {
                Ok(p) => {
                    &&& p == old(self).spec_ast()
                    &&& match p.statement {
                        Some(stmt) => match stmt.kind {
                            StatementKind::Expression { expr } => match expr.kind {
                                ExpressionKind::Dice { count, faces } => count != 0 && faces != 0,
                            },
                        },
                        None => false,
                    }
                },
                Err(e) => match old(self).spec_ast().statement {
                    None => e == SemanticError::EmptyProgram,
                    Some(stmt) => match stmt.kind {
                        StatementKind::Expression { expr } => match expr.kind {
                            ExpressionKind::Dice { count, faces } => (count == 0 || faces == 0) && (
                            if count == 0 {
                                e == SemanticError::DiceCountZero
                            } else {
                                e == SemanticError::DiceFacesZero
                            }),
                        },
                    },
                },
            },
    {
        let statement = match &self.ast.statement {
            Some(s) => s,
            None => {
                return Err(SemanticError::EmptyProgram);
            },
        };
        match &statement.kind {
            StatementKind::Expression { expr } => {
                match &expr.kind {
                    ExpressionKind::Dice { count, faces } => {
                        if *count == 0 {
                            return Err(SemanticError::DiceCountZero);
                        }
                        if *faces == 0 {
                            return Err(SemanticError::DiceFacesZero);
                        }
                    },
                }
            },
        }
        Ok(self.ast)
    }
}

} // verus!
