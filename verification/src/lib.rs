//! A miniature JVM-class-file execution engine for a tiny dice-expression
//! language: a constant pool, a class-file reader and writer, and a
//! stack-based bytecode interpreter, all with verified contracts.

use vstd::prelude::*;

pub mod analyzer;
pub mod ast;
pub mod errors;
pub mod fp;
pub mod instr;
pub mod lexer;
pub mod parser;
pub mod pool;
pub mod reader;
pub mod resolver;
pub mod text;
pub mod value;
pub mod vm;
pub mod writer;

verus! {

/// Big-endian composition of two bytes.
pub open spec fn be16(b0: u8, b1: u8) -> u16 {
    (b0 * 256 + b1) as u16
}

/// Compose two bytes into a big-endian u16.
pub fn make_u16(b0: u8, b1: u8) -> (r: u16)
    ensures
        r == be16(b0, b1),
{
    let h: u16 = b0 as u16;
    let l: u16 = b1 as u16;
    assert((h << 8) | l == h * 256 + l) by (bit_vector)
        requires
            h < 256 && l < 256,
    ;
    (h << 8) | l
}

} // verus!
