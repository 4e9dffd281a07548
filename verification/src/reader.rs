//! The class-file reader: big-endian byte primitives, the bytecode
//! decoder, and the parser that walks a class file from the magic number
//! through the method bodies.

use vstd::prelude::*;
use std::io::Write;
use crate::be16;
use crate::errors::RuntimeError;
use crate::instr::JvmInstruction;
use crate::instr::copy_instructions;
use crate::pool::ConstantPool;
use crate::pool::ConstantPoolEntry;

verus! {

/// The value of a big-endian byte string.
pub open spec fn be_val(s: Seq<u8>) -> int
    decreases s.len(),
{
    if s.len() == 0 {
        0
    } else {
        be_val(s.drop_last()) * 256 + s.last()
    }
}

/// Read one byte and advance; `InvalidStackState` past the end.
pub fn read_u8(data: &[u8], pos: &mut usize) -> (r: Result<u8, RuntimeError>)
    ensures
        match r {
            Ok(b) => *old(pos) < data@.len() && b == data@[*old(pos) as int] && *final(pos)
                == *old(pos) + 1,
            Err(e) => *old(pos) >= data@.len() && e == RuntimeError::InvalidStackState && *final(pos) == *old(pos),
        },
{
    if *pos < data.len() {
        let b = data[*pos];
        *pos = *pos + 1;
        Ok(b)
    } else {
        Err(RuntimeError::InvalidStackState)
    }
}

/// Read a big-endian u16 and advance; `InvalidStackState` when fewer than
/// two bytes remain.
pub fn read_u16(data: &[u8], pos: &mut usize) -> (r: Result<u16, RuntimeError>)
    ensures
        match r {
            Ok(v) => *old(pos) + 2 <= data@.len() && v == be16(
                data@[*old(pos) as int],
                data@[*old(pos) + 1],
            ) && *final(pos) == *old(pos) + 2,
            Err(e) => *old(pos) + 2 > data@.len() && e == RuntimeError::InvalidStackState && *final(pos) == *old(pos),
        },
{
    if *pos < data.len() && data.len() - *pos >= 2 {
        let b0 = data[*pos];
        let b1 = data[*pos + 1];
        *pos = *pos + 2;
        Ok(crate::make_u16(b0, b1))
    } else {
        Err(RuntimeError::InvalidStackState)
    }
}

/// Read a big-endian u32 and advance; `InvalidStackState` when fewer than
/// four bytes remain.
pub fn read_u32(data: &[u8], pos: &mut usize) -> (r: Result<u32, RuntimeError>)
    ensures
        match r {
            Ok(v) => *old(pos) + 4 <= data@.len() && v == be_val(
                data@.subrange(*old(pos) as int, *old(pos) + 4),
            ) && *final(pos) == *old(pos) + 4,
            Err(e) => *old(pos) + 4 > data@.len() && e == RuntimeError::InvalidStackState && *final(pos) == *old(pos),
        },
{
    if *pos < data.len() && data.len() - *pos >= 4 {
        let b0 = data[*pos];
        let b1 = data[*pos + 1];
        let b2 = data[*pos + 2];
        let b3 = data[*pos + 3];
        let v = ((b0 as u32) << 24) | ((b1 as u32) << 16) | ((b2 as u32) << 8) | (b3 as u32);
        proof {
            let p = *old(pos) as int;
            let s4 = data@.subrange(p, p + 4);
            let s3 = data@.subrange(p, p + 3);
            let s2 = data@.subrange(p, p + 2);
            let s1 = data@.subrange(p, p + 1);
            assert(s4.drop_last() =~= s3);
            assert(s3.drop_last() =~= s2);
            assert(s2.drop_last() =~= s1);
            assert(s1.drop_last() =~= Seq::<u8>::empty());
            assert(be_val(Seq::<u8>::empty()) == 0);
            assert(s1.last() == data@[p]);
            assert(be_val(s1) == b0);
            assert(be_val(s2) == b0 * 256 + b1);
            assert(be_val(s3) == be_val(s2) * 256 + b2);
            assert(be_val(s4) == be_val(s3) * 256 + b3);
            assert(((b0 as u32) << 24) | ((b1 as u32) << 16) | ((b2 as u32) << 8) | (b3 as u32)
                == ((b0 as u32) * 0x1000000 + (b1 as u32) * 0x10000 + (b2 as u32) * 0x100 + (
            b3 as u32))) by (bit_vector);
        }
        *pos = *pos + 4;
        Ok(v)
    } else {
        Err(RuntimeError::InvalidStackState)
    }
}

/// Read a big-endian i32 (the four bytes as a two's-complement value) and
/// advance.
pub fn read_i32(data: &[u8], pos: &mut usize) -> (r: Result<i32, RuntimeError>)
    ensures
        match r {
            Ok(v) => *old(pos) + 4 <= data@.len() && v == be_val(
                data@.subrange(*old(pos) as int, *old(pos) + 4),
            ) as u32 as i32 && *final(pos) == *old(pos) + 4,
            Err(e) => *old(pos) + 4 > data@.len() && e == RuntimeError::InvalidStackState && *final(pos) == *old(pos),
        },
{
    match read_u32(data, pos) {
        Ok(v) => Ok(v as i32),
        Err(e) => Err(e),
    }
}

/// Read a big-endian u64 and advance; `InvalidStackState` when fewer than
/// eight bytes remain.
pub fn read_u64(data: &[u8], pos: &mut usize) -> (r: Result<u64, RuntimeError>)
    ensures
        match r {
            Ok(v) => *old(pos) + 8 <= data@.len() && v == be_val(
                data@.subrange(*old(pos) as int, *old(pos) + 8),
            ) && *final(pos) == *old(pos) + 8,
            Err(e) => *old(pos) + 8 > data@.len() && e == RuntimeError::InvalidStackState && *final(pos) == *old(pos),
        },
{
    let hi = match read_u32(data, pos) {
        Ok(v) => v,
        Err(e) => {
            return Err(e);
        },
    };
    let ghost mid = *pos;
    match read_u32(data, pos) {
        Ok(lo) => {
            let v = ((hi as u64) << 32) | (lo as u64);
            proof {
                let s = data@.subrange(*old(pos) as int, *old(pos) + 8);
                lemma_be_val_split(s, 4);
                assert(s.take(4) =~= data@.subrange(*old(pos) as int, *old(pos) + 4));
                assert(s.skip(4) =~= data@.subrange(mid as int, mid as int + 4));
                assert(((hi as u64) << 32) | (lo as u64) == (hi as u64) * 0x100000000 + (
                lo as u64)) by (bit_vector);
                assert(be_val(s.skip(4)) < 0x100000000) by {
                    lemma_be_val_pow_bound(s.skip(4));
                }
            }
            Ok(v)
        },
        Err(e) => {
            proof {
                assert(*old(pos) + 8 > data@.len());
            }
            *pos = *pos - 4;
            Err(e)
        },
    }
}

/// Read a big-endian i64 and advance.
pub fn read_i64(data: &[u8], pos: &mut usize) -> (r: Result<i64, RuntimeError>)
    ensures
        match r {
            Ok(v) => *old(pos) + 8 <= data@.len() && v == be_val(
                data@.subrange(*old(pos) as int, *old(pos) + 8),
            ) as u64 as i64 && *final(pos) == *old(pos) + 8,
            Err(e) => *old(pos) + 8 > data@.len() && e == RuntimeError::InvalidStackState && *final(pos) == *old(pos),
        },
{
    match read_u64(data, pos) {
        Ok(v) => Ok(v as i64),
        Err(e) => Err(e),
    }
}

/// A big-endian byte string of length n is below 256^n; stated for the
/// lengths the reader uses.
proof fn lemma_be_val_pow_bound(s: Seq<u8>)
    ensures
        be_val(s) >= 0,
        s.len() <= 0 ==> be_val(s) < 1,
        s.len() <= 1 ==> be_val(s) < 0x100,
        s.len() <= 2 ==> be_val(s) < 0x10000,
        s.len() <= 3 ==> be_val(s) < 0x1000000,
        s.len() <= 4 ==> be_val(s) < 0x100000000,
        s.len() <= 5 ==> be_val(s) < 0x10000000000,
        s.len() <= 6 ==> be_val(s) < 0x1000000000000,
        s.len() <= 7 ==> be_val(s) < 0x100000000000000,
        s.len() <= 8 ==> be_val(s) < 0x10000000000000000,
    decreases s.len(),
{
    if s.len() > 0 {
        lemma_be_val_pow_bound(s.drop_last());
    }
}

/// Splitting a byte string splits its value: the most significant part is
/// scaled by 256 to the length of the rest.
proof fn lemma_be_val_split(s: Seq<u8>, k: int)
    requires
        0 <= k <= s.len(),
        s.len() - k == 4,
    ensures
        be_val(s) == be_val(s.take(k)) * 0x100000000 + be_val(s.skip(k)),
    decreases s.len() - k,
{
    lemma_be_val_split_general(s, k, s.len() - k);
}

/// be_val over a split at k, where the low part has length m and scale
/// 256^m; stated for m up to 4.
proof fn lemma_be_val_split_general(s: Seq<u8>, k: int, m: int)
    requires
        0 <= k <= s.len(),
        m == s.len() - k,
        m <= 4,
    ensures
        m == 0 ==> be_val(s) == be_val(s.take(k)),
        m == 1 ==> be_val(s) == be_val(s.take(k)) * 0x100 + be_val(s.skip(k)),
        m == 2 ==> be_val(s) == be_val(s.take(k)) * 0x10000 + be_val(s.skip(k)),
        m == 3 ==> be_val(s) == be_val(s.take(k)) * 0x1000000 + be_val(s.skip(k)),
        m == 4 ==> be_val(s) == be_val(s.take(k)) * 0x100000000 + be_val(s.skip(k)),
    decreases m,
{
    if m == 0 {
        assert(s.take(k) =~= s);
        assert(s.skip(k) =~= Seq::<u8>::empty());
    } else {
        lemma_be_val_split_general(s.drop_last(), k, m - 1);
        assert(s.drop_last().take(k) =~= s.take(k));
        assert(s.drop_last().skip(k) =~= s.skip(k).drop_last());
        assert(s.skip(k).last() == s.last());
        assert(be_val(s) == be_val(s.drop_last()) * 256 + s.last());
        assert(be_val(s.skip(k)) == be_val(s.skip(k).drop_last()) * 256 + s.skip(k).last());
        if m == 1 {
            assert(be_val(Seq::<u8>::empty()) == 0);
        }
    }
}

} // verus!

verus! {

/// Opcodes decoded with no immediate.
pub open spec fn is_plain_op(op: u8) -> bool {
    op == 0x00 || op == 0x02 || op == 0x03 || op == 0x04 || op == 0x05 || op == 0x06 || op == 0x07
        || op == 0x08 || op == 0x0B || op == 0x0E || op == 0x0F || op == 0x1A || op == 0x1B || op
        == 0x1C || op == 0x1D || op == 0x1E || op == 0x1F || op == 0x20 || op == 0x21 || op == 0x26
        || op == 0x27 || op == 0x28 || op == 0x29 || op == 0x2A || op == 0x2B || op == 0x2C || op
        == 0x2D || op == 0x3B || op == 0x3C || op == 0x3D || op == 0x3E || op == 0x3F || op == 0x40
        || op == 0x41 || op == 0x42 || op == 0x47 || op == 0x48 || op == 0x49 || op == 0x4A || op
        == 0x4B || op == 0x4C || op == 0x4D || op == 0x4E || op == 0x57 || op == 0x59 || op == 0x5F
        || op == 0x60 || op == 0x63 || op == 0x64 || op == 0x67 || op == 0x68 || op == 0x6B || op
        == 0x6C || op == 0x6F || op == 0x70 || op == 0x87 || op == 0x8E || op == 0xAC || op == 0xB1
}

/// Opcodes decoded with a one-byte immediate.
pub open spec fn is_imm1_op(op: u8) -> bool {
    op == 0x10 || op == 0x12 || op == 0x15 || op == 0x18 || op == 0x19 || op == 0x36 || op == 0x39
        || op == 0x3A
}

/// Opcodes decoded with a two-byte big-endian immediate.
pub open spec fn is_imm2_op(op: u8) -> bool {
    op == 0x11 || op == 0x14 || op == 0x99 || op == 0x9A || op == 0x9B || op == 0x9C || op == 0x9D
        || op == 0x9E || op == 0xA7 || op == 0xB2 || op == 0xB6 || op == 0xB7 || op == 0xB8 || op
        == 0xBB
}

/// The instruction a no-immediate opcode decodes to.
pub open spec fn spec_decode_plain(op: u8) -> JvmInstruction {
    if op == 0x00 { JvmInstruction::Nop }
    else if op == 0x02 { JvmInstruction::IconstM1 }
    else if op == 0x03 { JvmInstruction::Iconst0 }
    else if op == 0x04 { JvmInstruction::Iconst1 }
    else if op == 0x05 { JvmInstruction::Iconst2 }
    else if op == 0x06 { JvmInstruction::Iconst3 }
    else if op == 0x07 { JvmInstruction::Iconst4 }
    else if op == 0x08 { JvmInstruction::Iconst5 }
    else if op == 0x0B { JvmInstruction::Lconst0 }
    else if op == 0x0E { JvmInstruction::Dconst0 }
    else if op == 0x0F { JvmInstruction::Dconst1 }
    else if op == 0x1A { JvmInstruction::Iload0 }
    else if op == 0x1B { JvmInstruction::Iload1 }
    else if op == 0x1C { JvmInstruction::Iload2 }
    else if op == 0x1D { JvmInstruction::Iload3 }
    else if op == 0x1E { JvmInstruction::Lload0 }
    else if op == 0x1F { JvmInstruction::Lload1 }
    else if op == 0x20 { JvmInstruction::Lload2 }
    else if op == 0x21 { JvmInstruction::Lload3 }
    else if op == 0x26 { JvmInstruction::Dload0 }
    else if op == 0x27 { JvmInstruction::Dload1 }
    else if op == 0x28 { JvmInstruction::Dload2 }
    else if op == 0x29 { JvmInstruction::Dload3 }
    else if op == 0x2A { JvmInstruction::Aload0 }
    else if op == 0x2B { JvmInstruction::Aload1 }
    else if op == 0x2C { JvmInstruction::Aload2 }
    else if op == 0x2D { JvmInstruction::Aload3 }
    else if op == 0x3B { JvmInstruction::Istore0 }
    else if op == 0x3C { JvmInstruction::Istore1 }
    else if op == 0x3D { JvmInstruction::Istore2 }
    else if op == 0x3E { JvmInstruction::Istore3 }
    else if op == 0x3F { JvmInstruction::Lstore0 }
    else if op == 0x40 { JvmInstruction::Lstore1 }
    else if op == 0x41 { JvmInstruction::Lstore2 }
    else if op == 0x42 { JvmInstruction::Lstore3 }
    else if op == 0x47 { JvmInstruction::Dstore0 }
    else if op == 0x48 { JvmInstruction::Dstore1 }
    else if op == 0x49 { JvmInstruction::Dstore2 }
    else if op == 0x4A { JvmInstruction::Dstore3 }
    else if op == 0x4B { JvmInstruction::Astore0 }
    else if op == 0x4C { JvmInstruction::Astore1 }
    else if op == 0x4D { JvmInstruction::Astore2 }
    else if op == 0x4E { JvmInstruction::Astore3 }
    else if op == 0x57 { JvmInstruction::Pop }
    else if op == 0x59 { JvmInstruction::Dup }
    else if op == 0x5F { JvmInstruction::Swap }
    else if op == 0x60 { JvmInstruction::Iadd }
    else if op == 0x63 { JvmInstruction::Dadd }
    else if op == 0x64 { JvmInstruction::Isub }
    else if op == 0x67 { JvmInstruction::Dsub }
    else if op == 0x68 { JvmInstruction::Imul }
    else if op == 0x6B { JvmInstruction::Dmul }
    else if op == 0x6C { JvmInstruction::Idiv }
    else if op == 0x6F { JvmInstruction::Ddiv }
    else if op == 0x70 { JvmInstruction::Irem }
    else if op == 0x87 { JvmInstruction::I2d }
    else if op == 0x8E { JvmInstruction::D2i }
    else if op == 0xAC { JvmInstruction::Ireturn }
    else { JvmInstruction::Return }
}

/// The instruction a one-immediate opcode decodes to.
pub open spec fn spec_decode_imm1(op: u8, b: u8) -> JvmInstruction {
    if op == 0x10 { JvmInstruction::Bipush(b as i8) }
    else if op == 0x12 { JvmInstruction::Ldc(b as u16) }
    else if op == 0x15 { JvmInstruction::Iload(b) }
    else if op == 0x18 { JvmInstruction::Dload(b) }
    else if op == 0x19 { JvmInstruction::Aload(b) }
    else if op == 0x36 { JvmInstruction::Istore(b) }
    else if op == 0x39 { JvmInstruction::Dstore(b) }
    else { JvmInstruction::Astore(b) }
}

/// The instruction a two-immediate opcode decodes to.
pub open spec fn spec_decode_imm2(op: u8, v: u16) -> JvmInstruction {
    if op == 0x11 { JvmInstruction::Sipush(v as i16) }
    else if op == 0x14 { JvmInstruction::Ldc2W(v) }
    else if op == 0x99 { JvmInstruction::Ifeq(v) }
    else if op == 0x9A { JvmInstruction::Ifne(v) }
    else if op == 0x9B { JvmInstruction::Iflt(v) }
    else if op == 0x9C { JvmInstruction::Ifge(v) }
    else if op == 0x9D { JvmInstruction::Ifgt(v) }
    else if op == 0x9E { JvmInstruction::Ifle(v) }
    else if op == 0xA7 { JvmInstruction::Goto(v) }
    else if op == 0xB2 { JvmInstruction::Getstatic(v) }
    else if op == 0xB6 { JvmInstruction::Invokevirtual(v) }
    else if op == 0xB7 { JvmInstruction::Invokespecial(v) }
    else if op == 0xB8 { JvmInstruction::Invokestatic(v) }
    else { JvmInstruction::New(v) }
}

/// The bytecode decoder as a function: scan from position `i` with the
/// instructions decoded so far. Unknown opcodes are skipped without
/// consuming their immediates; a truncated immediate is a fault.
pub open spec fn spec_decode_from(bytes: Seq<u8>, i: int, acc: Seq<JvmInstruction>) -> Option<
    Seq<JvmInstruction>,
>
    decreases bytes.len() - i,
{
    if i < 0 || i >= bytes.len() {
        Some(acc)
    } else {
        let op = bytes[i];
        if is_plain_op(op) {
            spec_decode_from(bytes, i + 1, acc.push(spec_decode_plain(op)))
        } else if is_imm1_op(op) {
            if i + 2 > bytes.len() {
                None
            } else {
                spec_decode_from(bytes, i + 2, acc.push(spec_decode_imm1(op, bytes[i + 1])))
            }
        } else if is_imm2_op(op) {
            if i + 3 > bytes.len() {
                None
            } else {
                spec_decode_from(
                    bytes,
                    i + 3,
                    acc.push(spec_decode_imm2(op, be16(bytes[i + 1], bytes[i + 2]))),
                )
            }
        } else {
            spec_decode_from(bytes, i + 1, acc)
        }
    }
}

/// What the bytecode decoder yields for a byte string.
pub open spec fn spec_decode(bytes: Seq<u8>) -> Option<Seq<JvmInstruction>> {
    spec_decode_from(bytes, 0, Seq::empty())
}

fn op_is_plain(op: u8) -> (r: bool)
    ensures
        r == is_plain_op(op),
{
    match op {
        0x00 | 0x02 | 0x03 | 0x04 | 0x05 | 0x06 | 0x07 | 0x08 | 0x0B | 0x0E | 0x0F | 0x1A | 0x1B
            | 0x1C | 0x1D | 0x1E | 0x1F | 0x20 | 0x21 | 0x26 | 0x27 | 0x28 | 0x29 | 0x2A | 0x2B
            | 0x2C | 0x2D | 0x3B | 0x3C | 0x3D | 0x3E | 0x3F | 0x40 | 0x41 | 0x42 | 0x47 | 0x48
            | 0x49 | 0x4A | 0x4B | 0x4C | 0x4D | 0x4E | 0x57 | 0x59 | 0x5F | 0x60 | 0x63 | 0x64
            | 0x67 | 0x68 | 0x6B | 0x6C | 0x6F | 0x70 | 0x87 | 0x8E | 0xAC | 0xB1 => true,
        _ => false,
    }
}

fn op_is_imm1(op: u8) -> (r: bool)
    ensures
        r == is_imm1_op(op),
{
    match op {
        0x10 | 0x12 | 0x15 | 0x18 | 0x19 | 0x36 | 0x39 | 0x3A => true,
        _ => false,
    }
}

fn op_is_imm2(op: u8) -> (r: bool)
    ensures
        r == is_imm2_op(op),
{
    match op {
        0x11 | 0x14 | 0x99 | 0x9A | 0x9B | 0x9C | 0x9D | 0x9E | 0xA7 | 0xB2 | 0xB6 | 0xB7 | 0xB8
            | 0xBB => true,
        _ => false,
    }
}

fn decode_plain(op: u8) -> (r: JvmInstruction)
    ensures
        r == spec_decode_plain(op),
{
    match op {
        0x00 => JvmInstruction::Nop,
        0x02 => JvmInstruction::IconstM1,
        0x03 => JvmInstruction::Iconst0,
        0x04 => JvmInstruction::Iconst1,
        0x05 => JvmInstruction::Iconst2,
        0x06 => JvmInstruction::Iconst3,
        0x07 => JvmInstruction::Iconst4,
        0x08 => JvmInstruction::Iconst5,
        0x0B => JvmInstruction::Lconst0,
        0x0E => JvmInstruction::Dconst0,
        0x0F => JvmInstruction::Dconst1,
        0x1A => JvmInstruction::Iload0,
        0x1B => JvmInstruction::Iload1,
        0x1C => JvmInstruction::Iload2,
        0x1D => JvmInstruction::Iload3,
        0x1E => JvmInstruction::Lload0,
        0x1F => JvmInstruction::Lload1,
        0x20 => JvmInstruction::Lload2,
        0x21 => JvmInstruction::Lload3,
        0x26 => JvmInstruction::Dload0,
        0x27 => JvmInstruction::Dload1,
        0x28 => JvmInstruction::Dload2,
        0x29 => JvmInstruction::Dload3,
        0x2A => JvmInstruction::Aload0,
        0x2B => JvmInstruction::Aload1,
        0x2C => JvmInstruction::Aload2,
        0x2D => JvmInstruction::Aload3,
        0x3B => JvmInstruction::Istore0,
        0x3C => JvmInstruction::Istore1,
        0x3D => JvmInstruction::Istore2,
        0x3E => JvmInstruction::Istore3,
        0x3F => JvmInstruction::Lstore0,
        0x40 => JvmInstruction::Lstore1,
        0x41 => JvmInstruction::Lstore2,
        0x42 => JvmInstruction::Lstore3,
        0x47 => JvmInstruction::Dstore0,
        0x48 => JvmInstruction::Dstore1,
        0x49 => JvmInstruction::Dstore2,
        0x4A => JvmInstruction::Dstore3,
        0x4B => JvmInstruction::Astore0,
        0x4C => JvmInstruction::Astore1,
        0x4D => JvmInstruction::Astore2,
        0x4E => JvmInstruction::Astore3,
        0x57 => JvmInstruction::Pop,
        0x59 => JvmInstruction::Dup,
        0x5F => JvmInstruction::Swap,
        0x60 => JvmInstruction::Iadd,
        0x63 => JvmInstruction::Dadd,
        0x64 => JvmInstruction::Isub,
        0x67 => JvmInstruction::Dsub,
        0x68 => JvmInstruction::Imul,
        0x6B => JvmInstruction::Dmul,
        0x6C => JvmInstruction::Idiv,
        0x6F => JvmInstruction::Ddiv,
        0x70 => JvmInstruction::Irem,
        0x87 => JvmInstruction::I2d,
        0x8E => JvmInstruction::D2i,
        0xAC => JvmInstruction::Ireturn,
        _ => JvmInstruction::Return,
    }
}

fn decode_imm1(op: u8, b: u8) -> (r: JvmInstruction)
    ensures
        r == spec_decode_imm1(op, b),
{
    match op {
        0x10 => JvmInstruction::Bipush(b as i8),
        0x12 => JvmInstruction::Ldc(b as u16),
        0x15 => JvmInstruction::Iload(b),
        0x18 => JvmInstruction::Dload(b),
        0x19 => JvmInstruction::Aload(b),
        0x36 => JvmInstruction::Istore(b),
        0x39 => JvmInstruction::Dstore(b),
        _ => JvmInstruction::Astore(b),
    }
}

fn decode_imm2(op: u8, v: u16) -> (r: JvmInstruction)
    ensures
        r == spec_decode_imm2(op, v),
{
    match op {
        0x11 => JvmInstruction::Sipush(v as i16),
        0x14 => JvmInstruction::Ldc2W(v),
        0x99 => JvmInstruction::Ifeq(v),
        0x9A => JvmInstruction::Ifne(v),
        0x9B => JvmInstruction::Iflt(v),
        0x9C => JvmInstruction::Ifge(v),
        0x9D => JvmInstruction::Ifgt(v),
        0x9E => JvmInstruction::Ifle(v),
        0xA7 => JvmInstruction::Goto(v),
        0xB2 => JvmInstruction::Getstatic(v),
        0xB6 => JvmInstruction::Invokevirtual(v),
        0xB7 => JvmInstruction::Invokespecial(v),
        0xB8 => JvmInstruction::Invokestatic(v),
        _ => JvmInstruction::New(v),
    }
}

/// Relies on the writeln macro over std::io::Stderr: prints the
/// non-fatal warning for a skipped unknown opcode.
#[verifier::external_body]
fn warn_unknown_opcode(opcode: u8, position: usize) {
    let _ = writeln!(
        std::io::stderr(),
        "Warning: Unknown opcode 0x{:02X} at position {}",
        opcode,
        position,
    );
}

/// Decode a code array into instructions, exactly as `spec_decode`
/// describes: unknown opcodes are skipped without consuming their
/// immediates, with a warning on standard error; truncated immediates
/// fault.
pub fn parse_bytecode(bytecode: &[u8]) -> (r: Result<Vec<JvmInstruction>, RuntimeError>)
    ensures
        match r {
            Ok(instrs) => spec_decode(bytecode@) == Some(instrs@),
            Err(e) => spec_decode(bytecode@) is None && e == RuntimeError::InvalidStackState,
        },
{
    let mut instructions: Vec<JvmInstruction> = Vec::new();
    let mut i: usize = 0;
    while i < bytecode.len()
        invariant
            0 <= i <= bytecode@.len(),
            spec_decode(bytecode@) == spec_decode_from(bytecode@, i as int, instructions@),
        decreases bytecode@.len() - i,
    {
        let op = bytecode[i];
        if op_is_plain(op) {
            instructions.push(decode_plain(op));
            i = i + 1;
        } else if op_is_imm1(op) {
            if bytecode.len() - i < 2 {
                return Err(RuntimeError::InvalidStackState);
            }
            let b = bytecode[i + 1];
            instructions.push(decode_imm1(op, b));
            i = i + 2;
        } else if op_is_imm2(op) {
            if bytecode.len() - i < 3 {
                return Err(RuntimeError::InvalidStackState);
            }
            let v = crate::make_u16(bytecode[i + 1], bytecode[i + 2]);
            instructions.push(decode_imm2(op, v));
            i = i + 3;
        } else {
            warn_unknown_opcode(op, i);
            i = i + 1;
        }
    }
    Ok(instructions)
}

} // verus!

verus! {

/// One parsed method: its name and descriptor resolved through the pool,
/// its decoded body, and its frame sizes.
#[derive(Debug, Clone)]
pub struct MethodInfo {
    pub name: String,
    pub descriptor: String,
    pub bytecode: Vec<JvmInstruction>,
    pub max_locals: usize,
    pub max_stack: usize,
}

/// A parsed class file: the pool, the selected main method, and every
/// method that carried code, in the order encountered.
#[derive(Debug)]
pub struct ClassFile {
    pub constant_pool: ConstantPool,
    pub main_method_bytecode: Vec<JvmInstruction>,
    pub max_locals: usize,
    pub max_stack: usize,
    pub methods: Vec<MethodInfo>,
}

/// Fetch the text of a `Utf8` entry by 1-based index; empty otherwise.
pub fn get_utf8_from_pool(constant_pool: &ConstantPool, index: u16) -> (r: String)
    ensures
        r@ == crate::pool::spec_utf8_at(constant_pool.spec_entries(), index),
{
    if index == 0 {
        return String::new();
    }
    let entries = constant_pool.entries();
    let actual_index = (index - 1) as usize;
    if actual_index < entries.len() {
        match &entries[actual_index] {
            ConstantPoolEntry::Utf8(s) => s.clone(),
            _ => String::new(),
        }
    } else {
        String::new()
    }
}

/// Whether a method name and descriptor make a main method, and whether
/// that form is the preferred one: `()V` is preferred over
/// `([Ljava/lang/String;)V`; anything else is no main method.
pub open spec fn spec_is_main_sig(name: Seq<char>, descriptor: Seq<char>) -> (bool, bool) {
    if name != "main"@ {
        (false, false)
    } else if descriptor == "()V"@ {
        (true, true)
    } else if descriptor == "([Ljava/lang/String;)V"@ {
        (true, false)
    } else {
        (false, false)
    }
}

/// Decide main-ness from the pool: the name entry must read `main` and
/// the descriptor picks the preference.
pub fn check_is_main_method(constant_pool: &ConstantPool, name_index: u16, descriptor_index: u16)
    -> (r: (bool, bool))
    ensures
        r == spec_is_main_sig(
            crate::pool::spec_utf8_at(constant_pool.spec_entries(), name_index),
            crate::pool::spec_utf8_at(constant_pool.spec_entries(), descriptor_index),
        ),
{
    let name = get_utf8_from_pool(constant_pool, name_index);
    if !crate::text::str_eq(name.as_str(), "main") {
        return (false, false);
    }
    let descriptor = get_utf8_from_pool(constant_pool, descriptor_index);
    if crate::text::str_eq(descriptor.as_str(), "()V") {
        (true, true)
    } else if crate::text::str_eq(descriptor.as_str(), "([Ljava/lang/String;)V") {
        (true, false)
    } else {
        (false, false)
    }
}

/// Whether an attribute-name index resolves to the text `Code`.
pub fn check_is_code_attribute(constant_pool: &ConstantPool, attribute_name_index: u16) -> (r:
    bool)
    ensures
        r == (crate::pool::spec_utf8_at(constant_pool.spec_entries(), attribute_name_index)
            == "Code"@),
{
    let attr_name = get_utf8_from_pool(constant_pool, attribute_name_index);
    crate::text::str_eq(attr_name.as_str(), "Code")
}

/// The constant-pool section as a function: parse entries for 1-based
/// indices `i` up to `count`, starting at byte `pos`, with the entries
/// already parsed. Yields the entry models and the position after the
/// section, or the fault the reader raises.
pub open spec fn spec_parse_pool(
    data: Seq<u8>,
    pos: int,
    i: int,
    count: int,
    acc: Seq<crate::pool::EntryModel>,
) -> Result<(Seq<crate::pool::EntryModel>, int), RuntimeError>
    decreases count - i,
{
    if i >= count {
        Ok((acc, pos))
    } else if !(0 <= pos < data.len()) {
        Err(RuntimeError::InvalidStackState)
    } else {
        let tag = data[pos];
        if tag == 1 {
            if pos + 3 > data.len() {
                Err(RuntimeError::InvalidStackState)
            } else {
                let len = be16(data[pos + 1], data[pos + 2]) as int;
                if pos + 3 + len > data.len() {
                    Err(RuntimeError::InvalidStackState)
                } else {
                    spec_parse_pool(
                        data,
                        pos + 3 + len,
                        i + 1,
                        count,
                        acc.push(
                            crate::pool::EntryModel::Utf8(
                                crate::text::lossy_of(data.subrange(pos + 3, pos + 3 + len)),
                            ),
                        ),
                    )
                }
            }
        } else if tag == 3 {
            if pos + 5 > data.len() {
                Err(RuntimeError::InvalidStackState)
            } else {
                spec_parse_pool(
                    data,
                    pos + 5,
                    i + 1,
                    count,
                    acc.push(
                        crate::pool::EntryModel::Integer(
                            be_val(data.subrange(pos + 1, pos + 5)) as u32 as i32,
                        ),
                    ),
                )
            }
        } else if tag == 4 {
            if pos + 5 > data.len() {
                Err(RuntimeError::InvalidStackState)
            } else {
                spec_parse_pool(
                    data,
                    pos + 5,
                    i + 1,
                    count,
                    acc.push(
                        crate::pool::EntryModel::Float(
                            be_val(data.subrange(pos + 1, pos + 5)) as u32,
                        ),
                    ),
                )
            }
        } else if tag == 5 {
            if pos + 9 > data.len() {
                Err(RuntimeError::InvalidStackState)
            } else {
                let acc2 = acc.push(
                    crate::pool::EntryModel::Long(
                        be_val(data.subrange(pos + 1, pos + 9)) as u64 as i64,
                    ),
                ).push(crate::pool::EntryModel::Placeholder);
                if i + 2 >= count {
                    Ok((acc2, pos + 9))
                } else {
                    spec_parse_pool(data, pos + 9, i + 2, count, acc2)
                }
            }
        } else if tag == 6 {
            if pos + 9 > data.len() {
                Err(RuntimeError::InvalidStackState)
            } else {
                let acc2 = acc.push(
                    crate::pool::EntryModel::Double(be_val(data.subrange(pos + 1, pos + 9)) as u64),
                ).push(crate::pool::EntryModel::Placeholder);
                if i + 2 >= count {
                    Ok((acc2, pos + 9))
                } else {
                    spec_parse_pool(data, pos + 9, i + 2, count, acc2)
                }
            }
        } else if tag == 7 || tag == 8 {
            if pos + 3 > data.len() {
                Err(RuntimeError::InvalidStackState)
            } else {
                let idx = be16(data[pos + 1], data[pos + 2]);
                let entry = if tag == 7 {
                    crate::pool::EntryModel::Class(idx)
                } else {
                    crate::pool::EntryModel::String(idx)
                };
                spec_parse_pool(data, pos + 3, i + 1, count, acc.push(entry))
            }
        } else if tag == 9 || tag == 10 || tag == 11 || tag == 12 {
            if pos + 5 > data.len() {
                Err(RuntimeError::InvalidStackState)
            } else {
                let a = be16(data[pos + 1], data[pos + 2]);
                let b = be16(data[pos + 3], data[pos + 4]);
                let entry = if tag == 9 {
                    crate::pool::EntryModel::Fieldref(a, b)
                } else if tag == 12 {
                    crate::pool::EntryModel::NameAndType(a, b)
                } else {
                    crate::pool::EntryModel::Methodref(a, b)
                };
                spec_parse_pool(data, pos + 5, i + 1, count, acc.push(entry))
            }
        } else if tag == 15 {
            if pos + 4 > data.len() {
                Err(RuntimeError::InvalidStackState)
            } else {
                spec_parse_pool(
                    data,
                    pos + 4,
                    i + 1,
                    count,
                    acc.push(crate::pool::EntryModel::Placeholder),
                )
            }
        } else if tag == 16 {
            if pos + 3 > data.len() {
                Err(RuntimeError::InvalidStackState)
            } else {
                spec_parse_pool(
                    data,
                    pos + 3,
                    i + 1,
                    count,
                    acc.push(crate::pool::EntryModel::Placeholder),
                )
            }
        } else if tag == 18 {
            if pos + 5 > data.len() {
                Err(RuntimeError::InvalidStackState)
            } else {
                spec_parse_pool(
                    data,
                    pos + 5,
                    i + 1,
                    count,
                    acc.push(crate::pool::EntryModel::Placeholder),
                )
            }
        } else {
            Err(RuntimeError::UnknownConstantPoolTag { tag, index: i as u16 })
        }
    }
}

/// Which stored method the reader selects as main: walking in order, a
/// preferred main (`()V`) always replaces the selection, and a fallback
/// main (`([Ljava/lang/String;)V`) is taken only when nothing is selected
/// yet.
pub open spec fn spec_select_main(ms: Seq<MethodInfo>) -> Option<int>
    decreases ms.len(),
{
    if ms.len() == 0 {
        None
    } else {
        let prev = spec_select_main(ms.drop_last());
        let sig = spec_is_main_sig(ms.last().name@, ms.last().descriptor@);
        if sig.0 && (prev is None || sig.1) {
            Some(ms.len() - 1)
        } else {
            prev
        }
    }
}

/// The selected main method's body and frame sizes stand in the class
/// file; with no main, they are empty and zero.
pub open spec fn spec_main_selected(
    ms: Seq<MethodInfo>,
    main_bc: Seq<JvmInstruction>,
    max_locals: usize,
    max_stack: usize,
) -> bool {
    match spec_select_main(ms) {
        Some(j) => main_bc == ms[j].bytecode@ && max_locals == ms[j].max_locals && max_stack
            == ms[j].max_stack,
        None => main_bc.len() == 0 && max_locals == 0 && max_stack == 0,
    }
}

/// Advance past `n` bytes; `InvalidStackState` when fewer remain.
fn skip_bytes(data: &[u8], pos: &mut usize, n: usize) -> (r: Result<(), RuntimeError>)
    ensures
        match r {
            Ok(_) => *old(pos) + n <= data@.len() && *final(pos) == *old(pos) + n,
            Err(e) => *old(pos) + n > data@.len() && e == RuntimeError::InvalidStackState
                && *final(pos) == *old(pos),
        },
{
    if *pos <= data.len() && data.len() - *pos >= n {
        *pos = *pos + n;
        Ok(())
    } else {
        Err(RuntimeError::InvalidStackState)
    }
}

/// A selected main method is an index into the method list.
proof fn lemma_select_main_range(ms: Seq<MethodInfo>)
    ensures
        spec_select_main(ms) matches Some(j) ==> 0 <= j < ms.len(),
    decreases ms.len(),
{
    if ms.len() > 0 {
        lemma_select_main_range(ms.drop_last());
    }
}

/// Parse the constant-pool section: entries for 1-based indices up to
/// `constant_pool_count`, exactly as `spec_parse_pool` describes.
#[verifier::loop_isolation(false)]
#[verifier::rlimit(60)]
fn parse_pool_section(data: &[u8], pos: &mut usize, constant_pool_count: u16) -> (r: Result<
    ConstantPool,
    RuntimeError,
>)
    ensures
        match r {
            Ok(cp) => spec_parse_pool(
                data@,
                *old(pos) as int,
                1,
                constant_pool_count as int,
                Seq::empty(),
            ) == Ok::<(Seq<crate::pool::EntryModel>, int), RuntimeError>(
                (crate::pool::pool_model(cp.spec_entries()), *final(pos) as int),
            ),
            Err(e) => spec_parse_pool(
                data@,
                *old(pos) as int,
                1,
                constant_pool_count as int,
                Seq::empty(),
            ) == Err::<(Seq<crate::pool::EntryModel>, int), RuntimeError>(e),
        },
{
    let ghost count = constant_pool_count as int;
    let ghost start = *pos as int;
    let mut constant_pool = ConstantPool::new();
    proof {
        assert(crate::pool::pool_model(constant_pool.spec_entries()) =~= Seq::<
            crate::pool::EntryModel,
        >::empty());
    }

    let mut i: u32 = 1;
    while i < constant_pool_count as u32
        invariant
            1 <= i <= count + 1,
            constant_pool.spec_entries().len() == i - 1,
            spec_parse_pool(data@, start, 1, count, Seq::empty()) == spec_parse_pool(
                data@,
                *pos as int,
                i as int,
                count,
                crate::pool::pool_model(constant_pool.spec_entries()),
            ),
        decreases count + 1 - i,
    {
        let ghost entries_before = constant_pool.spec_entries();
        let tag = match read_u8(data, pos) {
            Ok(v) => v,
            Err(e) => {
                return Err(e);
            },
        };
        match tag {
            1 => {
                let length = match read_u16(data, pos) {
                    Ok(v) => v,
                    Err(e) => {
                        return Err(e);
                    },
                };
                if data.len() - *pos < length as usize {
                    return Err(RuntimeError::InvalidStackState);
                }
                let bytes = vstd::slice::slice_subrange(data, *pos, *pos + length as usize);
                *pos = *pos + length as usize;
                let utf8_string = crate::text::utf8_lossy(bytes);
                constant_pool.add_utf8(utf8_string);
            },
            3 => {
                let value = match read_i32(data, pos) {
                    Ok(v) => v,
                    Err(e) => {
                        return Err(e);
                    },
                };
                constant_pool.add_integer(value);
            },
            4 => {
                let value = match read_u32(data, pos) {
                    Ok(v) => v,
                    Err(e) => {
                        return Err(e);
                    },
                };
                constant_pool.add_float(value);
            },
            5 => {
                let value = match read_i64(data, pos) {
                    Ok(v) => v,
                    Err(e) => {
                        return Err(e);
                    },
                };
                constant_pool.add_long(value);
                i = i + 1;
            },
            6 => {
                let value = match read_u64(data, pos) {
                    Ok(v) => v,
                    Err(e) => {
                        return Err(e);
                    },
                };
                constant_pool.add_double(value);
                i = i + 1;
            },
            7 => {
                let name_index = match read_u16(data, pos) {
                    Ok(v) => v,
                    Err(e) => {
                        return Err(e);
                    },
                };
                constant_pool.add_class(name_index);
            },
            8 => {
                let string_index = match read_u16(data, pos) {
                    Ok(v) => v,
                    Err(e) => {
                        return Err(e);
                    },
                };
                constant_pool.add_string(string_index);
            },
            9 => {
                let class_index = match read_u16(data, pos) {
                    Ok(v) => v,
                    Err(e) => {
                        return Err(e);
                    },
                };
                let name_and_type_index = match read_u16(data, pos) {
                    Ok(v) => v,
                    Err(e) => {
                        return Err(e);
                    },
                };
                constant_pool.add_fieldref(class_index, name_and_type_index);
            },
            10 | 11 => {
                let class_index = match read_u16(data, pos) {
                    Ok(v) => v,
                    Err(e) => {
                        return Err(e);
                    },
                };
                let name_and_type_index = match read_u16(data, pos) {
                    Ok(v) => v,
                    Err(e) => {
                        return Err(e);
                    },
                };
                constant_pool.add_methodref(class_index, name_and_type_index);
            },
            12 => {
                let name_index = match read_u16(data, pos) {
                    Ok(v) => v,
                    Err(e) => {
                        return Err(e);
                    },
                };
                let descriptor_index = match read_u16(data, pos) {
                    Ok(v) => v,
                    Err(e) => {
                        return Err(e);
                    },
                };
                constant_pool.add_name_and_type(name_index, descriptor_index);
            },
            15 => {
                let _reference_kind = match read_u8(data, pos) {
                    Ok(v) => v,
                    Err(e) => {
                        return Err(e);
                    },
                };
                let _reference_index = match read_u16(data, pos) {
                    Ok(v) => v,
                    Err(e) => {
                        return Err(e);
                    },
                };
                constant_pool.add_placeholder();
            },
            16 => {
                let _descriptor_index = match read_u16(data, pos) {
                    Ok(v) => v,
                    Err(e) => {
                        return Err(e);
                    },
                };
                constant_pool.add_placeholder();
            },
            18 => {
                let _bootstrap_method_attr_index = match read_u16(data, pos) {
                    Ok(v) => v,
                    Err(e) => {
                        return Err(e);
                    },
                };
                let _name_and_type_index = match read_u16(data, pos) {
                    Ok(v) => v,
                    Err(e) => {
                        return Err(e);
                    },
                };
                constant_pool.add_placeholder();
            },
            _ => {
                return Err(RuntimeError::UnknownConstantPoolTag { tag, index: i as u16 });
            },
        }
        proof {
            if tag == 5 || tag == 6 {
                let e1 = constant_pool.spec_entries()[constant_pool.spec_entries().len() - 2];
                crate::pool::lemma_pool_model_push(entries_before, e1);
                crate::pool::lemma_pool_model_push(
                    entries_before.push(e1),
                    ConstantPoolEntry::Placeholder,
                );
            } else {
                crate::pool::lemma_pool_model_push(
                    entries_before,
                    constant_pool.spec_entries().last(),
                );
            }
        }
        i = i + 1;
    }
    Ok(constant_pool)
}

/// Skip the fields section, exactly as `spec_parse_fields` describes.
#[verifier::loop_isolation(false)]
#[verifier::rlimit(60)]
fn skip_fields_section(data: &[u8], pos: &mut usize, fields_count: u16) -> (r: Result<
    (),
    RuntimeError,
>)
    ensures
        match r {
            Ok(_) => spec_parse_fields(data@, *old(pos) as int, fields_count as int) == Ok::<
                int,
                RuntimeError,
            >(*final(pos) as int),
            Err(e) => spec_parse_fields(data@, *old(pos) as int, fields_count as int) == Err::<
                int,
                RuntimeError,
            >(e),
        },
{
    let ghost fstart = *pos as int;
    let mut f: u32 = 0;
    while f < fields_count as u32
        invariant
            0 <= f <= fields_count,
            spec_parse_fields(data@, fstart, fields_count as int) == spec_parse_fields(
                data@,
                *pos as int,
                fields_count - f,
            ),
        decreases fields_count as int - f,
    {
        match skip_bytes(data, pos, 6) {
            Ok(_) => (),
            Err(e) => {
                return Err(e);
            },
        }
        let attributes_count = match read_u16(data, pos) {
            Ok(v) => v,
            Err(e) => {
                return Err(e);
            },
        };
        let ghost astart = *pos as int;
        let mut a: u32 = 0;
        while a < attributes_count as u32
            invariant
                0 <= a <= attributes_count,
                spec_skip_attributes(data@, astart, attributes_count as int)
                    == spec_skip_attributes(data@, *pos as int, attributes_count - a),
            decreases attributes_count as int - a,
        {
            let _attribute_name_index = match read_u16(data, pos) {
                Ok(v) => v,
                Err(e) => {
                    return Err(e);
                },
            };
            let attribute_length = match read_u32(data, pos) {
                Ok(v) => v,
                Err(e) => {
                    return Err(e);
                },
            };
            match skip_bytes(data, pos, attribute_length as usize) {
                Ok(_) => (),
                Err(e) => {
                    return Err(e);
                },
            }
            a = a + 1;
        }
        f = f + 1;
    }
    Ok(())
}

/// Parse the methods section: every method with a non-empty decoded body
/// is stored in order, exactly as `spec_parse_methods` describes, and the
/// main method obeys the selection rule.
#[verifier::loop_isolation(false)]
#[verifier::rlimit(100)]
#[verifier::spinoff_prover]
fn parse_methods_section(
    data: &[u8],
    pos: &mut usize,
    methods_count: u16,
    constant_pool: &ConstantPool,
) -> (r: Result<(Vec<MethodInfo>, Vec<JvmInstruction>, usize, usize), RuntimeError>)
    ensures
        match r {
            Ok(out) => {
                &&& spec_parse_methods(
                    data@,
                    *old(pos) as int,
                    0,
                    methods_count as int,
                    crate::pool::pool_model(constant_pool.spec_entries()),
                    Seq::empty(),
                ) == Ok::<(Seq<MethodModel>, int), RuntimeError>(
                    (methods_model(out.0@), *final(pos) as int),
                )
                &&& forall|j: int|
                    0 <= j < out.0@.len() ==> (#[trigger] out.0@[j]).bytecode@.len() > 0
                &&& spec_main_selected(out.0@, out.1@, out.2, out.3)
            },
            Err(e) => spec_parse_methods(
                data@,
                *old(pos) as int,
                0,
                methods_count as int,
                crate::pool::pool_model(constant_pool.spec_entries()),
                Seq::empty(),
            ) == Err::<(Seq<MethodModel>, int), RuntimeError>(e),
        },
{
    let ghost em = crate::pool::pool_model(constant_pool.spec_entries());
    let ghost mstart = *pos as int;
    let mut main_method_bytecode: Vec<JvmInstruction> = Vec::new();
    let mut max_locals: usize = 0;
    let mut max_stack: usize = 0;
    let mut methods: Vec<MethodInfo> = Vec::new();
    proof {
        assert(methods_model(methods@) =~= Seq::<MethodModel>::empty());
    }

    let mut m: u32 = 0;
    while m < methods_count as u32
        invariant
            0 <= m <= methods_count,
            forall|j: int| 0 <= j < methods@.len() ==> (#[trigger] methods@[j]).bytecode@.len() > 0,
            spec_main_selected(methods@, main_method_bytecode@, max_locals, max_stack),
            spec_parse_methods(data@, mstart, 0, methods_count as int, em, Seq::empty())
                == spec_parse_methods(
                data@,
                *pos as int,
                m as int,
                methods_count as int,
                em,
                methods_model(methods@),
            ),
        decreases methods_count as int - m,
    {
        let _access_flags = match read_u16(data, pos) {
            Ok(v) => v,
            Err(e) => {
                return Err(e);
            },
        };
        let name_index = match read_u16(data, pos) {
            Ok(v) => v,
            Err(e) => {
                return Err(e);
            },
        };
        let descriptor_index = match read_u16(data, pos) {
            Ok(v) => v,
            Err(e) => {
                return Err(e);
            },
        };
        let attributes_count = match read_u16(data, pos) {
            Ok(v) => v,
            Err(e) => {
                return Err(e);
            },
        };

        let method_name = get_utf8_from_pool(constant_pool, name_index);
        let method_descriptor = get_utf8_from_pool(constant_pool, descriptor_index);
        proof {
            crate::pool::lemma_model_utf8(constant_pool.spec_entries(), name_index);
            crate::pool::lemma_model_utf8(constant_pool.spec_entries(), descriptor_index);
        }
        let (is_main_method, is_preferred) = check_is_main_method(
            constant_pool,
            name_index,
            descriptor_index,
        );

        let mut method_bytecode: Vec<JvmInstruction> = Vec::new();
        let mut method_max_locals: usize = 0;
        let mut method_max_stack: usize = 0;

        let ghost attrs_start = *pos as int;
        let mut a: u32 = 0;
        while a < attributes_count as u32
            invariant
                0 <= a <= attributes_count,
                spec_parse_method_attrs(
                    data@,
                    attrs_start,
                    attributes_count as int,
                    em,
                    (Seq::<JvmInstruction>::empty(), 0, 0),
                ) == spec_parse_method_attrs(
                    data@,
                    *pos as int,
                    attributes_count - a,
                    em,
                    (method_bytecode@, method_max_locals as int, method_max_stack as int),
                ),
            decreases attributes_count as int - a,
        {
            let attribute_name_index = match read_u16(data, pos) {
                Ok(v) => v,
                Err(e) => {
                    return Err(e);
                },
            };
            let attribute_length = match read_u32(data, pos) {
                Ok(v) => v,
                Err(e) => {
                    return Err(e);
                },
            };
            proof {
                crate::pool::lemma_model_utf8(constant_pool.spec_entries(), attribute_name_index);
            }
            if check_is_code_attribute(constant_pool, attribute_name_index) {
                let ms = match read_u16(data, pos) {
                    Ok(v) => v,
                    Err(e) => {
                        return Err(e);
                    },
                };
                method_max_stack = ms as usize;
                let ml = match read_u16(data, pos) {
                    Ok(v) => v,
                    Err(e) => {
                        return Err(e);
                    },
                };
                method_max_locals = ml as usize;
                let code_length = match read_u32(data, pos) {
                    Ok(v) => v,
                    Err(e) => {
                        return Err(e);
                    },
                };
                if data.len() - *pos < code_length as usize {
                    return Err(RuntimeError::InvalidStackState);
                }
                let code = vstd::slice::slice_subrange(data, *pos, *pos + code_length as usize);
                *pos = *pos + code_length as usize;
                method_bytecode = match parse_bytecode(code) {
                    Ok(v) => v,
                    Err(e) => {
                        return Err(e);
                    },
                };
                let exception_table_length = match read_u16(data, pos) {
                    Ok(v) => v,
                    Err(e) => {
                        return Err(e);
                    },
                };
                match skip_bytes(data, pos, 8 * exception_table_length as usize) {
                    Ok(_) => (),
                    Err(e) => {
                        return Err(e);
                    },
                }
                let code_attributes_count = match read_u16(data, pos) {
                    Ok(v) => v,
                    Err(e) => {
                        return Err(e);
                    },
                };
                let ghost castart = *pos as int;
                let mut ca: u32 = 0;
                while ca < code_attributes_count as u32
                    invariant
                        0 <= ca <= code_attributes_count,
                        spec_skip_attributes(data@, castart, code_attributes_count as int)
                            == spec_skip_attributes(data@, *pos as int, code_attributes_count - ca),
                    decreases code_attributes_count as int - ca,
                {
                    let _code_attribute_name_index = match read_u16(data, pos) {
                        Ok(v) => v,
                        Err(e) => {
                            return Err(e);
                        },
                    };
                    let code_attribute_length = match read_u32(data, pos) {
                        Ok(v) => v,
                        Err(e) => {
                            return Err(e);
                        },
                    };
                    match skip_bytes(data, pos, code_attribute_length as usize) {
                        Ok(_) => (),
                        Err(e) => {
                            return Err(e);
                        },
                    }
                    ca = ca + 1;
                }
            } else {
                match skip_bytes(data, pos, attribute_length as usize) {
                    Ok(_) => (),
                    Err(e) => {
                        return Err(e);
                    },
                }
            }
            a = a + 1;
        }

        if method_bytecode.len() > 0 {
            let method_info = MethodInfo {
                name: method_name,
                descriptor: method_descriptor,
                bytecode: copy_instructions(&method_bytecode),
                max_locals: method_max_locals,
                max_stack: method_max_stack,
            };
            let ghost methods_before = methods@;
            let ghost main_bc_before = main_method_bytecode@;
            methods.push(method_info);
            proof {
                assert(methods@.drop_last() =~= methods_before);
                lemma_methods_model_push(methods_before, methods@.last());
                lemma_select_main_range(methods_before);
                if spec_select_main(methods_before) is Some {
                    let j = choose|j: int| spec_select_main(methods_before) == Some(j);
                    assert(methods_before[j].bytecode@.len() > 0);
                    assert(main_bc_before.len() > 0);
                }
            }
            if is_main_method && (main_method_bytecode.len() == 0 || is_preferred) {
                main_method_bytecode = method_bytecode;
                max_locals = method_max_locals;
                max_stack = method_max_stack;
                proof {
                    assert(spec_select_main(methods@) == Some(methods@.len() - 1));
                    assert(methods@.last().bytecode@ == main_method_bytecode@);
                }
            } else {
                proof {
                    assert(spec_select_main(methods@) == spec_select_main(methods_before));
                    if spec_select_main(methods_before) is Some {
                        let j = choose|j: int| spec_select_main(methods_before) == Some(j);
                        assert(methods@[j] == methods_before[j]);
                    }
                }
            }
        }
        m = m + 1;
    }
    Ok((methods, main_method_bytecode, max_locals, max_stack))
}

pub struct ClassFileParser;

impl ClassFileParser {
    /// Parse a class file, exactly as `spec_class_structure` describes:
    /// magic, version, constant pool, and the methods with their `Code`
    /// attributes. Success is owed precisely on the byte strings the
    /// structure spec accepts; the pool and the stored methods then equal
    /// the spec's, every stored method has a non-empty body, and the main
    /// method obeys the selection rule.
    #[verifier::loop_isolation(false)]
    #[verifier::rlimit(100)]
    #[verifier::spinoff_prover]
    pub fn parse(data: &[u8]) -> (r: Result<ClassFile, RuntimeError>)
        ensures
            match r {
                Ok(cf) => match spec_class_structure(data@) {
                    Ok(parsed) => {
                        &&& crate::pool::pool_model(cf.constant_pool.spec_entries()) == parsed.0
                        &&& methods_model(cf.methods@) == parsed.1
                        &&& forall|j: int|
                            0 <= j < cf.methods@.len() ==> (
                            #[trigger] cf.methods@[j]).bytecode@.len() > 0
                        &&& spec_main_selected(
                            cf.methods@,
                            cf.main_method_bytecode@,
                            cf.max_locals,
                            cf.max_stack,
                        )
                    },
                    Err(_) => false,
                },
                Err(e) => spec_class_structure(data@) == Err::<
                    (Seq<crate::pool::EntryModel>, Seq<MethodModel>),
                    RuntimeError,
                >(e),
            },
    {
        let mut pos: usize = 0;
        let magic = match read_u32(data, &mut pos) {
            Ok(v) => v,
            Err(e) => {
                return Err(e);
            },
        };
        if magic != 0xCAFEBABE {
            return Err(RuntimeError::InvalidStackState);
        }
        let _minor_version = match read_u16(data, &mut pos) {
            Ok(v) => v,
            Err(e) => {
                return Err(e);
            },
        };
        let _major_version = match read_u16(data, &mut pos) {
            Ok(v) => v,
            Err(e) => {
                return Err(e);
            },
        };
        let constant_pool_count = match read_u16(data, &mut pos) {
            Ok(v) => v,
            Err(e) => {
                return Err(e);
            },
        };
        let constant_pool = match parse_pool_section(data, &mut pos, constant_pool_count) {
            Ok(cp) => cp,
            Err(e) => {
                return Err(e);
            },
        };

        let ghost em = crate::pool::pool_model(constant_pool.spec_entries());
        let ghost p0 = pos as int;
        proof {
            assert(spec_class_structure(data@) == (match spec_class_methods(data@, em, p0) {
                Ok(ms) => Ok::<(Seq<crate::pool::EntryModel>, Seq<MethodModel>), RuntimeError>(
                    (em, ms),
                ),
                Err(e) => Err(e),
            }));
        }

        let _access_flags = match read_u16(data, &mut pos) {
            Ok(v) => v,
            Err(e) => {
                return Err(e);
            },
        };
        let _this_class = match read_u16(data, &mut pos) {
            Ok(v) => v,
            Err(e) => {
                return Err(e);
            },
        };
        let _super_class = match read_u16(data, &mut pos) {
            Ok(v) => v,
            Err(e) => {
                return Err(e);
            },
        };

        let interfaces_count = match read_u16(data, &mut pos) {
            Ok(v) => v,
            Err(e) => {
                return Err(e);
            },
        };
        match skip_bytes(data, &mut pos, 2 * interfaces_count as usize) {
            Ok(_) => (),
            Err(e) => {
                return Err(e);
            },
        }

        let fields_count = match read_u16(data, &mut pos) {
            Ok(v) => v,
            Err(e) => {
                return Err(e);
            },
        };
        match skip_fields_section(data, &mut pos, fields_count) {
            Ok(_) => (),
            Err(e) => {
                return Err(e);
            },
        }

        let methods_count = match read_u16(data, &mut pos) {
            Ok(v) => v,
            Err(e) => {
                return Err(e);
            },
        };
        let (methods, main_method_bytecode, max_locals, max_stack) = match parse_methods_section(
            data,
            &mut pos,
            methods_count,
            &constant_pool,
        ) {
            Ok(out) => out,
            Err(e) => {
                return Err(e);
            },
        };

        Ok(
            ClassFile {
                constant_pool,
                main_method_bytecode,
                max_locals,
                max_stack,
                methods,
            },
        )
    }
}

} // verus!

verus! {

/// One parsed method seen abstractly: its resolved name and descriptor
/// text, its decoded body, and its frame sizes.
pub struct MethodModel {
    pub name: Seq<char>,
    pub descriptor: Seq<char>,
    pub bytecode: Seq<JvmInstruction>,
    pub max_locals: int,
    pub max_stack: int,
}

/// The model of one stored method.
pub open spec fn method_model(m: MethodInfo) -> MethodModel {
    MethodModel {
        name: m.name@,
        descriptor: m.descriptor@,
        bytecode: m.bytecode@,
        max_locals: m.max_locals as int,
        max_stack: m.max_stack as int,
    }
}

/// The model of a stored method list.
pub open spec fn methods_model(ms: Seq<MethodInfo>) -> Seq<MethodModel> {
    ms.map_values(|m: MethodInfo| method_model(m))
}

/// A model push mirrors a method push.
pub proof fn lemma_methods_model_push(ms: Seq<MethodInfo>, m: MethodInfo)
    ensures
        methods_model(ms.push(m)) == methods_model(ms).push(method_model(m)),
{
    assert(methods_model(ms.push(m)) =~= methods_model(ms).push(method_model(m)));
}

/// Whether `n` bytes are available at `pos`.
pub open spec fn spec_has(data: Seq<u8>, pos: int, n: int) -> bool {
    0 <= pos && 0 <= n && pos + n <= data.len()
}

/// The big-endian u16 at `pos`.
pub open spec fn spec_u16_at(data: Seq<u8>, pos: int) -> u16 {
    be16(data[pos], data[pos + 1])
}

/// The big-endian u32 at `pos`, as an integer.
pub open spec fn spec_u32_at(data: Seq<u8>, pos: int) -> int {
    be_val(data.subrange(pos, pos + 4))
}

/// Skip `count` attributes, each a name index, a length, and that many
/// bytes; yields the position after them.
pub open spec fn spec_skip_attributes(data: Seq<u8>, pos: int, count: int) -> Result<
    int,
    RuntimeError,
>
    decreases count,
{
    if count <= 0 {
        Ok(pos)
    } else if !spec_has(data, pos, 6) {
        Err(RuntimeError::InvalidStackState)
    } else {
        let alen = spec_u32_at(data, pos + 2);
        if !spec_has(data, pos + 6, alen) {
            Err(RuntimeError::InvalidStackState)
        } else {
            spec_skip_attributes(data, pos + 6 + alen, count - 1)
        }
    }
}

/// Skip `count` fields, each six fixed bytes, an attribute count, and its
/// attributes; yields the position after them.
pub open spec fn spec_parse_fields(data: Seq<u8>, pos: int, count: int) -> Result<
    int,
    RuntimeError,
>
    decreases count,
{
    if count <= 0 {
        Ok(pos)
    } else if !spec_has(data, pos, 8) {
        Err(RuntimeError::InvalidStackState)
    } else {
        match spec_skip_attributes(data, pos + 8, spec_u16_at(data, pos + 6) as int) {
            Ok(p2) => spec_parse_fields(data, p2, count - 1),
            Err(e) => Err(e),
        }
    }
}

/// One `Code` attribute: the frame sizes, the decoded body, the skipped
/// exception table and nested attributes; yields what was read and the
/// position after.
pub open spec fn spec_parse_code_attr(data: Seq<u8>, pos: int) -> Result<
    ((int, int, Seq<JvmInstruction>), int),
    RuntimeError,
> {
    if !spec_has(data, pos, 8) {
        Err(RuntimeError::InvalidStackState)
    } else {
        let ms = spec_u16_at(data, pos) as int;
        let ml = spec_u16_at(data, pos + 2) as int;
        let clen = spec_u32_at(data, pos + 4);
        if !spec_has(data, pos + 8, clen) {
            Err(RuntimeError::InvalidStackState)
        } else {
            match spec_decode(data.subrange(pos + 8, pos + 8 + clen)) {
                None => Err(RuntimeError::InvalidStackState),
                Some(ins) => {
                    let p1 = pos + 8 + clen;
                    if !spec_has(data, p1, 2) {
                        Err(RuntimeError::InvalidStackState)
                    } else {
                        let ex = spec_u16_at(data, p1) as int;
                        if !spec_has(data, p1 + 2, 8 * ex) {
                            Err(RuntimeError::InvalidStackState)
                        } else {
                            let p2 = p1 + 2 + 8 * ex;
                            if !spec_has(data, p2, 2) {
                                Err(RuntimeError::InvalidStackState)
                            } else {
                                match spec_skip_attributes(
                                    data,
                                    p2 + 2,
                                    spec_u16_at(data, p2) as int,
                                ) {
                                    Ok(p3) => Ok(((ms, ml, ins), p3)),
                                    Err(e) => Err(e),
                                }
                            }
                        }
                    }
                },
            }
        }
    }
}

/// Walk `count` method attributes: each `Code` attribute replaces the
/// body and frame sizes read so far, every other attribute is skipped.
pub open spec fn spec_parse_method_attrs(
    data: Seq<u8>,
    pos: int,
    count: int,
    entries: Seq<crate::pool::EntryModel>,
    cur: (Seq<JvmInstruction>, int, int),
) -> Result<((Seq<JvmInstruction>, int, int), int), RuntimeError>
    decreases count,
{
    if count <= 0 {
        Ok((cur, pos))
    } else if !spec_has(data, pos, 6) {
        Err(RuntimeError::InvalidStackState)
    } else {
        let aname = spec_u16_at(data, pos);
        let alen = spec_u32_at(data, pos + 2);
        if crate::pool::model_utf8_at(entries, aname) == "Code"@ {
            match spec_parse_code_attr(data, pos + 6) {
                Ok(parsed) => spec_parse_method_attrs(
                    data,
                    parsed.1,
                    count - 1,
                    entries,
                    (parsed.0.2, parsed.0.1, parsed.0.0),
                ),
                Err(e) => Err(e),
            }
        } else {
            if !spec_has(data, pos + 6, alen) {
                Err(RuntimeError::InvalidStackState)
            } else {
                spec_parse_method_attrs(data, pos + 6 + alen, count - 1, entries, cur)
            }
        }
    }
}

/// Walk `count` methods from index `m`: each yields its name, descriptor
/// and `Code` content, and is stored when its body is non-empty.
pub open spec fn spec_parse_methods(
    data: Seq<u8>,
    pos: int,
    m: int,
    count: int,
    entries: Seq<crate::pool::EntryModel>,
    acc: Seq<MethodModel>,
) -> Result<(Seq<MethodModel>, int), RuntimeError>
    decreases count - m,
{
    if m >= count {
        Ok((acc, pos))
    } else if !spec_has(data, pos, 8) {
        Err(RuntimeError::InvalidStackState)
    } else {
        let name_idx = spec_u16_at(data, pos + 2);
        let desc_idx = spec_u16_at(data, pos + 4);
        let acount = spec_u16_at(data, pos + 6) as int;
        match spec_parse_method_attrs(data, pos + 8, acount, entries, (Seq::empty(), 0, 0)) {
            Ok(parsed) => {
                let acc2 = if parsed.0.0.len() > 0 {
                    acc.push(
                        MethodModel {
                            name: crate::pool::model_utf8_at(entries, name_idx),
                            descriptor: crate::pool::model_utf8_at(entries, desc_idx),
                            bytecode: parsed.0.0,
                            max_locals: parsed.0.1,
                            max_stack: parsed.0.2,
                        },
                    )
                } else {
                    acc
                };
                spec_parse_methods(data, parsed.1, m + 1, count, entries, acc2)
            },
            Err(e) => Err(e),
        }
    }
}

/// Everything a class file holds after its constant pool: the skipped
/// class header and interfaces and fields, then the stored methods.
pub open spec fn spec_class_methods(
    data: Seq<u8>,
    entries: Seq<crate::pool::EntryModel>,
    p0: int,
) -> Result<Seq<MethodModel>, RuntimeError> {
    if !spec_has(data, p0, 8) {
        Err(RuntimeError::InvalidStackState)
    } else {
        let icount = spec_u16_at(data, p0 + 6) as int;
        if !spec_has(data, p0 + 8, 2 * icount) {
            Err(RuntimeError::InvalidStackState)
        } else {
            let p1 = p0 + 8 + 2 * icount;
            if !spec_has(data, p1, 2) {
                Err(RuntimeError::InvalidStackState)
            } else {
                match spec_parse_fields(data, p1 + 2, spec_u16_at(data, p1) as int) {
                    Err(e) => Err(e),
                    Ok(p2) => {
                        if !spec_has(data, p2, 2) {
                            Err(RuntimeError::InvalidStackState)
                        } else {
                            match spec_parse_methods(
                                data,
                                p2 + 2,
                                0,
                                spec_u16_at(data, p2) as int,
                                entries,
                                Seq::empty(),
                            ) {
                                Ok(parsed) => Ok(parsed.0),
                                Err(e) => Err(e),
                            }
                        }
                    },
                }
            }
        }
    }
}

/// The whole class file as a function of its bytes: the pool entries and
/// the stored methods, or the fault the reader raises.
pub open spec fn spec_class_structure(data: Seq<u8>) -> Result<
    (Seq<crate::pool::EntryModel>, Seq<MethodModel>),
    RuntimeError,
> {
    if data.len() < 10 {
        Err(RuntimeError::InvalidStackState)
    } else if be_val(data.subrange(0, 4)) != 0xCAFEBABE {
        Err(RuntimeError::InvalidStackState)
    } else {
        let count = be16(data[8], data[9]) as int;
        match spec_parse_pool(data, 10, 1, count, Seq::empty()) {
            Err(e) => Err(e),
            Ok(pool_parsed) => {
                match spec_class_methods(data, pool_parsed.0, pool_parsed.1) {
                    Ok(ms) => Ok((pool_parsed.0, ms)),
                    Err(e) => Err(e),
                }
            },
        }
    }
}

} // verus!
