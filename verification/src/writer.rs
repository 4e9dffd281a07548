//! The class-file writer: the inverse of the reader for the instructions
//! it supports, and the emitter for generated dice programs. What the
//! writer emits and the reader then ingests comes back instruction for
//! instruction; unsupported instructions are written as `Nop`.

use vstd::prelude::*;
use crate::be16;
use crate::instr::JvmInstruction;
use crate::pool::ConstantPool;
use crate::pool::ConstantPoolEntry;
use crate::reader::is_imm1_op;
use crate::reader::is_imm2_op;
use crate::reader::is_plain_op;
use crate::reader::spec_decode;
use crate::reader::spec_decode_from;
use crate::reader::spec_decode_imm1;
use crate::reader::spec_decode_imm2;
use crate::reader::spec_decode_plain;

verus! {

/// The high byte of a big-endian u16.
pub open spec fn hi8(x: u16) -> u8 {
    (x / 256) as u8
}

/// The low byte of a big-endian u16.
pub open spec fn lo8(x: u16) -> u8 {
    (x % 256) as u8
}

/// The bytes one instruction is written as. Instructions outside the
/// writer's set become a single `Nop` byte; an `Ldc` index is written as
/// its low byte.
pub open spec fn spec_encode_one(x: JvmInstruction) -> Seq<u8> {
    match x {
        JvmInstruction::Iconst0 => seq![0x03u8],
        JvmInstruction::Iconst1 => seq![0x04u8],
        JvmInstruction::Iconst2 => seq![0x05u8],
        JvmInstruction::Iconst3 => seq![0x06u8],
        JvmInstruction::Iconst4 => seq![0x07u8],
        JvmInstruction::Iconst5 => seq![0x08u8],
        JvmInstruction::IconstM1 => seq![0x02u8],
        JvmInstruction::Bipush(v) => seq![0x10u8, v as u8],
        JvmInstruction::Sipush(v) => seq![0x11u8, hi8(v as u16), lo8(v as u16)],
        JvmInstruction::Ldc(k) => seq![0x12u8, lo8(k)],
        JvmInstruction::Dup => seq![0x59u8],
        JvmInstruction::Pop => seq![0x57u8],
        JvmInstruction::Swap => seq![0x5Fu8],
        JvmInstruction::Iadd => seq![0x60u8],
        JvmInstruction::Isub => seq![0x64u8],
        JvmInstruction::Imul => seq![0x68u8],
        JvmInstruction::Idiv => seq![0x6Cu8],
        JvmInstruction::Irem => seq![0x70u8],
        JvmInstruction::Dadd => seq![0x63u8],
        JvmInstruction::Dsub => seq![0x67u8],
        JvmInstruction::Dmul => seq![0x6Bu8],
        JvmInstruction::Ddiv => seq![0x6Fu8],
        JvmInstruction::I2d => seq![0x87u8],
        JvmInstruction::D2i => seq![0x8Eu8],
        JvmInstruction::Dconst0 => seq![0x0Eu8],
        JvmInstruction::Dconst1 => seq![0x0Fu8],
        JvmInstruction::Getstatic(k) => seq![0xB2u8, hi8(k), lo8(k)],
        JvmInstruction::Invokestatic(k) => seq![0xB8u8, hi8(k), lo8(k)],
        JvmInstruction::Invokevirtual(k) => seq![0xB6u8, hi8(k), lo8(k)],
        JvmInstruction::Return => seq![0xB1u8],
        JvmInstruction::Ireturn => seq![0xACu8],
        JvmInstruction::Nop => seq![0x00u8],
        _ => seq![0x00u8],
    }
}

/// The bytes an instruction stream is written as.
pub open spec fn spec_encode(s: Seq<JvmInstruction>) -> Seq<u8>
    decreases s.len(),
{
    if s.len() == 0 {
        Seq::empty()
    } else {
        spec_encode_one(s[0]) + spec_encode(s.skip(1))
    }
}

/// What an instruction becomes after writing and reading it back:
/// itself for the writer's set (with an `Ldc` index reduced to its low
/// byte), `Nop` for the rest.
pub open spec fn spec_writer_round(x: JvmInstruction) -> JvmInstruction {
    match x {
        JvmInstruction::Iconst0 => x,
        JvmInstruction::Iconst1 => x,
        JvmInstruction::Iconst2 => x,
        JvmInstruction::Iconst3 => x,
        JvmInstruction::Iconst4 => x,
        JvmInstruction::Iconst5 => x,
        JvmInstruction::IconstM1 => x,
        JvmInstruction::Bipush(_) => x,
        JvmInstruction::Sipush(_) => x,
        JvmInstruction::Ldc(k) => JvmInstruction::Ldc((k % 256) as u16),
        JvmInstruction::Dup => x,
        JvmInstruction::Pop => x,
        JvmInstruction::Swap => x,
        JvmInstruction::Iadd => x,
        JvmInstruction::Isub => x,
        JvmInstruction::Imul => x,
        JvmInstruction::Idiv => x,
        JvmInstruction::Irem => x,
        JvmInstruction::Dadd => x,
        JvmInstruction::Dsub => x,
        JvmInstruction::Dmul => x,
        JvmInstruction::Ddiv => x,
        JvmInstruction::I2d => x,
        JvmInstruction::D2i => x,
        JvmInstruction::Dconst0 => x,
        JvmInstruction::Dconst1 => x,
        JvmInstruction::Getstatic(_) => x,
        JvmInstruction::Invokestatic(_) => x,
        JvmInstruction::Invokevirtual(_) => x,
        JvmInstruction::Return => x,
        JvmInstruction::Ireturn => x,
        JvmInstruction::Nop => x,
        _ => JvmInstruction::Nop,
    }
}

/// What one written instruction looks like to the reader: its first byte
/// classifies it, and decoding it yields the written-and-read-back form.
proof fn lemma_encode_one_decodes(x: JvmInstruction)
    ensures
        1 <= spec_encode_one(x).len() <= 3,
        spec_encode_one(x).len() == 1 ==> is_plain_op(spec_encode_one(x)[0]) && spec_decode_plain(
            spec_encode_one(x)[0],
        ) == spec_writer_round(x),
        spec_encode_one(x).len() == 2 ==> is_imm1_op(spec_encode_one(x)[0]) && spec_decode_imm1(
            spec_encode_one(x)[0],
            spec_encode_one(x)[1],
        ) == spec_writer_round(x),
        spec_encode_one(x).len() == 3 ==> is_imm2_op(spec_encode_one(x)[0]) && spec_decode_imm2(
            spec_encode_one(x)[0],
            be16(spec_encode_one(x)[1], spec_encode_one(x)[2]),
        ) == spec_writer_round(x),
{
    match x {
        JvmInstruction::Bipush(v) => {
            assert(((v as u8) as i8) == v) by (bit_vector);
        },
        JvmInstruction::Sipush(v) => {
            let w = v as u16;
            assert(w / 256 < 256);
            assert(w == (w / 256) * 256 + w % 256);
            assert(be16(hi8(w), lo8(w)) == w);
            assert(((v as u16) as i16) == v) by (bit_vector);
        },
        JvmInstruction::Ldc(k) => {
            assert(lo8(k) as u16 == (k % 256) as u16);
        },
        JvmInstruction::Getstatic(k) => {
            assert(k / 256 < 256);
            assert(k == (k / 256) * 256 + k % 256);
            assert(be16(hi8(k), lo8(k)) == k);
        },
        JvmInstruction::Invokestatic(k) => {
            assert(k / 256 < 256);
            assert(k == (k / 256) * 256 + k % 256);
            assert(be16(hi8(k), lo8(k)) == k);
        },
        JvmInstruction::Invokevirtual(k) => {
            assert(k / 256 < 256);
            assert(k == (k / 256) * 256 + k % 256);
            assert(be16(hi8(k), lo8(k)) == k);
        },
        _ => {},
    }
}

/// Decoding from position `i` of a byte string whose tail from `i` is an
/// encoded stream yields the instructions already decoded followed by the
/// written-and-read-back stream.
proof fn lemma_decode_encoded(
    b: Seq<u8>,
    i: int,
    s: Seq<JvmInstruction>,
    acc: Seq<JvmInstruction>,
)
    requires
        0 <= i <= b.len(),
        b.skip(i) == spec_encode(s),
    ensures
        spec_decode_from(b, i, acc) == Some(acc + s.map_values(|x| spec_writer_round(x))),
    decreases s.len(),
{
    let rounds = s.map_values(|x| spec_writer_round(x));
    if s.len() == 0 {
        assert(b.skip(i).len() == 0);
        assert(acc + rounds =~= acc);
    } else {
        let x = s[0];
        let e = spec_encode_one(x);
        let tail = spec_encode(s.skip(1));
        lemma_encode_one_decodes(x);
        assert(b.skip(i) == e + tail);
        assert forall|j: int| 0 <= j < e.len() implies b[i + j] == e[j] by {
            assert(b.skip(i)[j] == b[i + j]);
            assert((e + tail)[j] == e[j]);
        }
        let i2 = i + e.len();
        assert(b.skip(i2) =~= tail) by {
            assert(forall|j: int|
                0 <= j < b.skip(i2).len() ==> b.skip(i2)[j] == b.skip(i)[e.len() + j]);
        }
        lemma_decode_encoded(b, i2, s.skip(1), acc.push(spec_writer_round(x)));
        assert(acc.push(spec_writer_round(x)) + s.skip(1).map_values(|x| spec_writer_round(x))
            =~= acc + rounds);
        if e.len() == 1 {
            assert(spec_decode_from(b, i, acc) == spec_decode_from(
                b,
                i + 1,
                acc.push(spec_decode_plain(b[i])),
            ));
        } else if e.len() == 2 {
            assert(i + 2 <= b.len());
            assert(spec_decode_from(b, i, acc) == spec_decode_from(
                b,
                i + 2,
                acc.push(spec_decode_imm1(b[i], b[i + 1])),
            ));
        } else {
            assert(i + 3 <= b.len());
            assert(spec_decode_from(b, i, acc) == spec_decode_from(
                b,
                i + 3,
                acc.push(spec_decode_imm2(b[i], be16(b[i + 1], b[i + 2]))),
            ));
        }
    }
}

/// Round trip: for every instruction stream, writing it and reading the
/// bytes back yields the stream again, with each instruction outside the
/// writer's set standing as `Nop` and each `Ldc` index reduced to its low
/// byte.
pub proof fn lemma_write_read_round_trip(s: Seq<JvmInstruction>)
    ensures
        spec_decode(spec_encode(s)) == Some(s.map_values(|x| spec_writer_round(x))),
{
    let b = spec_encode(s);
    assert(b.skip(0) =~= b);
    lemma_decode_encoded(b, 0, s, Seq::empty());
    assert(Seq::<JvmInstruction>::empty() + s.map_values(|x| spec_writer_round(x)) =~= s.map_values(
        |x| spec_writer_round(x),
    ));
}

/// A stream of writer-supported instructions with small `Ldc` indices
/// comes back exactly equal.
pub proof fn lemma_round_trip_identity(s: Seq<JvmInstruction>)
    requires
        forall|j: int| 0 <= j < s.len() ==> spec_writer_round(#[trigger] s[j]) == s[j],
    ensures
        spec_decode(spec_encode(s)) == Some(s),
{
    lemma_write_read_round_trip(s);
    assert(s.map_values(|x| spec_writer_round(x)) =~= s);
}

fn push1(bytes: &mut Vec<u8>, b0: u8)
    ensures
        final(bytes)@ == old(bytes)@ + seq![b0],
{
    bytes.push(b0);
    proof {
        assert(final(bytes)@ =~= old(bytes)@ + seq![b0]);
    }
}

fn push2(bytes: &mut Vec<u8>, b0: u8, b1: u8)
    ensures
        final(bytes)@ == old(bytes)@ + seq![b0, b1],
{
    bytes.push(b0);
    bytes.push(b1);
    proof {
        assert(final(bytes)@ =~= old(bytes)@ + seq![b0, b1]);
    }
}

/// Append a u16 in big-endian order.
fn push_u16_be(bytes: &mut Vec<u8>, x: u16)
    ensures
        final(bytes)@ == old(bytes)@ + seq![hi8(x), lo8(x)],
{
    let h = (x / 256) as u8;
    let l = (x % 256) as u8;
    push2(bytes, h, l);
}

/// The big-endian bytes of a u32.
pub open spec fn be_bytes4(x: u32) -> Seq<u8> {
    seq![
        ((x / 0x1000000) % 256) as u8,
        ((x / 0x10000) % 256) as u8,
        ((x / 0x100) % 256) as u8,
        (x % 256) as u8,
    ]
}

/// The big-endian bytes of a u64.
pub open spec fn be_bytes8(x: u64) -> Seq<u8> {
    seq![
        ((x / 0x100000000000000) % 256) as u8,
        ((x / 0x1000000000000) % 256) as u8,
        ((x / 0x10000000000) % 256) as u8,
        ((x / 0x100000000) % 256) as u8,
        ((x / 0x1000000) % 256) as u8,
        ((x / 0x10000) % 256) as u8,
        ((x / 0x100) % 256) as u8,
        (x % 256) as u8,
    ]
}

/// Append a u32 in big-endian order.
fn push_u32_be(bytes: &mut Vec<u8>, x: u32)
    ensures
        final(bytes)@ == old(bytes)@ + be_bytes4(x),
{
    bytes.push(((x / 0x1000000) % 256) as u8);
    bytes.push(((x / 0x10000) % 256) as u8);
    bytes.push(((x / 0x100) % 256) as u8);
    bytes.push((x % 256) as u8);
    proof {
        assert(final(bytes)@ =~= old(bytes)@ + be_bytes4(x));
    }
}

/// Append a u64 in big-endian order.
fn push_u64_be(bytes: &mut Vec<u8>, x: u64)
    ensures
        final(bytes)@ == old(bytes)@ + be_bytes8(x),
{
    bytes.push(((x / 0x100000000000000) % 256) as u8);
    bytes.push(((x / 0x1000000000000) % 256) as u8);
    bytes.push(((x / 0x10000000000) % 256) as u8);
    bytes.push(((x / 0x100000000) % 256) as u8);
    bytes.push(((x / 0x1000000) % 256) as u8);
    bytes.push(((x / 0x10000) % 256) as u8);
    bytes.push(((x / 0x100) % 256) as u8);
    bytes.push((x % 256) as u8);
    proof {
        assert(final(bytes)@ =~= old(bytes)@ + be_bytes8(x));
    }
}

/// Append the encoding of one instruction.
fn encode_instruction(ins: JvmInstruction, bytes: &mut Vec<u8>)
    ensures
        final(bytes)@ == old(bytes)@ + spec_encode_one(ins),
{
    match ins {
        JvmInstruction::Iconst0 => push1(bytes, 0x03),
        JvmInstruction::Iconst1 => push1(bytes, 0x04),
        JvmInstruction::Iconst2 => push1(bytes, 0x05),
        JvmInstruction::Iconst3 => push1(bytes, 0x06),
        JvmInstruction::Iconst4 => push1(bytes, 0x07),
        JvmInstruction::Iconst5 => push1(bytes, 0x08),
        JvmInstruction::IconstM1 => push1(bytes, 0x02),
        JvmInstruction::Bipush(value) => {
            let b = #[verifier::truncate] (value as u8);
            push2(bytes, 0x10, b);
        },
        JvmInstruction::Sipush(value) => {
            let w = #[verifier::truncate] (value as u16);
            push1(bytes, 0x11);
            push_u16_be(bytes, w);
            proof {
                assert(final(bytes)@ =~= old(bytes)@ + spec_encode_one(ins));
            }
        },
        JvmInstruction::Ldc(index) => {
            let b = (index % 256) as u8;
            push2(bytes, 0x12, b);
        },
        JvmInstruction::Dup => push1(bytes, 0x59),
        JvmInstruction::Pop => push1(bytes, 0x57),
        JvmInstruction::Swap => push1(bytes, 0x5F),
        JvmInstruction::Iadd => push1(bytes, 0x60),
        JvmInstruction::Isub => push1(bytes, 0x64),
        JvmInstruction::Imul => push1(bytes, 0x68),
        JvmInstruction::Idiv => push1(bytes, 0x6C),
        JvmInstruction::Irem => push1(bytes, 0x70),
        JvmInstruction::Dadd => push1(bytes, 0x63),
        JvmInstruction::Dsub => push1(bytes, 0x67),
        JvmInstruction::Dmul => push1(bytes, 0x6B),
        JvmInstruction::Ddiv => push1(bytes, 0x6F),
        JvmInstruction::I2d => push1(bytes, 0x87),
        JvmInstruction::D2i => push1(bytes, 0x8E),
        JvmInstruction::Dconst0 => push1(bytes, 0x0E),
        JvmInstruction::Dconst1 => push1(bytes, 0x0F),
        JvmInstruction::Getstatic(index) => {
            push1(bytes, 0xB2);
            push_u16_be(bytes, index);
            proof {
                assert(final(bytes)@ =~= old(bytes)@ + spec_encode_one(ins));
            }
        },
        JvmInstruction::Invokestatic(index) => {
            push1(bytes, 0xB8);
            push_u16_be(bytes, index);
            proof {
                assert(final(bytes)@ =~= old(bytes)@ + spec_encode_one(ins));
            }
        },
        JvmInstruction::Invokevirtual(index) => {
            push1(bytes, 0xB6);
            push_u16_be(bytes, index);
            proof {
                assert(final(bytes)@ =~= old(bytes)@ + spec_encode_one(ins));
            }
        },
        JvmInstruction::Return => push1(bytes, 0xB1),
        JvmInstruction::Ireturn => push1(bytes, 0xAC),
        JvmInstruction::Nop => push1(bytes, 0x00),
        _ => push1(bytes, 0x00),
    }
}

/// Appending one instruction's bytes extends the stream's encoding.
proof fn lemma_encode_push(s: Seq<JvmInstruction>, x: JvmInstruction)
    ensures
        spec_encode(s.push(x)) == spec_encode(s) + spec_encode_one(x),
    decreases s.len(),
{
    if s.len() == 0 {
        assert(s.push(x).skip(1) =~= Seq::<JvmInstruction>::empty());
        assert(s.push(x)[0] == x);
        assert(spec_encode(s.push(x)) == spec_encode_one(x) + spec_encode(
            Seq::<JvmInstruction>::empty(),
        ));
        assert(spec_encode_one(x) + Seq::<u8>::empty() =~= spec_encode(s) + spec_encode_one(x));
    } else {
        assert(s.push(x).skip(1) =~= s.skip(1).push(x));
        lemma_encode_push(s.skip(1), x);
        assert(s.push(x)[0] == s[0]);
        assert(spec_encode(s.push(x)) == spec_encode_one(s[0]) + spec_encode(s.skip(1).push(x)));
        assert(spec_encode(s) == spec_encode_one(s[0]) + spec_encode(s.skip(1)));
        assert(spec_encode_one(s[0]) + (spec_encode(s.skip(1)) + spec_encode_one(x)) =~= (
        spec_encode_one(s[0]) + spec_encode(s.skip(1))) + spec_encode_one(x));
    }
}

/// Serialize an instruction stream, exactly as `spec_encode` describes.
pub fn instructions_to_bytes(instructions: &Vec<JvmInstruction>) -> (r: Vec<u8>)
    ensures
        r@ == spec_encode(instructions@),
{
    let mut bytes: Vec<u8> = Vec::new();
    let mut i: usize = 0;
    while i < instructions.len()
        invariant
            0 <= i <= instructions@.len(),
            bytes@ == spec_encode(instructions@.take(i as int)),
        decreases instructions@.len() - i,
    {
        encode_instruction(instructions[i], &mut bytes);
        proof {
            assert(instructions@.take(i as int + 1) =~= instructions@.take(i as int).push(
                instructions@[i as int],
            ));
            lemma_encode_push(instructions@.take(i as int), instructions@[i as int]);
        }
        i = i + 1;
    }
    proof {
        assert(instructions@.take(instructions@.len() as int) =~= instructions@);
    }
    bytes
}

} // verus!

verus! {

/// The bytes one constant-pool entry is written as; a `Placeholder` is
/// not emitted.
pub open spec fn spec_encode_entry(e: ConstantPoolEntry) -> Seq<u8> {
    match e {
        ConstantPoolEntry::Utf8(s) => {
            let bs = vstd::utf8::encode_utf8(s@);
            seq![1u8, hi8(bs.len() as u16), lo8(bs.len() as u16)] + bs
        },
        ConstantPoolEntry::Class(i) => seq![7u8, hi8(i), lo8(i)],
        ConstantPoolEntry::String(i) => seq![8u8, hi8(i), lo8(i)],
        ConstantPoolEntry::Fieldref(c, n) => seq![9u8, hi8(c), lo8(c), hi8(n), lo8(n)],
        ConstantPoolEntry::Methodref(c, n) => seq![10u8, hi8(c), lo8(c), hi8(n), lo8(n)],
        ConstantPoolEntry::NameAndType(a, b) => seq![12u8, hi8(a), lo8(a), hi8(b), lo8(b)],
        ConstantPoolEntry::Integer(v) => seq![3u8] + be_bytes4(v as u32),
        ConstantPoolEntry::Float(bits) => seq![4u8] + be_bytes4(bits),
        ConstantPoolEntry::Long(v) => seq![5u8] + be_bytes8(v as u64),
        ConstantPoolEntry::Double(bits) => seq![6u8] + be_bytes8(bits),
        ConstantPoolEntry::Placeholder => Seq::empty(),
    }
}

/// The bytes a whole entry sequence is written as, in index order.
pub open spec fn spec_encode_pool(s: Seq<ConstantPoolEntry>) -> Seq<u8>
    decreases s.len(),
{
    if s.len() == 0 {
        Seq::empty()
    } else {
        spec_encode_pool(s.drop_last()) + spec_encode_entry(s.last())
    }
}

/// The number of entries that are written, that is, all but placeholders.
pub open spec fn count_non_placeholder(s: Seq<ConstantPoolEntry>) -> int
    decreases s.len(),
{
    if s.len() == 0 {
        0
    } else {
        count_non_placeholder(s.drop_last()) + if s.last() is Placeholder {
            0int
        } else {
            1int
        }
    }
}

proof fn lemma_count_non_placeholder_le_len(s: Seq<ConstantPoolEntry>)
    ensures
        0 <= count_non_placeholder(s) <= s.len(),
    decreases s.len(),
{
    if s.len() > 0 {
        lemma_count_non_placeholder_le_len(s.drop_last());
    }
}

/// Append the encoding of one entry.
fn write_entry(e: &ConstantPoolEntry, bytes: &mut Vec<u8>)
    ensures
        final(bytes)@ == old(bytes)@ + spec_encode_entry(*e),
{
    match e {
        ConstantPoolEntry::Utf8(s) => {
            let ghost start = bytes@;
            bytes.push(1);
            let bs = s.as_str().as_bytes();
            let l = #[verifier::truncate] (bs.len() as u16);
            push_u16_be(bytes, l);
            let mut j: usize = 0;
            while j < bs.len()
                invariant
                    0 <= j <= bs@.len(),
                    bytes@ == start + seq![1u8, hi8(bs@.len() as u16), lo8(bs@.len() as u16)]
                        + bs@.take(j as int),
                decreases bs@.len() - j,
            {
                bytes.push(bs[j]);
                proof {
                    assert(bs@.take(j as int + 1) =~= bs@.take(j as int).push(bs@[j as int]));
                    assert(bytes@ =~= start + seq![
                        1u8,
                        hi8(bs@.len() as u16),
                        lo8(bs@.len() as u16),
                    ] + bs@.take(j as int + 1));
                }
                j = j + 1;
            }
            proof {
                assert(bs@.take(bs@.len() as int) =~= bs@);
                assert(bytes@ =~= start + spec_encode_entry(*e));
            }
        },
        ConstantPoolEntry::Class(i) => {
            bytes.push(7);
            push_u16_be(bytes, *i);
            proof {
                assert(bytes@ =~= old(bytes)@ + spec_encode_entry(*e));
            }
        },
        ConstantPoolEntry::String(i) => {
            bytes.push(8);
            push_u16_be(bytes, *i);
            proof {
                assert(bytes@ =~= old(bytes)@ + spec_encode_entry(*e));
            }
        },
        ConstantPoolEntry::Fieldref(c, n) => {
            bytes.push(9);
            push_u16_be(bytes, *c);
            push_u16_be(bytes, *n);
            proof {
                assert(bytes@ =~= old(bytes)@ + spec_encode_entry(*e));
            }
        },
        ConstantPoolEntry::Methodref(c, n) => {
            bytes.push(10);
            push_u16_be(bytes, *c);
            push_u16_be(bytes, *n);
            proof {
                assert(bytes@ =~= old(bytes)@ + spec_encode_entry(*e));
            }
        },
        ConstantPoolEntry::NameAndType(a, b) => {
            bytes.push(12);
            push_u16_be(bytes, *a);
            push_u16_be(bytes, *b);
            proof {
                assert(bytes@ =~= old(bytes)@ + spec_encode_entry(*e));
            }
        },
        ConstantPoolEntry::Integer(v) => {
            bytes.push(3);
            let w = #[verifier::truncate] (*v as u32);
            push_u32_be(bytes, w);
            proof {
                assert(bytes@ =~= old(bytes)@ + spec_encode_entry(*e));
            }
        },
        ConstantPoolEntry::Float(bits) => {
            bytes.push(4);
            push_u32_be(bytes, *bits);
            proof {
                assert(bytes@ =~= old(bytes)@ + spec_encode_entry(*e));
            }
        },
        ConstantPoolEntry::Long(v) => {
            bytes.push(5);
            let w = #[verifier::truncate] (*v as u64);
            push_u64_be(bytes, w);
            proof {
                assert(bytes@ =~= old(bytes)@ + spec_encode_entry(*e));
            }
        },
        ConstantPoolEntry::Double(bits) => {
            bytes.push(6);
            push_u64_be(bytes, *bits);
            proof {
                assert(bytes@ =~= old(bytes)@ + spec_encode_entry(*e));
            }
        },
        ConstantPoolEntry::Placeholder => {
            proof {
                assert(bytes@ =~= old(bytes)@ + spec_encode_entry(*e));
            }
        },
    }
}

/// The dice program's constant pool, as the generator lays it out: the
/// class and intrinsic names, the descriptors, the `Total: ` literal, and
/// the symbolic references the generated code addresses by fixed index.
pub open spec fn spec_dice_pool(class_name: Seq<char>) -> Seq<crate::pool::EntryModel> {
    seq![
        crate::pool::EntryModel::Utf8(class_name),
        crate::pool::EntryModel::Utf8("java/lang/Object"@),
        crate::pool::EntryModel::Utf8("main"@),
        crate::pool::EntryModel::Utf8("([Ljava/lang/String;)V"@),
        crate::pool::EntryModel::Utf8("Code"@),
        crate::pool::EntryModel::Utf8("java/lang/System"@),
        crate::pool::EntryModel::Utf8("out"@),
        crate::pool::EntryModel::Utf8("err"@),
        crate::pool::EntryModel::Utf8("Ljava/io/PrintStream;"@),
        crate::pool::EntryModel::Utf8("java/io/PrintStream"@),
        crate::pool::EntryModel::Utf8("println"@),
        crate::pool::EntryModel::Utf8("(I)V"@),
        crate::pool::EntryModel::Utf8("java/lang/Math"@),
        crate::pool::EntryModel::Utf8("random"@),
        crate::pool::EntryModel::Utf8("()D"@),
        crate::pool::EntryModel::Utf8("Total: "@),
        crate::pool::EntryModel::Utf8("print"@),
        crate::pool::EntryModel::Utf8("(Ljava/lang/String;)V"@),
        crate::pool::EntryModel::Class(1),
        crate::pool::EntryModel::Class(2),
        crate::pool::EntryModel::Class(6),
        crate::pool::EntryModel::Class(10),
        crate::pool::EntryModel::Class(13),
        crate::pool::EntryModel::String(16),
        crate::pool::EntryModel::NameAndType(3, 4),
        crate::pool::EntryModel::NameAndType(7, 9),
        crate::pool::EntryModel::NameAndType(8, 9),
        crate::pool::EntryModel::NameAndType(11, 12),
        crate::pool::EntryModel::NameAndType(17, 18),
        crate::pool::EntryModel::NameAndType(14, 15),
        crate::pool::EntryModel::Fieldref(21, 26),
        crate::pool::EntryModel::Fieldref(21, 27),
        crate::pool::EntryModel::Methodref(22, 28),
        crate::pool::EntryModel::Methodref(22, 29),
        crate::pool::EntryModel::Methodref(23, 30),
    ]
}

/// The instructions that push a small integer constant.
pub open spec fn spec_push_int(value: i32) -> Seq<JvmInstruction> {
    if value == -1 {
        seq![JvmInstruction::IconstM1]
    } else if value == 0 {
        seq![JvmInstruction::Iconst0]
    } else if value == 1 {
        seq![JvmInstruction::Iconst1]
    } else if value == 2 {
        seq![JvmInstruction::Iconst2]
    } else if value == 3 {
        seq![JvmInstruction::Iconst3]
    } else if value == 4 {
        seq![JvmInstruction::Iconst4]
    } else if value == 5 {
        seq![JvmInstruction::Iconst5]
    } else if -128 <= value <= 127 {
        seq![JvmInstruction::Bipush(value as i8)]
    } else {
        seq![JvmInstruction::Sipush(value as i16)]
    }
}

/// The instructions that push a whole-number double constant: the double
/// constants for zero and one, else the integer pushed and widened.
pub open spec fn spec_push_double(faces: u32) -> Seq<JvmInstruction> {
    if faces == 0 {
        seq![JvmInstruction::Dconst0]
    } else if faces == 1 {
        seq![JvmInstruction::Dconst1]
    } else {
        spec_push_int(faces as i32) + seq![JvmInstruction::I2d]
    }
}

/// One roll: `Math.random() * faces + 1` truncated to an int.
pub open spec fn spec_roll_block(faces: u32) -> Seq<JvmInstruction> {
    seq![JvmInstruction::Invokestatic(35u16)] + spec_push_double(faces) + seq![
        JvmInstruction::Dmul,
        JvmInstruction::Dconst1,
        JvmInstruction::Dadd,
        JvmInstruction::D2i,
    ]
}

/// A single die: roll once and print to `System.out`.
pub open spec fn spec_single_dice(faces: u32) -> Seq<JvmInstruction> {
    spec_roll_block(faces) + seq![
        JvmInstruction::Getstatic(31u16),
        JvmInstruction::Swap,
        JvmInstruction::Invokevirtual(33u16),
    ]
}

/// One die of a multi-roll: roll, print, and add to the running total.
pub open spec fn spec_multi_block(faces: u32) -> Seq<JvmInstruction> {
    spec_roll_block(faces) + seq![
        JvmInstruction::Dup,
        JvmInstruction::Getstatic(31u16),
        JvmInstruction::Swap,
        JvmInstruction::Invokevirtual(33u16),
        JvmInstruction::Iadd,
    ]
}

/// `count` repetitions of the multi-roll block.
pub open spec fn spec_multi_repeat(count: int, faces: u32) -> Seq<JvmInstruction>
    decreases count,
{
    if count <= 0 {
        Seq::empty()
    } else {
        spec_multi_repeat(count - 1, faces) + spec_multi_block(faces)
    }
}

/// Multiple dice: a zero total, the rolls, then `Total: ` and the sum
/// printed to `System.err`.
pub open spec fn spec_multiple_dice(count: u32, faces: u32) -> Seq<JvmInstruction> {
    seq![JvmInstruction::Iconst0] + spec_multi_repeat(count as int, faces) + seq![
        JvmInstruction::Dup,
        JvmInstruction::Getstatic(32u16),
        JvmInstruction::Ldc(24u16),
        JvmInstruction::Invokevirtual(34u16),
        JvmInstruction::Getstatic(32u16),
        JvmInstruction::Swap,
        JvmInstruction::Invokevirtual(33u16),
        JvmInstruction::Pop,
    ]
}

/// The whole dice program: one of the two roll shapes, then `Return`.
pub open spec fn spec_dice_instructions(count: u32, faces: u32) -> Seq<JvmInstruction> {
    (if count == 1 {
        spec_single_dice(faces)
    } else {
        spec_multiple_dice(count, faces)
    }) + seq![JvmInstruction::Return]
}

} // verus!

verus! {

/// Append one instruction.
fn push_instr(v: &mut Vec<JvmInstruction>, x: JvmInstruction)
    ensures
        final(v)@ == old(v)@ + seq![x],
{
    v.push(x);
    proof {
        assert(final(v)@ =~= old(v)@ + seq![x]);
    }
}

/// The full class-file byte image the writer emits: magic, version 52,
/// the pool (placeholders reserved but not written), fixed class shape,
/// and one `main` method whose `Code` attribute carries the instruction
/// stream.
pub open spec fn spec_class_file_bytes(entries: Seq<ConstantPoolEntry>, code: Seq<u8>) -> Seq<u8> {
    seq![0xCAu8, 0xFEu8, 0xBAu8, 0xBEu8, 0u8, 0u8, 0u8, 52u8] + seq![
        hi8((count_non_placeholder(entries) + 1) as u16),
        lo8((count_non_placeholder(entries) + 1) as u16),
    ] + spec_encode_pool(entries) + seq![
        0x00u8,
        0x21u8,
        0u8,
        19u8,
        0u8,
        20u8,
        0u8,
        0u8,
        0u8,
        0u8,
        0u8,
        1u8,
    ] + spec_main_method_bytes(code) + seq![0u8, 0u8]
}

/// The `Code` attribute's length field: the code length plus the twelve
/// fixed bytes, reduced to 32 bits as the format stores it.
#[verifier::opaque]
pub open spec fn attr_len_field(code_len: int) -> u32 {
    (((code_len % 0x100000000) + 12) % 0x100000000) as u32
}

/// The code-length field, reduced to 32 bits as the format stores it.
#[verifier::opaque]
pub open spec fn code_len_field(code_len: int) -> u32 {
    (code_len % 0x100000000) as u32
}

/// The bytes of the one `main` method the writer emits.
pub open spec fn spec_main_method_bytes(code: Seq<u8>) -> Seq<u8> {
    seq![0x00u8, 0x09u8, 0u8, 3u8, 0u8, 4u8, 0u8, 1u8, 0u8, 5u8] + be_bytes4(
        attr_len_field(code.len() as int),
    ) + seq![0u8, 5u8, 0u8, 2u8] + be_bytes4(code_len_field(code.len() as int)) + code + seq![
        0u8,
        0u8,
        0u8,
        0u8,
    ]
}

/// Splitting the trailer and grouping the intro does not change the
/// concatenation.
proof fn lemma_concat_shape6(
    o: Seq<u8>,
    h: Seq<u8>,
    a: Seq<u8>,
    m: Seq<u8>,
    c: Seq<u8>,
    code: Seq<u8>,
    t: Seq<u8>,
)
    ensures
        o + (h + a + m + c) + code + t + t == o + (h + a + m + c + code + (t + t)),
{
    assert(o + (h + a + m + c) + code + t + t =~= o + (h + a + m + c + code + (t + t)));
}

/// The written size fields carry the values the format stores.
proof fn lemma_size_field_values(code_len: int, x: u32, y: u32)
    requires
        code_len >= 0,
        x as int == ((code_len % 0x100000000) + 12) % 0x100000000,
        y as int == code_len % 0x100000000,
    ensures
        x == attr_len_field(code_len),
        y == code_len_field(code_len),
{
    reveal(attr_len_field);
    reveal(code_len_field);
}

/// The emitted pieces assemble into the method byte image.
proof fn lemma_main_assemble(o: Seq<u8>, built: Seq<u8>, code: Seq<u8>, x: u32, y: u32)
    requires
        built == o + (seq![0x00u8, 0x09u8, 0u8, 3u8, 0u8, 4u8, 0u8, 1u8, 0u8, 5u8] + be_bytes4(x)
            + seq![0u8, 5u8, 0u8, 2u8] + be_bytes4(y)) + code + seq![0u8, 0u8] + seq![0u8, 0u8],
        x as int == ((code.len() % 0x100000000) + 12) % 0x100000000,
        y as int == code.len() % 0x100000000,
    ensures
        built == o + spec_main_method_bytes(code),
{
    let h = seq![0x00u8, 0x09u8, 0u8, 3u8, 0u8, 4u8, 0u8, 1u8, 0u8, 5u8];
    let m = seq![0u8, 5u8, 0u8, 2u8];
    let t = seq![0u8, 0u8];
    lemma_size_field_values(code.len() as int, x, y);
    assert(be_bytes4(attr_len_field(code.len() as int)) == be_bytes4(x));
    assert(be_bytes4(code_len_field(code.len() as int)) == be_bytes4(y));
    assert(t + t =~= seq![0u8, 0u8, 0u8, 0u8]);
    lemma_concat_shape6(o, h, be_bytes4(x), m, be_bytes4(y), code, t);
}

/// Append the fixed method header and the `Code` attribute's size fields.
fn emit_method_intro(bytes: &mut Vec<u8>, attribute_length: u32, code_length: u32)
    ensures
        final(bytes)@ == old(bytes)@ + (seq![
            0x00u8,
            0x09u8,
            0u8,
            3u8,
            0u8,
            4u8,
            0u8,
            1u8,
            0u8,
            5u8,
        ] + be_bytes4(attribute_length) + seq![0u8, 5u8, 0u8, 2u8] + be_bytes4(code_length)),
{
    push2(bytes, 0x00, 0x09);
    push2(bytes, 0, 3);
    push2(bytes, 0, 4);
    push2(bytes, 0, 1);
    push2(bytes, 0, 5);
    push_u32_be(bytes, attribute_length);
    push2(bytes, 0, 5);
    push2(bytes, 0, 2);
    push_u32_be(bytes, code_length);
    proof {
        assert(final(bytes)@ =~= old(bytes)@ + (seq![
            0x00u8,
            0x09u8,
            0u8,
            3u8,
            0u8,
            4u8,
            0u8,
            1u8,
            0u8,
            5u8,
        ] + be_bytes4(attribute_length) + seq![0u8, 5u8, 0u8, 2u8] + be_bytes4(code_length)));
    }
}

/// Append a whole byte vector.
fn append_bytes(bytes: &mut Vec<u8>, src: &Vec<u8>)
    ensures
        final(bytes)@ == old(bytes)@ + src@,
{
    let mut j: usize = 0;
    while j < src.len()
        invariant
            0 <= j <= src@.len(),
            bytes@ == old(bytes)@ + src@.take(j as int),
        decreases src@.len() - j,
    {
        bytes.push(src[j]);
        proof {
            assert(bytes@ =~= old(bytes)@ + src@.take(j as int + 1));
        }
        j = j + 1;
    }
    proof {
        assert(src@.take(src@.len() as int) =~= src@);
    }
}

/// The complete class-file generator for dice programs: it owns the pool
/// it lays out and the name of the class it emits.
pub struct JavaClassGenerator {
    constant_pool: ConstantPool,
    class_name: String,
}

impl JavaClassGenerator {
    /// The generator's pool entries.
    pub closed spec fn spec_pool(&self) -> Seq<ConstantPoolEntry> {
        self.constant_pool.spec_entries()
    }

    /// The name of the class being generated.
    pub closed spec fn spec_class_name(&self) -> Seq<char> {
        self.class_name@
    }

    pub fn new(class_name: String) -> (r: JavaClassGenerator)
        ensures
            r.spec_pool().len() == 0,
            r.spec_class_name() == class_name@,
    {
        JavaClassGenerator { constant_pool: ConstantPool::new(), class_name }
    }

    pub fn constant_pool(&self) -> (r: &ConstantPool)
        ensures
            r.spec_entries() == self.spec_pool(),
    {
        &self.constant_pool
    }

    /// Lay out the fixed constant pool of a dice program.
    pub fn setup_constant_pool(&mut self)
        requires
            old(self).spec_pool().len() == 0,
        ensures
            crate::pool::pool_model(final(self).spec_pool()) == spec_dice_pool(
                old(self).spec_class_name(),
            ),
            final(self).spec_class_name() == old(self).spec_class_name(),
            final(self).spec_pool().len() == 35,
    {
        let class_name = self.class_name.clone();
        self.constant_pool.add_utf8(class_name);
        self.constant_pool.add_utf8(String::from_str("java/lang/Object"));
        self.constant_pool.add_utf8(String::from_str("main"));
        self.constant_pool.add_utf8(String::from_str("([Ljava/lang/String;)V"));
        self.constant_pool.add_utf8(String::from_str("Code"));
        self.constant_pool.add_utf8(String::from_str("java/lang/System"));
        self.constant_pool.add_utf8(String::from_str("out"));
        self.constant_pool.add_utf8(String::from_str("err"));
        self.constant_pool.add_utf8(String::from_str("Ljava/io/PrintStream;"));
        self.constant_pool.add_utf8(String::from_str("java/io/PrintStream"));
        self.constant_pool.add_utf8(String::from_str("println"));
        self.constant_pool.add_utf8(String::from_str("(I)V"));
        self.constant_pool.add_utf8(String::from_str("java/lang/Math"));
        self.constant_pool.add_utf8(String::from_str("random"));
        self.constant_pool.add_utf8(String::from_str("()D"));
        self.constant_pool.add_utf8(String::from_str("Total: "));
        self.constant_pool.add_utf8(String::from_str("print"));
        self.constant_pool.add_utf8(String::from_str("(Ljava/lang/String;)V"));
        self.constant_pool.add_class(1);
        self.constant_pool.add_class(2);
        self.constant_pool.add_class(6);
        self.constant_pool.add_class(10);
        self.constant_pool.add_class(13);
        self.constant_pool.add_string(16);
        self.constant_pool.add_name_and_type(3, 4);
        self.constant_pool.add_name_and_type(7, 9);
        self.constant_pool.add_name_and_type(8, 9);
        self.constant_pool.add_name_and_type(11, 12);
        self.constant_pool.add_name_and_type(17, 18);
        self.constant_pool.add_name_and_type(14, 15);
        self.constant_pool.add_fieldref(21, 26);
        self.constant_pool.add_fieldref(21, 27);
        self.constant_pool.add_methodref(22, 28);
        self.constant_pool.add_methodref(22, 29);
        self.constant_pool.add_methodref(23, 30);
        proof {
            assert(crate::pool::pool_model(self.spec_pool()) =~= spec_dice_pool(
                old(self).spec_class_name(),
            ));
        }
    }

    /// Push a small integer constant; constants beyond the sipush range
    /// are refused.
    pub fn push_int_constant(&self, instructions: &mut Vec<JvmInstruction>, value: i32) -> (r:
        Result<(), crate::errors::GenerateError>)
        ensures
            match r {
                Ok(_) => -32768 <= value <= 32767 && final(instructions)@ == old(instructions)@
                    + spec_push_int(value),
                Err(e) => !(-32768 <= value <= 32767) && final(instructions)@ == old(
                    instructions,
                )@ && e == crate::errors::GenerateError::UnsupportedConstant(value),
            },
    {
        if value == -1 {
            push_instr(instructions, JvmInstruction::IconstM1);
        } else if value == 0 {
            push_instr(instructions, JvmInstruction::Iconst0);
        } else if value == 1 {
            push_instr(instructions, JvmInstruction::Iconst1);
        } else if value == 2 {
            push_instr(instructions, JvmInstruction::Iconst2);
        } else if value == 3 {
            push_instr(instructions, JvmInstruction::Iconst3);
        } else if value == 4 {
            push_instr(instructions, JvmInstruction::Iconst4);
        } else if value == 5 {
            push_instr(instructions, JvmInstruction::Iconst5);
        } else if -128 <= value && value <= 127 {
            push_instr(instructions, JvmInstruction::Bipush(value as i8));
        } else if -32768 <= value && value <= 32767 {
            push_instr(instructions, JvmInstruction::Sipush(value as i16));
        } else {
            return Err(crate::errors::GenerateError::UnsupportedConstant(value));
        }
        Ok(())
    }

    /// Push a whole-number double constant for the face count.
    pub fn push_double_constant(&self, instructions: &mut Vec<JvmInstruction>, faces: u32)
        requires
            faces <= 32767,
        ensures
            final(instructions)@ == old(instructions)@ + spec_push_double(faces),
    {
        if faces == 0 {
            push_instr(instructions, JvmInstruction::Dconst0);
        } else if faces == 1 {
            push_instr(instructions, JvmInstruction::Dconst1);
        } else {
            let r = self.push_int_constant(instructions, faces as i32);
            push_instr(instructions, JvmInstruction::I2d);
            proof {
                assert(final(instructions)@ =~= old(instructions)@ + spec_push_double(faces));
            }
        }
    }

    /// Append one roll: `Math.random() * faces + 1` truncated to an int.
    fn append_roll_block(&self, instructions: &mut Vec<JvmInstruction>, faces: u32)
        requires
            faces <= 32767,
        ensures
            final(instructions)@ == old(instructions)@ + spec_roll_block(faces),
    {
        push_instr(instructions, JvmInstruction::Invokestatic(35));
        self.push_double_constant(instructions, faces);
        push_instr(instructions, JvmInstruction::Dmul);
        push_instr(instructions, JvmInstruction::Dconst1);
        push_instr(instructions, JvmInstruction::Dadd);
        push_instr(instructions, JvmInstruction::D2i);
        proof {
            assert(final(instructions)@ =~= old(instructions)@ + spec_roll_block(faces));
        }
    }

    /// Roll one die and print the result to `System.out`.
    fn generate_single_dice(&self, instructions: &mut Vec<JvmInstruction>, faces: u32)
        requires
            faces <= 32767,
        ensures
            final(instructions)@ == old(instructions)@ + spec_single_dice(faces),
    {
        self.append_roll_block(instructions, faces);
        push_instr(instructions, JvmInstruction::Getstatic(31));
        push_instr(instructions, JvmInstruction::Swap);
        push_instr(instructions, JvmInstruction::Invokevirtual(33));
        proof {
            assert(final(instructions)@ =~= old(instructions)@ + spec_single_dice(faces));
        }
    }

    /// Roll each die, print it, sum the rolls, and print the total to
    /// `System.err`.
    fn generate_multiple_dice(
        &self,
        instructions: &mut Vec<JvmInstruction>,
        count: u32,
        faces: u32,
    )
        requires
            faces <= 32767,
        ensures
            final(instructions)@ == old(instructions)@ + spec_multiple_dice(count, faces),
    {
        push_instr(instructions, JvmInstruction::Iconst0);
        let ghost start = old(instructions)@ + seq![JvmInstruction::Iconst0];
        let mut k: u32 = 0;
        while k < count
            invariant
                0 <= k <= count,
                faces <= 32767,
                instructions@ == start + spec_multi_repeat(k as int, faces),
            decreases count - k,
        {
            let ghost before = instructions@;
            self.append_roll_block(instructions, faces);
            push_instr(instructions, JvmInstruction::Dup);
            push_instr(instructions, JvmInstruction::Getstatic(31));
            push_instr(instructions, JvmInstruction::Swap);
            push_instr(instructions, JvmInstruction::Invokevirtual(33));
            push_instr(instructions, JvmInstruction::Iadd);
            proof {
                assert(instructions@ =~= before + spec_multi_block(faces));
                assert(spec_multi_repeat(k as int + 1, faces) == spec_multi_repeat(k as int, faces)
                    + spec_multi_block(faces));
                assert(instructions@ =~= start + spec_multi_repeat(k as int + 1, faces));
            }
            k = k + 1;
        }
        push_instr(instructions, JvmInstruction::Dup);
        push_instr(instructions, JvmInstruction::Getstatic(32));
        push_instr(instructions, JvmInstruction::Ldc(24));
        push_instr(instructions, JvmInstruction::Invokevirtual(34));
        push_instr(instructions, JvmInstruction::Getstatic(32));
        push_instr(instructions, JvmInstruction::Swap);
        push_instr(instructions, JvmInstruction::Invokevirtual(33));
        push_instr(instructions, JvmInstruction::Pop);
        proof {
            assert(final(instructions)@ =~= old(instructions)@ + spec_multiple_dice(count, faces));
        }
    }

    /// The instruction stream of a dice program, or a refusal when the
    /// face count does not fit the writer's immediate forms.
    pub fn generate_dice_bytecode(&self, count: u32, faces: u32) -> (r: Result<
        Vec<JvmInstruction>,
        crate::errors::GenerateError,
    >)
        ensures
            match r {
                Ok(v) => faces <= 32767 && v@ == spec_dice_instructions(count, faces),
                Err(e) => faces > 32767,
            },
    {
        if faces > 32767 {
            let clipped: i32 = if faces > 0x7FFFFFFFu32 {
                0x7FFFFFFFi32
            } else {
                faces as i32
            };
            return Err(crate::errors::GenerateError::UnsupportedConstant(clipped));
        }
        let mut instructions: Vec<JvmInstruction> = Vec::new();
        if count == 1 {
            self.generate_single_dice(&mut instructions, faces);
        } else {
            self.generate_multiple_dice(&mut instructions, count, faces);
        }
        push_instr(&mut instructions, JvmInstruction::Return);
        proof {
            assert(instructions@ =~= spec_dice_instructions(count, faces));
        }
        Ok(instructions)
    }

    /// Write the pool in index order, skipping placeholders.
    fn write_constant_pool(&self, bytes: &mut Vec<u8>)
        ensures
            final(bytes)@ == old(bytes)@ + spec_encode_pool(self.spec_pool()),
    {
        let entries = self.constant_pool.entries();
        let mut i: usize = 0;
        while i < entries.len()
            invariant
                0 <= i <= entries@.len(),
                entries@ == self.spec_pool(),
                bytes@ == old(bytes)@ + spec_encode_pool(entries@.take(i as int)),
            decreases entries@.len() - i,
        {
            write_entry(&entries[i], bytes);
            proof {
                assert(entries@.take(i as int + 1).drop_last() =~= entries@.take(i as int));
                assert(entries@.take(i as int + 1).last() == entries@[i as int]);
                assert(spec_encode_pool(entries@.take(i as int + 1)) == spec_encode_pool(
                    entries@.take(i as int),
                ) + spec_encode_entry(entries@[i as int]));
                assert(bytes@ =~= old(bytes)@ + spec_encode_pool(entries@.take(i as int + 1)));
            }
            i = i + 1;
        }
        proof {
            assert(entries@.take(entries@.len() as int) =~= entries@);
        }
    }

    /// Write the one `main` method with its `Code` attribute.
    fn write_main_method(&self, bytes: &mut Vec<u8>, instructions: &Vec<JvmInstruction>)
        ensures
            final(bytes)@ == old(bytes)@ + spec_main_method_bytes(spec_encode(instructions@)),
    {
        let ghost code = spec_encode(instructions@);
        let code_bytes = instructions_to_bytes(instructions);
        let attribute_length: u64 = ((code_bytes.len() as u64) % 0x100000000 + 12) % 0x100000000;
        let code_length: u64 = (code_bytes.len() as u64) % 0x100000000;
        emit_method_intro(bytes, attribute_length as u32, code_length as u32);
        append_bytes(bytes, &code_bytes);
        push2(bytes, 0, 0);
        push2(bytes, 0, 0);
        proof {
            lemma_main_assemble(
                old(bytes)@,
                bytes@,
                code,
                attribute_length as u32,
                code_length as u32,
            );
        }
    }

    /// Emit the complete class file for an instruction stream, exactly as
    /// `spec_class_file_bytes` describes.
    pub fn generate_class_file(&self, bytecode_instructions: &Vec<JvmInstruction>) -> (r: Vec<u8>)
        requires
            self.spec_pool().len() < 65535,
        ensures
            r@ == spec_class_file_bytes(self.spec_pool(), spec_encode(bytecode_instructions@)),
    {
        let mut bytes: Vec<u8> = Vec::new();
        push_u32_be(&mut bytes, 0xCAFEBABE);
        push_u16_be(&mut bytes, 0);
        push_u16_be(&mut bytes, 52);

        let entries = self.constant_pool.entries();
        let mut non_placeholder_count: usize = 0;
        let mut i: usize = 0;
        while i < entries.len()
            invariant
                0 <= i <= entries@.len(),
                entries@ == self.spec_pool(),
                non_placeholder_count == count_non_placeholder(entries@.take(i as int)),
                non_placeholder_count <= i,
            decreases entries@.len() - i,
        {
            proof {
                assert(entries@.take(i as int + 1).drop_last() =~= entries@.take(i as int));
                lemma_count_non_placeholder_le_len(entries@.take(i as int));
            }
            let is_placeholder = match &entries[i] {
                ConstantPoolEntry::Placeholder => true,
                _ => false,
            };
            if !is_placeholder {
                non_placeholder_count = non_placeholder_count + 1;
            }
            i = i + 1;
        }
        proof {
            assert(entries@.take(entries@.len() as int) =~= entries@);
        }
        push_u16_be(&mut bytes, non_placeholder_count as u16 + 1);

        self.write_constant_pool(&mut bytes);

        push_u16_be(&mut bytes, 0x0021);
        push_u16_be(&mut bytes, 19);
        push_u16_be(&mut bytes, 20);
        push_u16_be(&mut bytes, 0);
        push_u16_be(&mut bytes, 0);
        push_u16_be(&mut bytes, 1);

        self.write_main_method(&mut bytes, bytecode_instructions);

        push_u16_be(&mut bytes, 0);

        proof {
            assert(bytes@ =~= spec_class_file_bytes(
                self.spec_pool(),
                spec_encode(bytecode_instructions@),
            ));
        }
        bytes
    }
}

} // verus!

verus! {

impl JavaClassGenerator {
    /// The instruction stream of a dice expression, or the fault: a
    /// lexical, syntax or semantic error, or a face count beyond the
    /// writer's immediate forms.
    pub fn generate_dice_instructions(&mut self, expression: &str) -> (r: Result<
        Vec<JvmInstruction>,
        crate::errors::GenerateError,
    >)
        ensures
            final(self).spec_pool() == old(self).spec_pool(),
            final(self).spec_class_name() == old(self).spec_class_name(),
            match r {
                Ok(v) => {
                    &&& crate::analyzer::spec_compile(expression@) is Some
                    &&& {
                        let cf = crate::analyzer::spec_compile(expression@).unwrap();
                        cf.1 <= 32767 && v@ == spec_dice_instructions(cf.0, cf.1)
                    }
                },
                Err(_) => crate::analyzer::spec_compile(expression@) is None
                    || crate::analyzer::spec_compile(expression@).unwrap().1 > 32767,
            },
    {
        let mut analyzer = match crate::analyzer::SemanticAnalyzer::new(expression) {
            Ok(a) => a,
            Err(e) => {
                return Err(crate::errors::GenerateError::Parse(e));
            },
        };
        let ast = match analyzer.analyze() {
            Ok(ast) => ast,
            Err(e) => {
                return Err(crate::errors::GenerateError::Semantic(e));
            },
        };
        match ast.statement {
            Some(stmt) => match stmt.kind {
                crate::ast::StatementKind::Expression { expr } => match expr.kind {
                    crate::ast::ExpressionKind::Dice { count, faces } => {
                        self.generate_dice_bytecode(count, faces)
                    },
                },
            },
            None => {
                proof {
                    assert(false);
                }
                Err(crate::errors::GenerateError::Semantic(
                    crate::errors::SemanticError::EmptyProgram,
                ))
            },
        }
    }

    /// The class-file bytes of a dice expression: the fixed pool is laid
    /// out and the generated program is wrapped in one `main` method.
    pub fn generate_dice_class(&mut self, expression: &str) -> (r: Result<
        Vec<u8>,
        crate::errors::GenerateError,
    >)
        requires
            old(self).spec_pool().len() == 0,
        ensures
            match r {
                Ok(bytes) => {
                    &&& crate::analyzer::spec_compile(expression@) is Some
                    &&& crate::pool::pool_model(final(self).spec_pool()) == spec_dice_pool(
                        old(self).spec_class_name(),
                    )
                    &&& {
                        let cf = crate::analyzer::spec_compile(expression@).unwrap();
                        cf.1 <= 32767 && bytes@ == spec_class_file_bytes(
                            final(self).spec_pool(),
                            spec_encode(spec_dice_instructions(cf.0, cf.1)),
                        )
                    }
                },
                Err(_) => crate::analyzer::spec_compile(expression@) is None
                    || crate::analyzer::spec_compile(expression@).unwrap().1 > 32767,
            },
    {
        let mut analyzer = match crate::analyzer::SemanticAnalyzer::new(expression) {
            Ok(a) => a,
            Err(e) => {
                return Err(crate::errors::GenerateError::Parse(e));
            },
        };
        let ast = match analyzer.analyze() {
            Ok(ast) => ast,
            Err(e) => {
                return Err(crate::errors::GenerateError::Semantic(e));
            },
        };
        match ast.statement {
            Some(stmt) => match stmt.kind {
                crate::ast::StatementKind::Expression { expr } => match expr.kind {
                    crate::ast::ExpressionKind::Dice { count, faces } => {
                        self.setup_constant_pool();
                        let bytecode = match self.generate_dice_bytecode(count, faces) {
                            Ok(v) => v,
                            Err(e) => {
                                return Err(e);
                            },
                        };
                        Ok(self.generate_class_file(&bytecode))
                    },
                },
            },
            None => {
                proof {
                    assert(false);
                }
                Err(crate::errors::GenerateError::Semantic(
                    crate::errors::SemanticError::EmptyProgram,
                ))
            },
        }
    }
}

/// The instruction stream and matching pool of a dice expression, for
/// direct execution on the machine.
pub fn generate_vm_instructions(expression: &str) -> (r: Result<
    (Vec<JvmInstruction>, ConstantPool),
    crate::errors::GenerateError,
>)
    ensures
        match r {
            Ok(p) => {
                &&& crate::analyzer::spec_compile(expression@) is Some
                &&& crate::pool::pool_model(p.1.spec_entries()) == spec_dice_pool("DiceRoll"@)
                &&& {
                    let cf = crate::analyzer::spec_compile(expression@).unwrap();
                    cf.1 <= 32767 && p.0@ == spec_dice_instructions(cf.0, cf.1)
                }
            },
            Err(_) => crate::analyzer::spec_compile(expression@) is None
                || crate::analyzer::spec_compile(expression@).unwrap().1 > 32767,
        },
{
    let mut generator = JavaClassGenerator::new(String::from_str("DiceRoll"));
    generator.setup_constant_pool();
    let instructions = match generator.generate_dice_instructions(expression) {
        Ok(v) => v,
        Err(e) => {
            return Err(e);
        },
    };
    let pool = generator.constant_pool().duplicate();
    Ok((instructions, pool))
}

} // verus!
