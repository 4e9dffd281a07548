//! The instruction set: tagged variants with decoded immediates. Branch
//! offsets address instruction indices, not byte offsets, matching the
//! writer of this machine.

use vstd::prelude::*;

verus! {

#[derive(Debug, Clone, Copy, PartialEq, Eq, Structural)]
pub enum JvmInstruction {
    /// Load a one-word constant from the pool.
    Ldc(u16),
    /// Load a two-word constant (long or double) from the pool.
    Ldc2W(u16),
    IconstM1,
    Iconst0,
    Iconst1,
    Iconst2,
    Iconst3,
    Iconst4,
    Iconst5,
    Lconst0,
    Lconst1,
    Bipush(i8),
    Sipush(i16),

    Pop,
    Dup,
    Swap,

    Iadd,
    Isub,
    Imul,
    Idiv,
    Irem,

    Dadd,
    Dsub,
    Dmul,
    Ddiv,

    I2d,
    D2i,

    Ifeq(u16),
    Ifne(u16),
    Iflt(u16),
    Ifge(u16),
    Ifgt(u16),
    Ifle(u16),
    Goto(u16),

    Iload(u8),
    Iload0,
    Iload1,
    Iload2,
    Iload3,
    Istore(u8),
    Istore0,
    Istore1,
    Istore2,
    Istore3,

    Aload(u8),
    Aload0,
    Aload1,
    Aload2,
    Aload3,
    Astore(u8),
    Astore0,
    Astore1,
    Astore2,
    Astore3,

    Dload(u8),
    Dload0,
    Dload1,
    Dload2,
    Dload3,
    Dstore(u8),
    Dstore0,
    Dstore1,
    Dstore2,
    Dstore3,

    Lload(u8),
    Lload0,
    Lload1,
    Lload2,
    Lload3,
    Lstore(u8),
    Lstore0,
    Lstore1,
    Lstore2,
    Lstore3,

    Invokevirtual(u16),
    Invokestatic(u16),
    Invokespecial(u16),
    Invokedynamic(u16),

    New(u16),

    Return,
    Ireturn,

    Getstatic(u16),

    Dconst0,
    Dconst1,

    Nop,
}

/// Copy an instruction vector element by element.
pub fn copy_instructions(v: &Vec<JvmInstruction>) -> (r: Vec<JvmInstruction>)
    ensures
        r@ == v@,
{
    let mut out: Vec<JvmInstruction> = Vec::new();
    let mut i: usize = 0;
    while i < v.len()
        invariant
            0 <= i <= v@.len(),
            out@ == v@.take(i as int),
        decreases v@.len() - i,
    {
        out.push(v[i]);
        proof {
            assert(out@ =~= v@.take(i as int + 1));
        }
        i = i + 1;
    }
    proof {
        assert(v@.take(v@.len() as int) =~= v@);
    }
    out
}

} // verus!
