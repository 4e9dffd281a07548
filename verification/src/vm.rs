//! The stack-based interpreter: frames of locals and operand stacks, a
//! bounded heap of intrinsic objects, a step-bounded fetch-decode-execute
//! loop, and the intrinsic runtime. Every console write is also recorded
//! in an output log, so contracts and tests can speak about what was
//! printed.

use vstd::prelude::*;
use vstd::string::StringSliceAdditionalSpecFns;
use std::io::Write;
use crate::errors::RuntimeError;
use crate::fp;
use crate::instr::JvmInstruction;
use crate::instr::copy_instructions;
use crate::pool::ConstantPool;
use crate::pool::ConstantPoolEntry;
use crate::reader::ClassFile;
use crate::reader::ClassFileParser;
use crate::reader::MethodInfo;
use crate::resolver::ResolvedMethod;
use crate::resolver::resolve_method_reference;
use crate::resolver::resolve_static_field_ref;
use crate::resolver::spec_resolve;
use crate::resolver::spec_resolve_field;
use crate::text;
use crate::value::JvmValue;
use crate::value::spec_as_boolean;
use crate::value::spec_as_char;
use crate::value::spec_as_double;
use crate::value::spec_as_int;

verus! {

/// One recorded console write.
#[derive(Debug, Clone)]
pub struct OutputLine {
    pub to_stderr: bool,
    pub newline: bool,
    pub text: String,
}

/// An intrinsic heap object: a class name and named fields.
#[derive(Debug, Clone)]
pub struct JvmObject {
    pub class_name: String,
    pub fields: Vec<(String, JvmValue)>,
}

/// A method activation record.
#[derive(Debug, Clone)]
pub struct MethodFrame {
    pub locals: Vec<JvmValue>,
    pub operand_stack: Vec<JvmValue>,
    pub constant_pool: ConstantPool,
    pub pc: usize,
    pub bytecode: Vec<JvmInstruction>,
}

/// The value of a named field: the first binding with that name.
pub open spec fn spec_field_get(fields: Seq<(String, JvmValue)>, name: Seq<char>) -> Option<
    JvmValue,
>
    decreases fields.len(),
{
    if fields.len() == 0 {
        None
    } else if fields[0].0@ == name {
        Some(fields[0].1)
    } else {
        spec_field_get(fields.skip(1), name)
    }
}

/// The text a string object id denotes: the first binding with that id.
pub open spec fn spec_string_get(sd: Seq<(usize, String)>, id: usize) -> Option<Seq<char>>
    decreases sd.len(),
{
    if sd.len() == 0 {
        None
    } else if sd[0].0 == id {
        Some(sd[0].1@)
    } else {
        spec_string_get(sd.skip(1), id)
    }
}

/// Whether an object is the string object of the given length field.
pub open spec fn is_string_object(o: JvmObject, length: i32) -> bool {
    &&& o.class_name@ == "java/lang/String"@
    &&& o.fields@.len() == 1
    &&& o.fields@[0].0@ == "length"@
    &&& o.fields@[0].1 == JvmValue::Int(length)
}

/// Whether an object is a print-stream object for the given stream.
pub open spec fn is_printstream_object(o: JvmObject, stderr: bool) -> bool {
    &&& o.class_name@ == "java/io/PrintStream"@
    &&& o.fields@.len() == 2
    &&& o.fields@[0].0@ == "type"@
    &&& o.fields@[0].1 == JvmValue::Reference(None::<usize>)
    &&& o.fields@[1].0@ == "is_stderr"@
    &&& o.fields@[1].1 == JvmValue::Int(if stderr { 1i32 } else { 0i32 })
}

/// How `println` renders a value of each kind.
pub open spec fn spec_value_line(v: JvmValue) -> Seq<char> {
    match v {
        JvmValue::Int(i) => text::dec_str_of(i as int),
        JvmValue::Long(l) => text::dec_str_of(l as int),
        JvmValue::Double(d) => fp::double_str_of(d),
        JvmValue::Float(f) => fp::float_str_of(f),
        JvmValue::Boolean(b) => text::bool_str_of(b),
        JvmValue::Char(c) => text::char_str_of(c),
        _ => "null"@,
    }
}

/// The `length` field a heap string carries: its byte length as the
/// machine's integer.
pub open spec fn spec_strlen_field(txt: Seq<char>) -> i32 {
    ((vstd::utf8::encode_utf8(txt).len() as usize) as i32)
}

/// The JVM-compatible virtual machine.
pub struct JvmCompatibleVm {
    frames: Vec<MethodFrame>,
    heap: Vec<JvmObject>,
    string_data: Vec<(usize, String)>,
    next_object_id: usize,
    max_steps: usize,
    steps: usize,
    current_class: Option<ClassFile>,
    output: Vec<OutputLine>,
}

impl JvmCompatibleVm {
    /// The call stack, bottom first.
    pub closed spec fn spec_frames(&self) -> Seq<MethodFrame> {
        self.frames@
    }

    /// The heap; the object with id `k` lives at slot `k - 1`.
    pub closed spec fn spec_heap(&self) -> Seq<JvmObject> {
        self.heap@
    }

    /// The string side table: object id to text.
    pub closed spec fn spec_strings(&self) -> Seq<(usize, String)> {
        self.string_data@
    }

    /// Everything written to the console so far, in order.
    pub closed spec fn spec_output(&self) -> Seq<OutputLine> {
        self.output@
    }

    /// Instructions executed by the current top-level invocation.
    pub closed spec fn spec_steps(&self) -> usize {
        self.steps
    }

    /// The hard ceiling on instructions per invocation.
    pub closed spec fn spec_max_steps(&self) -> usize {
        self.max_steps
    }

    /// The next heap id to issue.
    pub closed spec fn spec_next_id(&self) -> usize {
        self.next_object_id
    }

    /// The loaded class, when executing a parsed class file.
    pub closed spec fn spec_class(&self) -> Option<ClassFile> {
        self.current_class
    }

    /// Object ids are issued densely: the next id is one past the heap.
    pub open spec fn wf(&self) -> bool {
        self.spec_next_id() == self.spec_heap().len() + 1
    }
}

/// Everything but the frames is the same in both machines.
pub open spec fn same_world(pre: JvmCompatibleVm, post: JvmCompatibleVm) -> bool {
    &&& post.spec_heap() == pre.spec_heap()
    &&& post.spec_strings() == pre.spec_strings()
    &&& post.spec_output() == pre.spec_output()
    &&& post.spec_next_id() == pre.spec_next_id()
    &&& post.spec_steps() == pre.spec_steps()
    &&& post.spec_max_steps() == pre.spec_max_steps()
    &&& post.spec_class() == pre.spec_class()
}

/// The frames hold the same locals, stacks, pools, counters and code.
pub open spec fn frame_like(a: MethodFrame, b: MethodFrame) -> bool {
    &&& a.locals@ == b.locals@
    &&& a.operand_stack@ == b.operand_stack@
    &&& a.constant_pool.spec_entries() == b.constant_pool.spec_entries()
    &&& a.pc == b.pc
    &&& a.bytecode@ == b.bytecode@
}

/// The call stacks agree frame for frame.
pub open spec fn frames_like(a: Seq<MethodFrame>, b: Seq<MethodFrame>) -> bool {
    &&& a.len() == b.len()
    &&& forall|i: int| 0 <= i < a.len() ==> frame_like(#[trigger] a[i], b[i])
}

/// The machines are observably identical.
pub open spec fn vm_unchanged(pre: JvmCompatibleVm, post: JvmCompatibleVm) -> bool {
    &&& same_world(pre, post)
    &&& frames_like(post.spec_frames(), pre.spec_frames())
}

/// The frames below the top are untouched and a top frame is still there.
pub open spec fn frames_below_same(pre: JvmCompatibleVm, post: JvmCompatibleVm) -> bool {
    &&& pre.spec_frames().len() >= 1
    &&& post.spec_frames().len() == pre.spec_frames().len()
    &&& frames_like(post.spec_frames().drop_last(), pre.spec_frames().drop_last())
}

/// The top frame keeps its code and pool but moves to the given stack,
/// locals and program counter; nothing else in the machine changes.
pub open spec fn step_frame(
    pre: JvmCompatibleVm,
    post: JvmCompatibleVm,
    stack: Seq<JvmValue>,
    locals: Seq<JvmValue>,
    pc: int,
) -> bool {
    &&& same_world(pre, post)
    &&& frames_below_same(pre, post)
    &&& post.spec_frames().last().operand_stack@ == stack
    &&& post.spec_frames().last().locals@ == locals
    &&& post.spec_frames().last().pc == pc
    &&& post.spec_frames().last().bytecode@ == pre.spec_frames().last().bytecode@
    &&& post.spec_frames().last().constant_pool.spec_entries()
        == pre.spec_frames().last().constant_pool.spec_entries()
}

/// As `step_frame` with the locals untouched.
pub open spec fn step_stack(
    pre: JvmCompatibleVm,
    post: JvmCompatibleVm,
    stack: Seq<JvmValue>,
    pc: int,
) -> bool {
    step_frame(pre, post, stack, pre.spec_frames().last().locals@, pc)
}

/// The top frame is popped; nothing else changes.
pub open spec fn step_pop_frame(pre: JvmCompatibleVm, post: JvmCompatibleVm) -> bool {
    &&& same_world(pre, post)
    &&& pre.spec_frames().len() >= 1
    &&& frames_like(post.spec_frames(), pre.spec_frames().drop_last())
}

} // verus!

verus! {

/// Pushing then dropping the last element gives the sequence back.
pub broadcast proof fn lemma_push_drop_last<A>(s: Seq<A>, x: A)
    ensures
        #[trigger] s.push(x).drop_last() == s,
{
    assert(s.push(x).drop_last() =~= s);
}

/// Truncating (Java-style) signed division of i32 values, away from the
/// minimum-by-minus-one overflow which wraps.
pub open spec fn spec_idiv(a: i32, b: i32) -> i32 {
    if a == i32::MIN && b == -1 {
        i32::MIN
    } else if (a < 0) == (b < 0) {
        (abs_int(a as int) / abs_int(b as int)) as i32
    } else {
        (-(abs_int(a as int) / abs_int(b as int))) as i32
    }
}

/// The remainder matching `spec_idiv`: its sign follows the dividend.
pub open spec fn spec_irem(a: i32, b: i32) -> i32 {
    if a == i32::MIN && b == -1 {
        0
    } else if a < 0 {
        (-(abs_int(a as int) % abs_int(b as int))) as i32
    } else {
        (abs_int(a as int) % abs_int(b as int)) as i32
    }
}

/// The magnitude of an integer.
pub open spec fn abs_int(a: int) -> int {
    if a < 0 {
        -a
    } else {
        a
    }
}

/// The arithmetic forms of the integer instructions.
#[derive(Debug, Clone, Copy, PartialEq, Eq, Structural)]
pub enum IntOp {
    Add,
    Sub,
    Mul,
    Div,
    Rem,
}

/// What an integer instruction computes, with wrap-around like the
/// machine's 32-bit arithmetic.
pub open spec fn spec_int_op(op: IntOp, a: i32, b: i32) -> i32 {
    match op {
        IntOp::Add => a.wrapping_add(b),
        IntOp::Sub => a.wrapping_sub(b),
        IntOp::Mul => a.wrapping_mul(b),
        IntOp::Div => spec_idiv(a, b),
        IntOp::Rem => spec_irem(a, b),
    }
}

/// How an integer instruction transforms the operand stack: pop two
/// coercible-to-int values, push the result; underflow, an uncoercible
/// operand, and a zero divisor fault.
pub open spec fn spec_int_binop(op: IntOp, st: Seq<JvmValue>) -> Result<Seq<JvmValue>, RuntimeError> {
    if st.len() < 1 {
        Err(RuntimeError::StackUnderflow)
    } else {
        match spec_as_int(st.last()) {
            None => Err(RuntimeError::InvalidStackState),
            Some(b) => if st.len() < 2 {
                Err(RuntimeError::StackUnderflow)
            } else {
                match spec_as_int(st[st.len() - 2]) {
                    None => Err(RuntimeError::InvalidStackState),
                    Some(a) => if (op == IntOp::Div || op == IntOp::Rem) && b == 0 {
                        Err(RuntimeError::DivisionByZero)
                    } else {
                        Ok(
                            st.take(st.len() - 2).push(JvmValue::Int(spec_int_op(op, a, b))),
                        )
                    },
                }
            },
        }
    }
}

/// The double-arithmetic forms.
#[derive(Debug, Clone, Copy, PartialEq, Eq, Structural)]
pub enum DoubleOp {
    Add,
    Sub,
    Mul,
    Div,
}

/// What a double instruction computes, as named IEEE-754 results on the
/// operand bits.
pub open spec fn spec_double_op(op: DoubleOp, a: u64, b: u64) -> u64 {
    match op {
        DoubleOp::Add => fp::dadd_of(a, b),
        DoubleOp::Sub => fp::dsub_of(a, b),
        DoubleOp::Mul => fp::dmul_of(a, b),
        DoubleOp::Div => fp::ddiv_of(a, b),
    }
}

/// How a double instruction transforms the operand stack: both operands
/// must be doubles; a zero divisor faults.
pub open spec fn spec_double_binop(op: DoubleOp, st: Seq<JvmValue>) -> Result<
    Seq<JvmValue>,
    RuntimeError,
> {
    if st.len() < 1 {
        Err(RuntimeError::StackUnderflow)
    } else if st.len() < 2 {
        Err(RuntimeError::StackUnderflow)
    } else {
        match (st[st.len() - 2], st.last()) {
            (JvmValue::Double(a), JvmValue::Double(b)) => {
                if op == DoubleOp::Div && fp::spec_d_is_zero(b) {
                    Err(RuntimeError::DivisionByZero)
                } else {
                    Ok(st.take(st.len() - 2).push(JvmValue::Double(spec_double_op(op, a, b))))
                }
            },
            _ => Err(RuntimeError::InvalidStackState),
        }
    }
}

/// The branch predicates of the `if` instructions.
#[derive(Debug, Clone, Copy, PartialEq, Eq, Structural)]
pub enum CondKind {
    Eq,
    Ne,
    Lt,
    Ge,
    Gt,
    Le,
}

/// Whether a condition holds of the popped integer.
pub open spec fn spec_cond(k: CondKind, v: i32) -> bool {
    match k {
        CondKind::Eq => v == 0,
        CondKind::Ne => v != 0,
        CondKind::Lt => v < 0,
        CondKind::Ge => v >= 0,
        CondKind::Gt => v > 0,
        CondKind::Le => v <= 0,
    }
}

/// The default a growing local-variable array is padded with, per the
/// store family.
#[derive(Debug, Clone, Copy, PartialEq, Eq, Structural)]
pub enum SlotKind {
    IntSlot,
    RefSlot,
    DoubleSlot,
    LongSlot,
}

/// The zero value of a slot kind.
pub open spec fn spec_slot_zero(k: SlotKind) -> JvmValue {
    match k {
        SlotKind::IntSlot => JvmValue::Int(0),
        SlotKind::RefSlot => JvmValue::Reference(None::<usize>),
        SlotKind::DoubleSlot => JvmValue::Double(0),
        SlotKind::LongSlot => JvmValue::Long(0),
    }
}

/// The locals array after a store at `idx`, grown with the kind's zero
/// when short.
pub open spec fn spec_store_locals(
    locals: Seq<JvmValue>,
    idx: int,
    v: JvmValue,
    k: SlotKind,
) -> Seq<JvmValue> {
    let grown = if idx < locals.len() {
        locals
    } else {
        locals + Seq::new((idx + 1 - locals.len()) as nat, |j: int| spec_slot_zero(k))
    };
    grown.update(idx, v)
}

} // verus!

verus! {

/// Which stream a value addresses: a live reference to a heap object
/// whose `is_stderr` field is an integer; one means standard error.
pub open spec fn spec_stream_kind(heap: Seq<JvmObject>, v: JvmValue) -> Option<bool> {
    match v {
        JvmValue::Reference(opt) => match opt {
            Some(id) => if 1 <= id && id <= heap.len() {
                match spec_field_get(heap[id - 1].fields@, "is_stderr"@) {
                    Some(f) => match f {
                        JvmValue::Int(k) => Some(k == 1),
                        _ => None,
                    },
                    None => None,
                }
            } else {
                None
            },
            None => None,
        },
        _ => None,
    }
}

/// One line was appended to the output log.
pub open spec fn output_extended(
    pre: JvmCompatibleVm,
    post: JvmCompatibleVm,
    stderr: bool,
    newline: bool,
    txt: Seq<char>,
) -> bool {
    &&& post.spec_output().len() == pre.spec_output().len() + 1
    &&& post.spec_output().drop_last() == pre.spec_output()
    &&& post.spec_output().last().to_stderr == stderr
    &&& post.spec_output().last().newline == newline
    &&& post.spec_output().last().text@ == txt
}

/// A print step: the top frame moves to the given stack and the next
/// instruction; the output gains the given line, or nothing when the
/// receiver is no valid stream.
pub open spec fn step_print(
    pre: JvmCompatibleVm,
    post: JvmCompatibleVm,
    stack: Seq<JvmValue>,
    printed: Option<(bool, bool, Seq<char>)>,
) -> bool {
    &&& frames_below_same(pre, post)
    &&& post.spec_frames().last().operand_stack@ == stack
    &&& post.spec_frames().last().locals@ == pre.spec_frames().last().locals@
    &&& post.spec_frames().last().pc == pre.spec_frames().last().pc + 1
    &&& post.spec_frames().last().bytecode@ == pre.spec_frames().last().bytecode@
    &&& post.spec_frames().last().constant_pool.spec_entries()
        == pre.spec_frames().last().constant_pool.spec_entries()
    &&& post.spec_heap() == pre.spec_heap()
    &&& post.spec_strings() == pre.spec_strings()
    &&& post.spec_next_id() == pre.spec_next_id()
    &&& post.spec_steps() == pre.spec_steps()
    &&& post.spec_max_steps() == pre.spec_max_steps()
    &&& post.spec_class() == pre.spec_class()
    &&& match printed {
        Some(line) => output_extended(pre, post, line.0, line.1, line.2),
        None => post.spec_output() == pre.spec_output(),
    }
}

/// An allocation step: the top frame moves to the given stack (already
/// holding the new reference) and the next instruction; the heap gains
/// one object; the string table optionally gains the new id's text.
pub open spec fn step_alloc(
    pre: JvmCompatibleVm,
    post: JvmCompatibleVm,
    stack: Seq<JvmValue>,
    string_text: Option<Seq<char>>,
) -> bool {
    &&& frames_below_same(pre, post)
    &&& post.spec_frames().last().operand_stack@ == stack
    &&& post.spec_frames().last().locals@ == pre.spec_frames().last().locals@
    &&& post.spec_frames().last().pc == pre.spec_frames().last().pc + 1
    &&& post.spec_frames().last().bytecode@ == pre.spec_frames().last().bytecode@
    &&& post.spec_frames().last().constant_pool.spec_entries()
        == pre.spec_frames().last().constant_pool.spec_entries()
    &&& post.spec_heap().len() == pre.spec_heap().len() + 1
    &&& post.spec_heap().drop_last() == pre.spec_heap()
    &&& post.spec_next_id() == pre.spec_next_id() + 1
    &&& post.spec_output() == pre.spec_output()
    &&& post.spec_steps() == pre.spec_steps()
    &&& post.spec_max_steps() == pre.spec_max_steps()
    &&& post.spec_class() == pre.spec_class()
    &&& match string_text {
        Some(txt) => {
            &&& post.spec_strings().len() == pre.spec_strings().len() + 1
            &&& post.spec_strings().drop_last() == pre.spec_strings()
            &&& post.spec_strings().last().0 == pre.spec_next_id()
            &&& post.spec_strings().last().1@ == txt
        },
        None => post.spec_strings() == pre.spec_strings(),
    }
}

/// What `Ldc` and `Ldc2W` do: push the denoted constant; a `String`
/// entry materializes a fresh heap string.
pub open spec fn spec_ldc_rel(
    pre: JvmCompatibleVm,
    post: JvmCompatibleVm,
    r: Result<Option<JvmValue>, RuntimeError>,
    k: u16,
) -> bool {
    let entries = pre.spec_frames().last().constant_pool.spec_entries();
    let st = pre.spec_frames().last().operand_stack@;
    let pc = pre.spec_frames().last().pc as int;
    if k == 0 || k - 1 >= entries.len() {
        r == Err::<Option<JvmValue>, RuntimeError>(RuntimeError::InvalidStackState)
            && vm_unchanged(pre, post)
    } else {
        match entries[k - 1] {
            ConstantPoolEntry::Integer(i) => r == Ok::<Option<JvmValue>, RuntimeError>(None)
                && step_stack(pre, post, st.push(JvmValue::Int(i)), pc + 1),
            ConstantPoolEntry::Float(f) => r == Ok::<Option<JvmValue>, RuntimeError>(None)
                && step_stack(pre, post, st.push(JvmValue::Float(f)), pc + 1),
            ConstantPoolEntry::Long(l) => r == Ok::<Option<JvmValue>, RuntimeError>(None)
                && step_stack(pre, post, st.push(JvmValue::Long(l)), pc + 1),
            ConstantPoolEntry::Double(d) => r == Ok::<Option<JvmValue>, RuntimeError>(None)
                && step_stack(pre, post, st.push(JvmValue::Double(d)), pc + 1),
            ConstantPoolEntry::String(uidx) => {
                if uidx == 0 || uidx - 1 >= entries.len() {
                    r == Err::<Option<JvmValue>, RuntimeError>(RuntimeError::InvalidStackState)
                        && vm_unchanged(pre, post)
                } else {
                    match entries[uidx - 1] {
                        ConstantPoolEntry::Utf8(s) => {
                            if pre.spec_next_id() == usize::MAX {
                                r == Err::<Option<JvmValue>, RuntimeError>(
                                    RuntimeError::InvalidStackState,
                                ) && vm_unchanged(pre, post)
                            } else {
                                &&& r == Ok::<Option<JvmValue>, RuntimeError>(None)
                                &&& step_alloc(
                                    pre,
                                    post,
                                    st.push(JvmValue::Reference(Some(pre.spec_next_id()))),
                                    Some(s@),
                                )
                                &&& is_string_object(
                                    post.spec_heap().last(),
                                    spec_strlen_field(s@),
                                )
                            }
                        },
                        _ => r == Err::<Option<JvmValue>, RuntimeError>(
                            RuntimeError::InvalidStackState,
                        ) && vm_unchanged(pre, post),
                    }
                }
            },
            _ => r == Err::<Option<JvmValue>, RuntimeError>(RuntimeError::InvalidStackState)
                && vm_unchanged(pre, post),
        }
    }
}

/// What `Getstatic` does: `System.out` or `System.err` allocates a fresh
/// print-stream object, with a numeric fallback for the two legacy
/// indices.
pub open spec fn spec_getstatic_rel(
    pre: JvmCompatibleVm,
    post: JvmCompatibleVm,
    r: Result<Option<JvmValue>, RuntimeError>,
    k: u16,
) -> bool {
    let entries = pre.spec_frames().last().constant_pool.spec_entries();
    let st = pre.spec_frames().last().operand_stack@;
    let stderr_opt = match spec_resolve_field(entries, k) {
        Some(b) => Some(b),
        None => if k == 31 {
            Some(false)
        } else if k == 32 {
            Some(true)
        } else {
            None
        },
    };
    match stderr_opt {
        Some(stderr) => {
            if pre.spec_next_id() == usize::MAX {
                r == Err::<Option<JvmValue>, RuntimeError>(RuntimeError::InvalidStackState)
                    && vm_unchanged(pre, post)
            } else {
                &&& r == Ok::<Option<JvmValue>, RuntimeError>(None)
                &&& step_alloc(
                    pre,
                    post,
                    st.push(JvmValue::Reference(Some(pre.spec_next_id()))),
                    None,
                )
                &&& is_printstream_object(post.spec_heap().last(), stderr)
            }
        },
        None => r == Err::<Option<JvmValue>, RuntimeError>(RuntimeError::InvalidStackState)
            && vm_unchanged(pre, post),
    }
}

} // verus!

verus! {

/// The float bits `println(F)V` coerces its argument to, or nothing.
pub open spec fn spec_coerce_print_float(v: JvmValue) -> Option<u32> {
    match v {
        JvmValue::Float(f) => Some(f),
        JvmValue::Int(i) => Some(fp::i2f_of(i)),
        JvmValue::Double(d) => Some(fp::d2f_of(d)),
        _ => None,
    }
}

/// The double bits `println(D)V` coerces its argument to, or nothing.
pub open spec fn spec_coerce_print_double(v: JvmValue) -> Option<u64> {
    match v {
        JvmValue::Double(d) => Some(d),
        JvmValue::Float(f) => Some(fp::f2d_of(f)),
        JvmValue::Int(i) => Some(fp::i2d_of(i)),
        _ => None,
    }
}

/// The boolean `println(Z)V` coerces its argument to, or nothing.
pub open spec fn spec_coerce_print_boolean(v: JvmValue) -> Option<bool> {
    match v {
        JvmValue::Boolean(b) => Some(b),
        JvmValue::Int(i) => Some(i != 0),
        _ => None,
    }
}

/// The one-character text `println(C)V` renders, or nothing.
pub open spec fn spec_coerce_print_char(v: JvmValue) -> Option<Seq<char>> {
    match v {
        JvmValue::Char(c) => Some(text::char_str_of(c)),
        JvmValue::Int(i) => Some(seq![((i as u8) as char)]),
        _ => None,
    }
}

/// A `println` of the whole popped value, rendered by its kind; the write
/// happens only when the receiver is a valid stream.
pub open spec fn spec_println_value_rel(
    pre: JvmCompatibleVm,
    post: JvmCompatibleVm,
    r: Result<Option<JvmValue>, RuntimeError>,
) -> bool {
    let st = pre.spec_frames().last().operand_stack@;
    if st.len() < 2 {
        r == Err::<Option<JvmValue>, RuntimeError>(RuntimeError::StackUnderflow) && vm_unchanged(
            pre,
            post,
        )
    } else {
        let value = st.last();
        let printed = match spec_stream_kind(pre.spec_heap(), st[st.len() - 2]) {
            Some(e) => Some((e, true, spec_value_line(value))),
            None => None,
        };
        r == Ok::<Option<JvmValue>, RuntimeError>(None) && step_print(
            pre,
            post,
            st.take(st.len() - 2),
            printed,
        )
    }
}

/// A `print` or `println` of a heap string; the write happens only when
/// both the string and the stream are valid.
pub open spec fn spec_print_string_rel(
    pre: JvmCompatibleVm,
    post: JvmCompatibleVm,
    r: Result<Option<JvmValue>, RuntimeError>,
    newline: bool,
) -> bool {
    let st = pre.spec_frames().last().operand_stack@;
    if st.len() < 2 {
        r == Err::<Option<JvmValue>, RuntimeError>(RuntimeError::StackUnderflow) && vm_unchanged(
            pre,
            post,
        )
    } else {
        let printed = match (st.last(), st[st.len() - 2]) {
            (JvmValue::Reference(sid_opt), JvmValue::Reference(psid_opt)) => match (
                sid_opt,
                psid_opt,
            ) {
                (Some(sid), Some(psid)) => match (
                    spec_string_get(pre.spec_strings(), sid),
                    spec_stream_kind(pre.spec_heap(), JvmValue::Reference(Some(psid))),
                ) {
                    (Some(txt), Some(e)) => Some((e, newline, txt)),
                    _ => None,
                },
                _ => None,
            },
            _ => None,
        };
        r == Ok::<Option<JvmValue>, RuntimeError>(None) && step_print(
            pre,
            post,
            st.take(st.len() - 2),
            printed,
        )
    }
}

/// A `println` of a typed value: the receiver is checked first, and a
/// coercion failure faults only when the receiver was a valid stream.
pub open spec fn spec_println_coerced_rel(
    pre: JvmCompatibleVm,
    post: JvmCompatibleVm,
    r: Result<Option<JvmValue>, RuntimeError>,
    rendered: Option<Seq<char>>,
) -> bool {
    let st = pre.spec_frames().last().operand_stack@;
    if st.len() < 2 {
        r == Err::<Option<JvmValue>, RuntimeError>(RuntimeError::StackUnderflow) && vm_unchanged(
            pre,
            post,
        )
    } else {
        match spec_stream_kind(pre.spec_heap(), st[st.len() - 2]) {
            Some(e) => match rendered {
                Some(txt) => r == Ok::<Option<JvmValue>, RuntimeError>(None) && step_print(
                    pre,
                    post,
                    st.take(st.len() - 2),
                    Some((e, true, txt)),
                ),
                None => r == Err::<Option<JvmValue>, RuntimeError>(
                    RuntimeError::InvalidStackState,
                ) && vm_unchanged(pre, post),
            },
            None => r == Ok::<Option<JvmValue>, RuntimeError>(None) && step_print(
                pre,
                post,
                st.take(st.len() - 2),
                None,
            ),
        }
    }
}

/// What `Invokevirtual` does, by resolved behavior.
pub open spec fn spec_invokevirtual_rel(
    pre: JvmCompatibleVm,
    post: JvmCompatibleVm,
    r: Result<Option<JvmValue>, RuntimeError>,
    k: u16,
) -> bool {
    let entries = pre.spec_frames().last().constant_pool.spec_entries();
    let st = pre.spec_frames().last().operand_stack@;
    let pc = pre.spec_frames().last().pc as int;
    match spec_resolve(entries, k) {
        ResolvedMethod::PrintStreamPrintln => spec_println_value_rel(pre, post, r),
        ResolvedMethod::PrintStreamPrint => spec_print_string_rel(pre, post, r, false),
        ResolvedMethod::PrintStreamPrintlnString => spec_print_string_rel(pre, post, r, true),
        ResolvedMethod::PrintStreamPrintlnFloat => spec_println_coerced_rel(
            pre,
            post,
            r,
            if st.len() >= 2 {
                match spec_coerce_print_float(st.last()) {
                    Some(f) => Some(fp::float_str_of(f)),
                    None => None,
                }
            } else {
                None
            },
        ),
        ResolvedMethod::PrintStreamPrintlnDouble => spec_println_coerced_rel(
            pre,
            post,
            r,
            if st.len() >= 2 {
                match spec_coerce_print_double(st.last()) {
                    Some(d) => Some(fp::double_str_of(d)),
                    None => None,
                }
            } else {
                None
            },
        ),
        ResolvedMethod::PrintStreamPrintlnBoolean => spec_println_coerced_rel(
            pre,
            post,
            r,
            if st.len() >= 2 {
                match spec_coerce_print_boolean(st.last()) {
                    Some(b) => Some(text::bool_str_of(b)),
                    None => None,
                }
            } else {
                None
            },
        ),
        ResolvedMethod::PrintStreamPrintlnChar => spec_println_coerced_rel(
            pre,
            post,
            r,
            if st.len() >= 2 {
                spec_coerce_print_char(st.last())
            } else {
                None
            },
        ),
        ResolvedMethod::StringLength => {
            if st.len() < 1 {
                r == Err::<Option<JvmValue>, RuntimeError>(RuntimeError::StackUnderflow)
                    && vm_unchanged(pre, post)
            } else {
                match st.last() {
                    JvmValue::Reference(opt) => match opt {
                        Some(sid) => match spec_string_get(pre.spec_strings(), sid) {
                            Some(txt) => r == Ok::<Option<JvmValue>, RuntimeError>(None)
                                && step_stack(
                                pre,
                                post,
                                st.drop_last().push(JvmValue::Int(spec_strlen_field(txt))),
                                pc + 1,
                            ),
                            None => r == Err::<Option<JvmValue>, RuntimeError>(
                                RuntimeError::InvalidStackState,
                            ) && vm_unchanged(pre, post),
                        },
                        None => r == Err::<Option<JvmValue>, RuntimeError>(
                            RuntimeError::InvalidStackState,
                        ) && vm_unchanged(pre, post),
                    },
                    _ => r == Err::<Option<JvmValue>, RuntimeError>(
                        RuntimeError::InvalidStackState,
                    ) && vm_unchanged(pre, post),
                }
            }
        },
        ResolvedMethod::StringBuilderAppendString => spec_sb_append_rel(pre, post, r),
        ResolvedMethod::StringBuilderAppendInt => spec_sb_append_rel(pre, post, r),
        ResolvedMethod::StringBuilderAppendDouble => spec_sb_append_rel(pre, post, r),
        ResolvedMethod::StringBuilderToString => {
            if st.len() < 1 {
                r == Err::<Option<JvmValue>, RuntimeError>(RuntimeError::StackUnderflow)
                    && vm_unchanged(pre, post)
            } else {
                r == Ok::<Option<JvmValue>, RuntimeError>(None) && step_stack(
                    pre,
                    post,
                    st.drop_last().push(JvmValue::Reference(Some(1usize))),
                    pc + 1,
                )
            }
        },
        ResolvedMethod::Unknown => {
            if k == 33 {
                spec_numeric_println_int_rel(pre, post, r)
            } else if k == 34 {
                spec_print_string_rel(pre, post, r, false)
            } else if k == 35 {
                spec_print_string_rel(pre, post, r, true)
            } else {
                r == Err::<Option<JvmValue>, RuntimeError>(RuntimeError::InvalidStackState)
                    && vm_unchanged(pre, post)
            }
        },
        _ => r == Err::<Option<JvmValue>, RuntimeError>(RuntimeError::InvalidStackState)
            && vm_unchanged(pre, post),
    }
}

/// A StringBuilder append: both operands leave and the builder reference
/// returns for chaining.
pub open spec fn spec_sb_append_rel(
    pre: JvmCompatibleVm,
    post: JvmCompatibleVm,
    r: Result<Option<JvmValue>, RuntimeError>,
) -> bool {
    let st = pre.spec_frames().last().operand_stack@;
    let pc = pre.spec_frames().last().pc as int;
    if st.len() < 2 {
        r == Err::<Option<JvmValue>, RuntimeError>(RuntimeError::StackUnderflow) && vm_unchanged(
            pre,
            post,
        )
    } else {
        r == Ok::<Option<JvmValue>, RuntimeError>(None) && step_stack(
            pre,
            post,
            st.take(st.len() - 2).push(st[st.len() - 2]),
            pc + 1,
        )
    }
}

/// The legacy numeric fallback for `println(I)V`: the popped value is
/// coerced to an integer.
pub open spec fn spec_numeric_println_int_rel(
    pre: JvmCompatibleVm,
    post: JvmCompatibleVm,
    r: Result<Option<JvmValue>, RuntimeError>,
) -> bool {
    let st = pre.spec_frames().last().operand_stack@;
    if st.len() < 1 {
        r == Err::<Option<JvmValue>, RuntimeError>(RuntimeError::StackUnderflow) && vm_unchanged(
            pre,
            post,
        )
    } else {
        match spec_as_int(st.last()) {
            None => r == Err::<Option<JvmValue>, RuntimeError>(RuntimeError::InvalidStackState)
                && vm_unchanged(pre, post),
            Some(v) => if st.len() < 2 {
                r == Err::<Option<JvmValue>, RuntimeError>(RuntimeError::StackUnderflow)
                    && vm_unchanged(pre, post)
            } else {
                let printed = match spec_stream_kind(pre.spec_heap(), st[st.len() - 2]) {
                    Some(e) => Some((e, true, text::dec_str_of(v as int))),
                    None => None,
                };
                r == Ok::<Option<JvmValue>, RuntimeError>(None) && step_print(
                    pre,
                    post,
                    st.take(st.len() - 2),
                    printed,
                )
            },
        }
    }
}

} // verus!

verus! {

/// The scanning state of the descriptor walk.
#[derive(Debug, Clone, Copy, PartialEq, Eq, Structural)]
pub enum ScanMode {
    /// Still before the opening parenthesis.
    BeforeParen,
    /// Reading parameter type descriptors.
    Normal,
    /// Inside an object type, skipping to the semicolon.
    InObject,
    /// Just after an array marker: the next character decides.
    AfterArray,
}

/// Whether a character is a primitive type descriptor letter.
pub open spec fn spec_is_prim(c: char) -> bool {
    c == 'B' || c == 'C' || c == 'D' || c == 'F' || c == 'I' || c == 'J' || c == 'S' || c == 'Z'
}

/// The parameter count contributed by the descriptor from position `i`
/// onward, in the given scanning state.
pub open spec fn spec_count_from(s: Seq<char>, i: int, mode: ScanMode) -> int
    decreases s.len() - i,
{
    if i < 0 || i >= s.len() {
        0
    } else {
        let c = s[i];
        match mode {
            ScanMode::BeforeParen => {
                if c == '(' {
                    spec_count_from(s, i + 1, ScanMode::Normal)
                } else {
                    spec_count_from(s, i + 1, ScanMode::BeforeParen)
                }
            },
            ScanMode::InObject => {
                if c == ';' {
                    spec_count_from(s, i + 1, ScanMode::Normal)
                } else {
                    spec_count_from(s, i + 1, ScanMode::InObject)
                }
            },
            ScanMode::AfterArray => {
                if spec_is_prim(c) {
                    1 + spec_count_from(s, i + 1, ScanMode::Normal)
                } else if c == 'L' {
                    1 + spec_count_from(s, i + 1, ScanMode::InObject)
                } else {
                    spec_count_from(s, i + 1, ScanMode::Normal)
                }
            },
            ScanMode::Normal => {
                if c == ')' {
                    0
                } else if spec_is_prim(c) {
                    1 + spec_count_from(s, i + 1, ScanMode::Normal)
                } else if c == 'L' {
                    1 + spec_count_from(s, i + 1, ScanMode::InObject)
                } else if c == '[' {
                    spec_count_from(s, i + 1, ScanMode::AfterArray)
                } else {
                    spec_count_from(s, i + 1, ScanMode::Normal)
                }
            },
        }
    }
}

/// The semantic parameter count of a method descriptor: primitives count
/// one each, an object type counts one up to its semicolon, an array
/// marker passes the count to its element type; the return type after
/// the parenthesis is not counted.
pub open spec fn spec_count_params(s: Seq<char>) -> int {
    spec_count_from(s, 0, ScanMode::BeforeParen)
}

/// The count never runs beyond the characters that remain, and never
/// below zero.
pub proof fn lemma_count_from_bounds(s: Seq<char>, i: int, mode: ScanMode)
    ensures
        0 <= spec_count_from(s, i, mode) <= s.len() - i || spec_count_from(s, i, mode) == 0,
    decreases s.len() - i,
{
    if 0 <= i < s.len() {
        lemma_count_from_bounds(s, i + 1, ScanMode::BeforeParen);
        lemma_count_from_bounds(s, i + 1, ScanMode::Normal);
        lemma_count_from_bounds(s, i + 1, ScanMode::InObject);
        lemma_count_from_bounds(s, i + 1, ScanMode::AfterArray);
    }
}

/// Walk a method descriptor and count its parameters, exactly as
/// `spec_count_params` describes.
pub fn count_method_parameters(descriptor: &str) -> (r: usize)
    ensures
        r == spec_count_params(descriptor@),
{
    let n = descriptor.unicode_len();
    let mut i: usize = 0;
    let mut mode = ScanMode::BeforeParen;
    let mut count: usize = 0;
    proof {
        lemma_count_from_bounds(descriptor@, 0, ScanMode::BeforeParen);
    }
    while i < n
        invariant
            0 <= i <= n,
            n == descriptor@.len(),
            count <= i,
            spec_count_params(descriptor@) == count + spec_count_from(descriptor@, i as int, mode),
        decreases n - i,
    {
        let ghost i0 = i as int;
        let ghost m0 = mode;
        let ghost c0 = count;
        let c = descriptor.get_char(i);
        let is_prim = c == 'B' || c == 'C' || c == 'D' || c == 'F' || c == 'I' || c == 'J' || c
            == 'S' || c == 'Z';
        match mode {
            ScanMode::BeforeParen => {
                if c == '(' {
                    mode = ScanMode::Normal;
                }
            },
            ScanMode::InObject => {
                if c == ';' {
                    mode = ScanMode::Normal;
                }
            },
            ScanMode::AfterArray => {
                if is_prim {
                    count = count + 1;
                    mode = ScanMode::Normal;
                } else if c == 'L' {
                    count = count + 1;
                    mode = ScanMode::InObject;
                } else {
                    mode = ScanMode::Normal;
                }
            },
            ScanMode::Normal => {
                if c == ')' {
                    proof {
                        assert(spec_count_from(descriptor@, i as int, mode) == 0);
                    }
                    return count;
                } else if is_prim {
                    count = count + 1;
                } else if c == 'L' {
                    count = count + 1;
                    mode = ScanMode::InObject;
                } else if c == '[' {
                    mode = ScanMode::AfterArray;
                }
            },
        }
        proof {
            assert(spec_count_from(descriptor@, i0, m0) == (count - c0) + spec_count_from(
                descriptor@,
                i0 + 1,
                mode,
            ));
        }
        i = i + 1;
    }
    count
}

/// The last stored method with the given name, walking the stored order.
pub open spec fn spec_find_method(ms: Seq<MethodInfo>, name: Seq<char>) -> Option<int>
    decreases ms.len(),
{
    if ms.len() == 0 {
        None
    } else if ms.last().name@ == name {
        Some(ms.len() - 1)
    } else {
        spec_find_method(ms.drop_last(), name)
    }
}

/// Whether a class name is outside the `java/` namespace.
pub open spec fn spec_is_user_class(cn: Seq<char>) -> bool {
    !(cn.len() >= 5 && cn.take(5) == "java/"@)
}

/// Which stored method a `Methodref` resolves to as a user-defined call:
/// the class must lie outside `java/` and the method name must be stored
/// in the loaded class.
pub open spec fn spec_resolve_user(
    entries: Seq<ConstantPoolEntry>,
    cls: Option<ClassFile>,
    k: u16,
) -> Option<int> {
    if k == 0 || k - 1 >= entries.len() {
        None
    } else {
        match entries[k - 1] {
            ConstantPoolEntry::Methodref(class_index, nat_index) => {
                match crate::resolver::spec_class_name(entries, class_index) {
                    Some(cn) => {
                        if !spec_is_user_class(cn) {
                            None
                        } else {
                            match crate::resolver::spec_name_and_type(entries, nat_index) {
                                Some(nd) => match cls {
                                    Some(cf) => spec_find_method(cf.methods@, nd.0),
                                    None => None,
                                },
                                None => None,
                            }
                        }
                    },
                    None => None,
                }
            },
            _ => None,
        }
    }
}

/// The locals of a fresh user-method frame: the arguments in call order,
/// zero-padded to the method's local count.
pub open spec fn spec_call_locals(max_locals: int, st: Seq<JvmValue>, count: int) -> Seq<JvmValue> {
    Seq::new(
        if max_locals >= 0 {
            max_locals as nat
        } else {
            0
        },
        |i: int|
            if i < count && st.len() >= count - i {
                st[st.len() - count + i]
            } else {
                JvmValue::Int(0)
            },
    )
}

/// A call of a stored method: the caller advances past the invoke and
/// loses the arguments; a fresh frame with the callee's code, the
/// caller's pool, and the arguments in its locals goes on top.
pub open spec fn spec_user_call_rel(
    pre: JvmCompatibleVm,
    post: JvmCompatibleVm,
    r: Result<Option<JvmValue>, RuntimeError>,
    j: int,
) -> bool {
    let st = pre.spec_frames().last().operand_stack@;
    let pc = pre.spec_frames().last().pc as int;
    let cf = pre.spec_class().unwrap();
    let mi = cf.methods@[j];
    let count = spec_count_params(mi.descriptor@);
    if st.len() < count {
        r == Err::<Option<JvmValue>, RuntimeError>(RuntimeError::StackUnderflow) && vm_unchanged(
            pre,
            post,
        )
    } else {
        &&& r == Ok::<Option<JvmValue>, RuntimeError>(None)
        &&& post.spec_frames().len() == pre.spec_frames().len() + 1
        &&& forall|i: int|
            0 <= i < pre.spec_frames().len() - 1 ==> frame_like(
                #[trigger] post.spec_frames()[i],
                pre.spec_frames()[i],
            )
        &&& post.spec_frames()[pre.spec_frames().len() - 1].operand_stack@ == st.take(
            st.len() - count,
        )
        &&& post.spec_frames()[pre.spec_frames().len() - 1].locals@ == pre.spec_frames().last().locals@
        &&& post.spec_frames()[pre.spec_frames().len() - 1].pc == pc + 1
        &&& post.spec_frames()[pre.spec_frames().len() - 1].bytecode@
            == pre.spec_frames().last().bytecode@
        &&& post.spec_frames()[pre.spec_frames().len() - 1].constant_pool.spec_entries()
            == pre.spec_frames().last().constant_pool.spec_entries()
        &&& post.spec_frames().last().operand_stack@ == Seq::<JvmValue>::empty()
        &&& post.spec_frames().last().pc == 0
        &&& post.spec_frames().last().bytecode@ == mi.bytecode@
        &&& post.spec_frames().last().constant_pool.spec_entries()
            == pre.spec_frames().last().constant_pool.spec_entries()
        &&& post.spec_frames().last().locals@ == spec_call_locals(
            mi.max_locals as int,
            st,
            count,
        )
        &&& post.spec_heap() == pre.spec_heap()
        &&& post.spec_strings() == pre.spec_strings()
        &&& post.spec_output() == pre.spec_output()
        &&& post.spec_next_id() == pre.spec_next_id()
        &&& post.spec_steps() == pre.spec_steps()
        &&& post.spec_max_steps() == pre.spec_max_steps()
        &&& post.spec_class() == pre.spec_class()
    }
}

/// The wrapped-around magnitude of an i32, as `Math.abs` behaves.
pub open spec fn spec_iabs(a: i32) -> i32 {
    if a == i32::MIN {
        i32::MIN
    } else if a < 0 {
        (-a) as i32
    } else {
        a
    }
}

/// A step that pops coercible values and pushes one result.
pub open spec fn step_pop_push(
    pre: JvmCompatibleVm,
    post: JvmCompatibleVm,
    popped: int,
    result: JvmValue,
) -> bool {
    let st = pre.spec_frames().last().operand_stack@;
    let pc = pre.spec_frames().last().pc as int;
    step_stack(pre, post, st.take(st.len() - popped).push(result), pc + 1)
}

} // verus!

verus! {

/// A step that pops values, allocates a fresh string object with the
/// given text, and pushes the new reference.
pub open spec fn step_alloc_string(
    pre: JvmCompatibleVm,
    post: JvmCompatibleVm,
    popped: int,
    txt: Seq<char>,
) -> bool {
    let st = pre.spec_frames().last().operand_stack@;
    &&& step_alloc(
        pre,
        post,
        st.take(st.len() - popped).push(JvmValue::Reference(Some(pre.spec_next_id()))),
        Some(txt),
    )
    &&& is_string_object(post.spec_heap().last(), spec_strlen_field(txt))
}

/// What `Invokestatic` does: a stored user method takes precedence, then
/// the intrinsic table, then the legacy numeric fallback.
pub open spec fn spec_invokestatic_rel(
    pre: JvmCompatibleVm,
    post: JvmCompatibleVm,
    r: Result<Option<JvmValue>, RuntimeError>,
    k: u16,
) -> bool {
    let entries = pre.spec_frames().last().constant_pool.spec_entries();
    match spec_resolve_user(entries, pre.spec_class(), k) {
        Some(j) => spec_user_call_rel(pre, post, r, j),
        None => spec_static_intrinsic_rel(pre, post, r, k),
    }
}

/// The static intrinsics, by resolved behavior.
pub open spec fn spec_static_intrinsic_rel(
    pre: JvmCompatibleVm,
    post: JvmCompatibleVm,
    r: Result<Option<JvmValue>, RuntimeError>,
    k: u16,
) -> bool {
    let entries = pre.spec_frames().last().constant_pool.spec_entries();
    let st = pre.spec_frames().last().operand_stack@;
    let pc = pre.spec_frames().last().pc as int;
    let fail = r == Err::<Option<JvmValue>, RuntimeError>(RuntimeError::InvalidStackState)
        && vm_unchanged(pre, post);
    match spec_resolve(entries, k) {
        ResolvedMethod::MathRandom => r == Ok::<Option<JvmValue>, RuntimeError>(None)
            && spec_random_push(pre, post),
        ResolvedMethod::MathMaxInt => spec_int_pair_rel(pre, post, r, true),
        ResolvedMethod::MathMinInt => spec_int_pair_rel(pre, post, r, false),
        ResolvedMethod::MathMaxDouble => spec_double_pair_rel(pre, post, r, true),
        ResolvedMethod::MathMinDouble => spec_double_pair_rel(pre, post, r, false),
        ResolvedMethod::MathAbs => {
            if st.len() < 1 {
                r == Err::<Option<JvmValue>, RuntimeError>(RuntimeError::StackUnderflow)
                    && vm_unchanged(pre, post)
            } else {
                match spec_as_int(st.last()) {
                    Some(v) => r == Ok::<Option<JvmValue>, RuntimeError>(None) && step_pop_push(
                        pre,
                        post,
                        1,
                        JvmValue::Int(spec_iabs(v)),
                    ),
                    None => fail,
                }
            }
        },
        ResolvedMethod::MathAbsDouble => {
            if st.len() < 1 {
                r == Err::<Option<JvmValue>, RuntimeError>(RuntimeError::StackUnderflow)
                    && vm_unchanged(pre, post)
            } else {
                match st.last() {
                    JvmValue::Double(d) => r == Ok::<Option<JvmValue>, RuntimeError>(None)
                        && step_pop_push(
                        pre,
                        post,
                        1,
                        JvmValue::Double(d & 0x7FFFFFFFFFFFFFFFu64),
                    ),
                    _ => fail,
                }
            }
        },
        ResolvedMethod::MathFloor => spec_double_unary_rel(pre, post, r, DoubleRound::Floor),
        ResolvedMethod::MathCeil => spec_double_unary_rel(pre, post, r, DoubleRound::Ceil),
        ResolvedMethod::MathRound => spec_double_unary_rel(pre, post, r, DoubleRound::Round),
        ResolvedMethod::IntegerParseInt => {
            spec_parse_from_string_rel(pre, post, r, StringParseKind::ParseInt)
        },
        ResolvedMethod::IntegerToString => {
            if st.len() < 1 {
                r == Err::<Option<JvmValue>, RuntimeError>(RuntimeError::StackUnderflow)
                    && vm_unchanged(pre, post)
            } else {
                match spec_as_int(st.last()) {
                    Some(v) => if pre.spec_next_id() == usize::MAX {
                        fail
                    } else {
                        r == Ok::<Option<JvmValue>, RuntimeError>(None) && step_alloc_string(
                            pre,
                            post,
                            1,
                            text::dec_str_of(v as int),
                        )
                    },
                    None => fail,
                }
            }
        },
        ResolvedMethod::DoubleParseDouble => {
            spec_parse_from_string_rel(pre, post, r, StringParseKind::ParseDouble)
        },
        ResolvedMethod::DoubleToString => {
            if st.len() < 1 {
                r == Err::<Option<JvmValue>, RuntimeError>(RuntimeError::StackUnderflow)
                    && vm_unchanged(pre, post)
            } else {
                match spec_as_double(st.last()) {
                    Some(d) => if pre.spec_next_id() == usize::MAX {
                        fail
                    } else {
                        r == Ok::<Option<JvmValue>, RuntimeError>(None) && step_alloc_string(
                            pre,
                            post,
                            1,
                            fp::double_str_of(d),
                        )
                    },
                    None => fail,
                }
            }
        },
        ResolvedMethod::BooleanParseBoolean => {
            spec_parse_from_string_rel(pre, post, r, StringParseKind::ParseBoolean)
        },
        ResolvedMethod::BooleanToString => {
            if st.len() < 1 {
                r == Err::<Option<JvmValue>, RuntimeError>(RuntimeError::StackUnderflow)
                    && vm_unchanged(pre, post)
            } else {
                match spec_as_boolean(st.last()) {
                    Some(b) => if pre.spec_next_id() == usize::MAX {
                        fail
                    } else {
                        r == Ok::<Option<JvmValue>, RuntimeError>(None) && step_alloc_string(
                            pre,
                            post,
                            1,
                            text::bool_str_of(b),
                        )
                    },
                    None => fail,
                }
            }
        },
        ResolvedMethod::CharacterIsDigit => spec_char_unary_rel(pre, post, r, CharOp::IsDigit),
        ResolvedMethod::CharacterIsLetter => spec_char_unary_rel(pre, post, r, CharOp::IsLetter),
        ResolvedMethod::CharacterToUpperCase => spec_char_unary_rel(pre, post, r, CharOp::Upper),
        ResolvedMethod::CharacterToLowerCase => spec_char_unary_rel(pre, post, r, CharOp::Lower),
        ResolvedMethod::Unknown => {
            if k == 36 {
                r == Ok::<Option<JvmValue>, RuntimeError>(None) && spec_random_push(pre, post)
            } else {
                fail
            }
        },
        _ => fail,
    }
}

/// A fresh uniform double in [0, 1) is pushed: some 53-bit integer
/// divided by 2^53, as IEEE-754 division of their widened bits.
pub open spec fn spec_random_push(pre: JvmCompatibleVm, post: JvmCompatibleVm) -> bool {
    let st = pre.spec_frames().last().operand_stack@;
    let pc = pre.spec_frames().last().pc as int;
    exists|q: u64|
        q < 0x20000000000000u64 && #[trigger] step_stack(
            pre,
            post,
            st.push(
                JvmValue::Double(
                    fp::ddiv_of(fp::l2d_of(q as i64), fp::l2d_of(0x20000000000000i64)),
                ),
            ),
            pc + 1,
        )
}

/// Max or min of two coercible integers.
pub open spec fn spec_int_pair_rel(
    pre: JvmCompatibleVm,
    post: JvmCompatibleVm,
    r: Result<Option<JvmValue>, RuntimeError>,
    take_max: bool,
) -> bool {
    let st = pre.spec_frames().last().operand_stack@;
    if st.len() < 1 {
        r == Err::<Option<JvmValue>, RuntimeError>(RuntimeError::StackUnderflow) && vm_unchanged(
            pre,
            post,
        )
    } else {
        match spec_as_int(st.last()) {
            None => r == Err::<Option<JvmValue>, RuntimeError>(RuntimeError::InvalidStackState)
                && vm_unchanged(pre, post),
            Some(b) => if st.len() < 2 {
                r == Err::<Option<JvmValue>, RuntimeError>(RuntimeError::StackUnderflow)
                    && vm_unchanged(pre, post)
            } else {
                match spec_as_int(st[st.len() - 2]) {
                    None => r == Err::<Option<JvmValue>, RuntimeError>(
                        RuntimeError::InvalidStackState,
                    ) && vm_unchanged(pre, post),
                    Some(a) => {
                        let res = if take_max {
                            if a > b {
                                a
                            } else {
                                b
                            }
                        } else {
                            if a < b {
                                a
                            } else {
                                b
                            }
                        };
                        r == Ok::<Option<JvmValue>, RuntimeError>(None) && step_pop_push(
                            pre,
                            post,
                            2,
                            JvmValue::Int(res),
                        )
                    },
                }
            },
        }
    }
}

/// Max or min of two doubles, by the IEEE-754 order on their bits.
pub open spec fn spec_double_pair_rel(
    pre: JvmCompatibleVm,
    post: JvmCompatibleVm,
    r: Result<Option<JvmValue>, RuntimeError>,
    take_max: bool,
) -> bool {
    let st = pre.spec_frames().last().operand_stack@;
    if st.len() < 2 {
        r == Err::<Option<JvmValue>, RuntimeError>(RuntimeError::StackUnderflow) && vm_unchanged(
            pre,
            post,
        )
    } else {
        match (st[st.len() - 2], st.last()) {
            (JvmValue::Double(a), JvmValue::Double(b)) => {
                let res = if take_max {
                    if fp::dgt_of(a, b) {
                        a
                    } else {
                        b
                    }
                } else {
                    if fp::dlt_of(a, b) {
                        a
                    } else {
                        b
                    }
                };
                r == Ok::<Option<JvmValue>, RuntimeError>(None) && step_pop_push(
                    pre,
                    post,
                    2,
                    JvmValue::Double(res),
                )
            },
            _ => r == Err::<Option<JvmValue>, RuntimeError>(RuntimeError::InvalidStackState)
                && vm_unchanged(pre, post),
        }
    }
}

/// The rounding intrinsics on one coercible double.
#[derive(Debug, Clone, Copy, PartialEq, Eq, Structural)]
pub enum DoubleRound {
    Floor,
    Ceil,
    Round,
}

/// Floor and ceil yield doubles; round yields a long.
pub open spec fn spec_double_unary_rel(
    pre: JvmCompatibleVm,
    post: JvmCompatibleVm,
    r: Result<Option<JvmValue>, RuntimeError>,
    op: DoubleRound,
) -> bool {
    let st = pre.spec_frames().last().operand_stack@;
    if st.len() < 1 {
        r == Err::<Option<JvmValue>, RuntimeError>(RuntimeError::StackUnderflow) && vm_unchanged(
            pre,
            post,
        )
    } else {
        match spec_as_double(st.last()) {
            None => r == Err::<Option<JvmValue>, RuntimeError>(RuntimeError::InvalidStackState)
                && vm_unchanged(pre, post),
            Some(d) => {
                let result = match op {
                    DoubleRound::Floor => JvmValue::Double(fp::dfloor_of(d)),
                    DoubleRound::Ceil => JvmValue::Double(fp::dceil_of(d)),
                    DoubleRound::Round => JvmValue::Long(fp::d2l_of(fp::dround_of(d))),
                };
                r == Ok::<Option<JvmValue>, RuntimeError>(None) && step_pop_push(
                    pre,
                    post,
                    1,
                    result,
                )
            },
        }
    }
}

/// The wrapper parses on a heap string.
#[derive(Debug, Clone, Copy, PartialEq, Eq, Structural)]
pub enum StringParseKind {
    ParseInt,
    ParseDouble,
    ParseBoolean,
}

/// Pop a string reference and parse its text; a malformed number faults,
/// while `parseBoolean` never does.
pub open spec fn spec_parse_from_string_rel(
    pre: JvmCompatibleVm,
    post: JvmCompatibleVm,
    r: Result<Option<JvmValue>, RuntimeError>,
    kind: StringParseKind,
) -> bool {
    let st = pre.spec_frames().last().operand_stack@;
    let fail = r == Err::<Option<JvmValue>, RuntimeError>(RuntimeError::InvalidStackState)
        && vm_unchanged(pre, post);
    if st.len() < 1 {
        r == Err::<Option<JvmValue>, RuntimeError>(RuntimeError::StackUnderflow) && vm_unchanged(
            pre,
            post,
        )
    } else {
        match st.last() {
            JvmValue::Reference(opt) => match opt {
                Some(sid) => match spec_string_get(pre.spec_strings(), sid) {
                    Some(txt) => match kind {
                        StringParseKind::ParseInt => match text::spec_parse_i32(txt) {
                            Some(v) => r == Ok::<Option<JvmValue>, RuntimeError>(None)
                                && step_pop_push(pre, post, 1, JvmValue::Int(v)),
                            None => fail,
                        },
                        StringParseKind::ParseDouble => if txt.len() >= 0x80000000 {
                            fail
                        } else {
                            match fp::parse_double_of(txt) {
                                Some(d) => r == Ok::<Option<JvmValue>, RuntimeError>(None)
                                    && step_pop_push(pre, post, 1, JvmValue::Double(d)),
                                None => fail,
                            }
                        },
                        StringParseKind::ParseBoolean => r == Ok::<Option<JvmValue>, RuntimeError>(
                            None,
                        ) && step_pop_push(
                            pre,
                            post,
                            1,
                            JvmValue::Boolean(text::spec_eq_true_ci(txt)),
                        ),
                    },
                    None => fail,
                },
                None => fail,
            },
            _ => fail,
        }
    }
}

/// The character intrinsics on one coercible code unit, truncated to a
/// byte as the machine renders characters.
#[derive(Debug, Clone, Copy, PartialEq, Eq, Structural)]
pub enum CharOp {
    IsDigit,
    IsLetter,
    Upper,
    Lower,
}

/// What a character intrinsic computes on the truncated byte.
pub open spec fn spec_char_op(op: CharOp, c: u16) -> JvmValue {
    let b = c as u8;
    match op {
        CharOp::IsDigit => JvmValue::Boolean(48 <= b <= 57),
        CharOp::IsLetter => JvmValue::Boolean((65 <= b <= 90) || (97 <= b <= 122)),
        CharOp::Upper => JvmValue::Char(
            if 97 <= b <= 122 {
                (b - 32) as u16
            } else {
                b as u16
            },
        ),
        CharOp::Lower => JvmValue::Char(
            if 65 <= b <= 90 {
                (b + 32) as u16
            } else {
                b as u16
            },
        ),
    }
}

/// Pop one coercible code unit and push the intrinsic's result.
pub open spec fn spec_char_unary_rel(
    pre: JvmCompatibleVm,
    post: JvmCompatibleVm,
    r: Result<Option<JvmValue>, RuntimeError>,
    op: CharOp,
) -> bool {
    let st = pre.spec_frames().last().operand_stack@;
    if st.len() < 1 {
        r == Err::<Option<JvmValue>, RuntimeError>(RuntimeError::StackUnderflow) && vm_unchanged(
            pre,
            post,
        )
    } else {
        match spec_as_char(st.last()) {
            None => r == Err::<Option<JvmValue>, RuntimeError>(RuntimeError::InvalidStackState)
                && vm_unchanged(pre, post),
            Some(c) => r == Ok::<Option<JvmValue>, RuntimeError>(None) && step_pop_push(
                pre,
                post,
                1,
                spec_char_op(op, c),
            ),
        }
    }
}

/// What the return instructions do.
pub open spec fn spec_ireturn_rel(
    pre: JvmCompatibleVm,
    post: JvmCompatibleVm,
    r: Result<Option<JvmValue>, RuntimeError>,
) -> bool {
    let st = pre.spec_frames().last().operand_stack@;
    if st.len() < 1 {
        r == Err::<Option<JvmValue>, RuntimeError>(RuntimeError::StackUnderflow) && vm_unchanged(
            pre,
            post,
        )
    } else {
        let v = st.last();
        if pre.spec_frames().len() == 1 {
            &&& r == Ok::<Option<JvmValue>, RuntimeError>(Some(v))
            &&& post.spec_frames().len() == 0
            &&& same_world(pre, post)
        } else {
            &&& r == Ok::<Option<JvmValue>, RuntimeError>(None)
            &&& post.spec_frames().len() == pre.spec_frames().len() - 1
            &&& forall|i: int|
                0 <= i < pre.spec_frames().len() - 2 ==> frame_like(
                    #[trigger] post.spec_frames()[i],
                    pre.spec_frames()[i],
                )
            &&& post.spec_frames().last().operand_stack@ == pre.spec_frames()[
                pre.spec_frames().len() - 2
            ].operand_stack@.push(v)
            &&& post.spec_frames().last().locals@ == pre.spec_frames()[
                pre.spec_frames().len() - 2
            ].locals@
            &&& post.spec_frames().last().pc == pre.spec_frames()[pre.spec_frames().len() - 2].pc
            &&& post.spec_frames().last().bytecode@ == pre.spec_frames()[
                pre.spec_frames().len() - 2
            ].bytecode@
            &&& post.spec_frames().last().constant_pool.spec_entries() == pre.spec_frames()[
                pre.spec_frames().len() - 2
            ].constant_pool.spec_entries()
            &&& same_world(pre, post)
        }
    }
}

} // verus!

verus! {

/// A simple stack rewrite: the given outcome on the top frame's stack.
pub open spec fn spec_stack_rewrite_rel(
    pre: JvmCompatibleVm,
    post: JvmCompatibleVm,
    r: Result<Option<JvmValue>, RuntimeError>,
    outcome: Result<Seq<JvmValue>, RuntimeError>,
) -> bool {
    let pc = pre.spec_frames().last().pc as int;
    match outcome {
        Ok(st) => r == Ok::<Option<JvmValue>, RuntimeError>(None) && step_stack(
            pre,
            post,
            st,
            pc + 1,
        ),
        Err(e) => r == Err::<Option<JvmValue>, RuntimeError>(e) && vm_unchanged(pre, post),
    }
}

/// A load from a local-variable slot.
pub open spec fn spec_load_rel(
    pre: JvmCompatibleVm,
    post: JvmCompatibleVm,
    r: Result<Option<JvmValue>, RuntimeError>,
    idx: int,
) -> bool {
    let st = pre.spec_frames().last().operand_stack@;
    let locals = pre.spec_frames().last().locals@;
    let pc = pre.spec_frames().last().pc as int;
    if 0 <= idx < locals.len() {
        r == Ok::<Option<JvmValue>, RuntimeError>(None) && step_stack(
            pre,
            post,
            st.push(locals[idx]),
            pc + 1,
        )
    } else {
        r == Err::<Option<JvmValue>, RuntimeError>(RuntimeError::InvalidStackState)
            && vm_unchanged(pre, post)
    }
}

/// A store to a local-variable slot, growing the array with the kind's
/// zero when short.
pub open spec fn spec_store_rel(
    pre: JvmCompatibleVm,
    post: JvmCompatibleVm,
    r: Result<Option<JvmValue>, RuntimeError>,
    idx: int,
    kind: SlotKind,
) -> bool {
    let st = pre.spec_frames().last().operand_stack@;
    let locals = pre.spec_frames().last().locals@;
    let pc = pre.spec_frames().last().pc as int;
    if st.len() < 1 {
        r == Err::<Option<JvmValue>, RuntimeError>(RuntimeError::StackUnderflow) && vm_unchanged(
            pre,
            post,
        )
    } else {
        r == Ok::<Option<JvmValue>, RuntimeError>(None) && step_frame(
            pre,
            post,
            st.drop_last(),
            spec_store_locals(locals, idx, st.last(), kind),
            pc + 1,
        )
    }
}

/// A conditional branch: pop a coercible integer and jump to the
/// absolute instruction index when the condition holds.
pub open spec fn spec_branch_rel(
    pre: JvmCompatibleVm,
    post: JvmCompatibleVm,
    r: Result<Option<JvmValue>, RuntimeError>,
    kind: CondKind,
    offset: u16,
) -> bool {
    let st = pre.spec_frames().last().operand_stack@;
    let pc = pre.spec_frames().last().pc as int;
    if st.len() < 1 {
        r == Err::<Option<JvmValue>, RuntimeError>(RuntimeError::StackUnderflow) && vm_unchanged(
            pre,
            post,
        )
    } else {
        match spec_as_int(st.last()) {
            None => r == Err::<Option<JvmValue>, RuntimeError>(RuntimeError::InvalidStackState)
                && vm_unchanged(pre, post),
            Some(v) => r == Ok::<Option<JvmValue>, RuntimeError>(None) && step_stack(
                pre,
                post,
                st.drop_last(),
                if spec_cond(kind, v) {
                    offset as int
                } else {
                    pc + 1
                },
            ),
        }
    }
}

/// The full step relation: what one call of the instruction stepper does
/// to the machine, for every instruction.
pub open spec fn spec_step(
    pre: JvmCompatibleVm,
    post: JvmCompatibleVm,
    r: Result<Option<JvmValue>, RuntimeError>,
) -> bool {
    if pre.spec_frames().len() == 0 {
        r == Err::<Option<JvmValue>, RuntimeError>(RuntimeError::CallStackUnderflow)
            && vm_unchanged(pre, post)
    } else {
        let f = pre.spec_frames().last();
        let st = f.operand_stack@;
        let pc = f.pc as int;
        if f.pc >= f.bytecode@.len() {
            r == Ok::<Option<JvmValue>, RuntimeError>(None) && step_pop_frame(pre, post)
        } else {
            match f.bytecode@[pc] {
                JvmInstruction::IconstM1 => r == Ok::<Option<JvmValue>, RuntimeError>(None)
                    && step_stack(pre, post, st.push(JvmValue::Int(-1i32)), pc + 1),
                JvmInstruction::Iconst0 => r == Ok::<Option<JvmValue>, RuntimeError>(None)
                    && step_stack(pre, post, st.push(JvmValue::Int(0i32)), pc + 1),
                JvmInstruction::Iconst1 => r == Ok::<Option<JvmValue>, RuntimeError>(None)
                    && step_stack(pre, post, st.push(JvmValue::Int(1i32)), pc + 1),
                JvmInstruction::Iconst2 => r == Ok::<Option<JvmValue>, RuntimeError>(None)
                    && step_stack(pre, post, st.push(JvmValue::Int(2i32)), pc + 1),
                JvmInstruction::Iconst3 => r == Ok::<Option<JvmValue>, RuntimeError>(None)
                    && step_stack(pre, post, st.push(JvmValue::Int(3i32)), pc + 1),
                JvmInstruction::Iconst4 => r == Ok::<Option<JvmValue>, RuntimeError>(None)
                    && step_stack(pre, post, st.push(JvmValue::Int(4i32)), pc + 1),
                JvmInstruction::Iconst5 => r == Ok::<Option<JvmValue>, RuntimeError>(None)
                    && step_stack(pre, post, st.push(JvmValue::Int(5i32)), pc + 1),
                JvmInstruction::Lconst0 => r == Ok::<Option<JvmValue>, RuntimeError>(None)
                    && step_stack(pre, post, st.push(JvmValue::Long(0i64)), pc + 1),
                JvmInstruction::Lconst1 => r == Ok::<Option<JvmValue>, RuntimeError>(None)
                    && step_stack(pre, post, st.push(JvmValue::Long(1i64)), pc + 1),
                JvmInstruction::Dconst0 => r == Ok::<Option<JvmValue>, RuntimeError>(None)
                    && step_stack(pre, post, st.push(JvmValue::Double(fp::D_ZERO_BITS)), pc + 1),
                JvmInstruction::Dconst1 => r == Ok::<Option<JvmValue>, RuntimeError>(None)
                    && step_stack(pre, post, st.push(JvmValue::Double(fp::D_ONE_BITS)), pc + 1),
                JvmInstruction::Bipush(v) => r == Ok::<Option<JvmValue>, RuntimeError>(None)
                    && step_stack(pre, post, st.push(JvmValue::Int(v as i32)), pc + 1),
                JvmInstruction::Sipush(v) => r == Ok::<Option<JvmValue>, RuntimeError>(None)
                    && step_stack(pre, post, st.push(JvmValue::Int(v as i32)), pc + 1),
                JvmInstruction::Ldc(k) => spec_ldc_rel(pre, post, r, k),
                JvmInstruction::Ldc2W(k) => spec_ldc_rel(pre, post, r, k),
                JvmInstruction::Pop => {
                    if st.len() < 1 {
                        r == Err::<Option<JvmValue>, RuntimeError>(RuntimeError::StackUnderflow)
                            && vm_unchanged(pre, post)
                    } else {
                        r == Ok::<Option<JvmValue>, RuntimeError>(None) && step_stack(
                            pre,
                            post,
                            st.drop_last(),
                            pc + 1,
                        )
                    }
                },
                JvmInstruction::Dup => {
                    if st.len() < 1 {
                        r == Err::<Option<JvmValue>, RuntimeError>(RuntimeError::StackUnderflow)
                            && vm_unchanged(pre, post)
                    } else {
                        r == Ok::<Option<JvmValue>, RuntimeError>(None) && step_stack(
                            pre,
                            post,
                            st.push(st.last()),
                            pc + 1,
                        )
                    }
                },
                JvmInstruction::Swap => {
                    if st.len() < 2 {
                        r == Err::<Option<JvmValue>, RuntimeError>(RuntimeError::StackUnderflow)
                            && vm_unchanged(pre, post)
                    } else {
                        r == Ok::<Option<JvmValue>, RuntimeError>(None) && step_stack(
                            pre,
                            post,
                            st.update(st.len() - 1, st[st.len() - 2]).update(
                                st.len() - 2,
                                st[st.len() - 1],
                            ),
                            pc + 1,
                        )
                    }
                },
                JvmInstruction::Iadd => spec_stack_rewrite_rel(
                    pre,
                    post,
                    r,
                    spec_int_binop(IntOp::Add, st),
                ),
                JvmInstruction::Isub => spec_stack_rewrite_rel(
                    pre,
                    post,
                    r,
                    spec_int_binop(IntOp::Sub, st),
                ),
                JvmInstruction::Imul => spec_stack_rewrite_rel(
                    pre,
                    post,
                    r,
                    spec_int_binop(IntOp::Mul, st),
                ),
                JvmInstruction::Idiv => spec_stack_rewrite_rel(
                    pre,
                    post,
                    r,
                    spec_int_binop(IntOp::Div, st),
                ),
                JvmInstruction::Irem => spec_stack_rewrite_rel(
                    pre,
                    post,
                    r,
                    spec_int_binop(IntOp::Rem, st),
                ),
                JvmInstruction::Dadd => spec_stack_rewrite_rel(
                    pre,
                    post,
                    r,
                    spec_double_binop(DoubleOp::Add, st),
                ),
                JvmInstruction::Dsub => spec_stack_rewrite_rel(
                    pre,
                    post,
                    r,
                    spec_double_binop(DoubleOp::Sub, st),
                ),
                JvmInstruction::Dmul => spec_stack_rewrite_rel(
                    pre,
                    post,
                    r,
                    spec_double_binop(DoubleOp::Mul, st),
                ),
                JvmInstruction::Ddiv => spec_stack_rewrite_rel(
                    pre,
                    post,
                    r,
                    spec_double_binop(DoubleOp::Div, st),
                ),
                JvmInstruction::I2d => {
                    if st.len() < 1 {
                        r == Err::<Option<JvmValue>, RuntimeError>(RuntimeError::StackUnderflow)
                            && vm_unchanged(pre, post)
                    } else {
                        match spec_as_int(st.last()) {
                            None => r == Err::<Option<JvmValue>, RuntimeError>(
                                RuntimeError::InvalidStackState,
                            ) && vm_unchanged(pre, post),
                            Some(v) => r == Ok::<Option<JvmValue>, RuntimeError>(None)
                                && step_pop_push(pre, post, 1, JvmValue::Double(fp::i2d_of(v))),
                        }
                    }
                },
                JvmInstruction::D2i => {
                    if st.len() < 1 {
                        r == Err::<Option<JvmValue>, RuntimeError>(RuntimeError::StackUnderflow)
                            && vm_unchanged(pre, post)
                    } else {
                        match st.last() {
                            JvmValue::Double(d) => r == Ok::<Option<JvmValue>, RuntimeError>(None)
                                && step_pop_push(pre, post, 1, JvmValue::Int(fp::d2i_of(d))),
                            _ => r == Err::<Option<JvmValue>, RuntimeError>(
                                RuntimeError::InvalidStackState,
                            ) && vm_unchanged(pre, post),
                        }
                    }
                },
                JvmInstruction::Goto(o) => r == Ok::<Option<JvmValue>, RuntimeError>(None)
                    && step_stack(pre, post, st, o as int),
                JvmInstruction::Ifeq(o) => spec_branch_rel(pre, post, r, CondKind::Eq, o),
                JvmInstruction::Ifne(o) => spec_branch_rel(pre, post, r, CondKind::Ne, o),
                JvmInstruction::Iflt(o) => spec_branch_rel(pre, post, r, CondKind::Lt, o),
                JvmInstruction::Ifge(o) => spec_branch_rel(pre, post, r, CondKind::Ge, o),
                JvmInstruction::Ifgt(o) => spec_branch_rel(pre, post, r, CondKind::Gt, o),
                JvmInstruction::Ifle(o) => spec_branch_rel(pre, post, r, CondKind::Le, o),
                JvmInstruction::Return => r == Ok::<Option<JvmValue>, RuntimeError>(None)
                    && step_pop_frame(pre, post),
                JvmInstruction::Ireturn => spec_ireturn_rel(pre, post, r),
                JvmInstruction::New(_) => r == Ok::<Option<JvmValue>, RuntimeError>(None)
                    && step_stack(
                    pre,
                    post,
                    st.push(JvmValue::Reference(Some(0usize))),
                    pc + 1,
                ),
                JvmInstruction::Getstatic(k) => spec_getstatic_rel(pre, post, r, k),
                JvmInstruction::Invokevirtual(k) => spec_invokevirtual_rel(pre, post, r, k),
                JvmInstruction::Invokespecial(_) => r == Ok::<Option<JvmValue>, RuntimeError>(None)
                    && step_stack(
                    pre,
                    post,
                    if st.len() > 0 {
                        st.drop_last()
                    } else {
                        st
                    },
                    pc + 1,
                ),
                JvmInstruction::Invokestatic(k) => spec_invokestatic_rel(pre, post, r, k),
                JvmInstruction::Invokedynamic(_) => r == Ok::<Option<JvmValue>, RuntimeError>(None)
                    && step_stack(
                    pre,
                    post,
                    if st.len() > 0 {
                        st.drop_last().push(JvmValue::Reference(Some(0usize)))
                    } else {
                        st
                    },
                    pc + 1,
                ),
                JvmInstruction::Iload(n) => spec_load_rel(pre, post, r, n as int),
                JvmInstruction::Iload0 => spec_load_rel(pre, post, r, 0),
                JvmInstruction::Iload1 => spec_load_rel(pre, post, r, 1),
                JvmInstruction::Iload2 => spec_load_rel(pre, post, r, 2),
                JvmInstruction::Iload3 => spec_load_rel(pre, post, r, 3),
                JvmInstruction::Aload(n) => spec_load_rel(pre, post, r, n as int),
                JvmInstruction::Aload0 => spec_load_rel(pre, post, r, 0),
                JvmInstruction::Aload1 => spec_load_rel(pre, post, r, 1),
                JvmInstruction::Aload2 => spec_load_rel(pre, post, r, 2),
                JvmInstruction::Aload3 => spec_load_rel(pre, post, r, 3),
                JvmInstruction::Dload(n) => spec_load_rel(pre, post, r, n as int),
                JvmInstruction::Dload0 => spec_load_rel(pre, post, r, 0),
                JvmInstruction::Dload1 => spec_load_rel(pre, post, r, 1),
                JvmInstruction::Dload2 => spec_load_rel(pre, post, r, 2),
                JvmInstruction::Dload3 => spec_load_rel(pre, post, r, 3),
                JvmInstruction::Lload(n) => spec_load_rel(pre, post, r, n as int),
                JvmInstruction::Lload0 => spec_load_rel(pre, post, r, 0),
                JvmInstruction::Lload1 => spec_load_rel(pre, post, r, 1),
                JvmInstruction::Lload2 => spec_load_rel(pre, post, r, 2),
                JvmInstruction::Lload3 => spec_load_rel(pre, post, r, 3),
                JvmInstruction::Istore(n) => spec_store_rel(pre, post, r, n as int, SlotKind::IntSlot),
                JvmInstruction::Istore0 => spec_store_rel(pre, post, r, 0, SlotKind::IntSlot),
                JvmInstruction::Istore1 => spec_store_rel(pre, post, r, 1, SlotKind::IntSlot),
                JvmInstruction::Istore2 => spec_store_rel(pre, post, r, 2, SlotKind::IntSlot),
                JvmInstruction::Istore3 => spec_store_rel(pre, post, r, 3, SlotKind::IntSlot),
                JvmInstruction::Astore(n) => spec_store_rel(pre, post, r, n as int, SlotKind::RefSlot),
                JvmInstruction::Astore0 => spec_store_rel(pre, post, r, 0, SlotKind::RefSlot),
                JvmInstruction::Astore1 => spec_store_rel(pre, post, r, 1, SlotKind::RefSlot),
                JvmInstruction::Astore2 => spec_store_rel(pre, post, r, 2, SlotKind::RefSlot),
                JvmInstruction::Astore3 => spec_store_rel(pre, post, r, 3, SlotKind::RefSlot),
                JvmInstruction::Dstore(n) => spec_store_rel(
                    pre,
                    post,
                    r,
                    n as int,
                    SlotKind::DoubleSlot,
                ),
                JvmInstruction::Dstore0 => spec_store_rel(pre, post, r, 0, SlotKind::DoubleSlot),
                JvmInstruction::Dstore1 => spec_store_rel(pre, post, r, 1, SlotKind::DoubleSlot),
                JvmInstruction::Dstore2 => spec_store_rel(pre, post, r, 2, SlotKind::DoubleSlot),
                JvmInstruction::Dstore3 => spec_store_rel(pre, post, r, 3, SlotKind::DoubleSlot),
                JvmInstruction::Lstore(n) => spec_store_rel(pre, post, r, n as int, SlotKind::LongSlot),
                JvmInstruction::Lstore0 => spec_store_rel(pre, post, r, 0, SlotKind::LongSlot),
                JvmInstruction::Lstore1 => spec_store_rel(pre, post, r, 1, SlotKind::LongSlot),
                JvmInstruction::Lstore2 => spec_store_rel(pre, post, r, 2, SlotKind::LongSlot),
                JvmInstruction::Lstore3 => spec_store_rel(pre, post, r, 3, SlotKind::LongSlot),
                JvmInstruction::Nop => r == Ok::<Option<JvmValue>, RuntimeError>(None)
                    && step_stack(pre, post, st, pc + 1),
            }
        }
    }
}

} // verus!

verus! {

/// Relies on the writeln macro over std::io::Stdout: prints one line to
/// standard output.
#[verifier::external_body]
fn print_line_stdout(text: &str) {
    let _ = writeln!(std::io::stdout(), "{}", text);
}

/// Relies on the write macro over std::io::Stdout: prints text to
/// standard output without a newline.
#[verifier::external_body]
fn print_text_stdout(text: &str) {
    let _ = write!(std::io::stdout(), "{}", text);
}

/// Relies on the writeln macro over std::io::Stderr: prints one line to
/// standard error.
#[verifier::external_body]
fn print_line_stderr(text: &str) {
    let _ = writeln!(std::io::stderr(), "{}", text);
}

/// Relies on the write macro over std::io::Stderr: prints text to
/// standard error without a newline.
#[verifier::external_body]
fn print_text_stderr(text: &str) {
    let _ = write!(std::io::stderr(), "{}", text);
}

/// Render a value the way `println` does, by its kind.
pub fn format_value(v: JvmValue) -> (r: String)
    ensures
        r@ == spec_value_line(v),
{
    match v {
        JvmValue::Int(i) => text::int_to_string(i as i64),
        JvmValue::Long(l) => text::int_to_string(l),
        JvmValue::Double(d) => fp::double_text(d),
        JvmValue::Float(f) => fp::float_text(f),
        JvmValue::Boolean(b) => text::bool_to_string(b),
        JvmValue::Char(c) => text::char_unit_to_string(c),
        _ => String::from_str("null"),
    }
}

/// Look a field up by name.
fn field_get_exec(fields: &Vec<(String, JvmValue)>, name: &str) -> (r: Option<JvmValue>)
    ensures
        r == spec_field_get(fields@, name@),
{
    let mut i: usize = 0;
    proof {
        assert(fields@.skip(0) =~= fields@);
    }
    while i < fields.len()
        invariant
            0 <= i <= fields@.len(),
            spec_field_get(fields@, name@) == spec_field_get(fields@.skip(i as int), name@),
        decreases fields@.len() - i,
    {
        proof {
            assert(fields@.skip(i as int)[0] == fields@[i as int]);
            assert(fields@.skip(i as int).skip(1) =~= fields@.skip(i as int + 1));
        }
        if crate::text::str_eq(fields[i].0.as_str(), name) {
            return Some(fields[i].1);
        }
        i = i + 1;
    }
    proof {
        assert(fields@.skip(fields@.len() as int) =~= Seq::<(String, JvmValue)>::empty());
    }
    None
}

/// Look a string id up in the side table.
fn string_get_exec(sd: &Vec<(usize, String)>, id: usize) -> (r: Option<String>)
    ensures
        match r {
            Some(s) => spec_string_get(sd@, id) == Some(s@),
            None => spec_string_get(sd@, id) is None,
        },
{
    let mut i: usize = 0;
    proof {
        assert(sd@.skip(0) =~= sd@);
    }
    while i < sd.len()
        invariant
            0 <= i <= sd@.len(),
            spec_string_get(sd@, id) == spec_string_get(sd@.skip(i as int), id),
        decreases sd@.len() - i,
    {
        proof {
            assert(sd@.skip(i as int)[0] == sd@[i as int]);
            assert(sd@.skip(i as int).skip(1) =~= sd@.skip(i as int + 1));
        }
        if sd[i].0 == id {
            return Some(sd[i].1.clone());
        }
        i = i + 1;
    }
    proof {
        assert(sd@.skip(sd@.len() as int) =~= Seq::<(usize, String)>::empty());
    }
    None
}

/// Apply an integer instruction to the operand stack.
fn int_binop_exec(stack: &mut Vec<JvmValue>, op: IntOp) -> (r: Result<(), RuntimeError>)
    ensures
        match spec_int_binop(op, old(stack)@) {
            Ok(st) => r == Ok::<(), RuntimeError>(()) && final(stack)@ == st,
            Err(e) => r == Err::<(), RuntimeError>(e) && final(stack)@ == old(stack)@,
        },
{
    let l = stack.len();
    if l < 1 {
        return Err(RuntimeError::StackUnderflow);
    }
    let bv = stack[l - 1];
    let b = match bv.as_int() {
        Ok(v) => v,
        Err(e) => {
            return Err(e);
        },
    };
    if l < 2 {
        return Err(RuntimeError::StackUnderflow);
    }
    let av = stack[l - 2];
    let a = match av.as_int() {
        Ok(v) => v,
        Err(e) => {
            return Err(e);
        },
    };
    let is_div = match op {
        IntOp::Div => true,
        IntOp::Rem => true,
        _ => false,
    };
    if is_div && b == 0 {
        return Err(RuntimeError::DivisionByZero);
    }
    let result: i32 = match op {
        IntOp::Add => a.wrapping_add(b),
        IntOp::Sub => a.wrapping_sub(b),
        IntOp::Mul => a.wrapping_mul(b),
        IntOp::Div => exec_idiv(a, b),
        IntOp::Rem => exec_irem(a, b),
    };
    stack.pop();
    stack.pop();
    stack.push(JvmValue::Int(result));
    proof {
        assert(final(stack)@ =~= old(stack)@.take(old(stack)@.len() - 2).push(
            JvmValue::Int(result),
        ));
    }
    Ok(())
}

/// Truncating division by sign and magnitude.
fn exec_idiv(a: i32, b: i32) -> (r: i32)
    requires
        b != 0,
    ensures
        r == spec_idiv(a, b),
{
    if a == i32::MIN && b == -1 {
        return i32::MIN;
    }
    let wa: i64 = a as i64;
    let wb: i64 = b as i64;
    let ua: u64 = if wa < 0 {
        (-wa) as u64
    } else {
        wa as u64
    };
    let ub: u64 = if wb < 0 {
        (-wb) as u64
    } else {
        wb as u64
    };
    let q: u64 = ua / ub;
    let neg = (a < 0) != (b < 0);
    if neg {
        (-(q as i64)) as i32
    } else {
        (q as i64) as i32
    }
}

/// The remainder matching `exec_idiv`: its sign follows the dividend.
fn exec_irem(a: i32, b: i32) -> (r: i32)
    requires
        b != 0,
    ensures
        r == spec_irem(a, b),
{
    if a == i32::MIN && b == -1 {
        return 0;
    }
    let wa: i64 = a as i64;
    let wb: i64 = b as i64;
    let ua: u64 = if wa < 0 {
        (-wa) as u64
    } else {
        wa as u64
    };
    let ub: u64 = if wb < 0 {
        (-wb) as u64
    } else {
        wb as u64
    };
    let m: u64 = ua % ub;
    if a < 0 {
        (-(m as i64)) as i32
    } else {
        (m as i64) as i32
    }
}

/// Apply a double instruction to the operand stack.
fn double_binop_exec(stack: &mut Vec<JvmValue>, op: DoubleOp) -> (r: Result<(), RuntimeError>)
    ensures
        match spec_double_binop(op, old(stack)@) {
            Ok(st) => r == Ok::<(), RuntimeError>(()) && final(stack)@ == st,
            Err(e) => r == Err::<(), RuntimeError>(e) && final(stack)@ == old(stack)@,
        },
{
    let l = stack.len();
    if l < 2 {
        return Err(RuntimeError::StackUnderflow);
    }
    let bv = stack[l - 1];
    let av = stack[l - 2];
    let (a, b) = match (av, bv) {
        (JvmValue::Double(x), JvmValue::Double(y)) => (x, y),
        _ => {
            return Err(RuntimeError::InvalidStackState);
        },
    };
    let is_div = match op {
        DoubleOp::Div => true,
        _ => false,
    };
    if is_div && fp::d_is_zero(b) {
        return Err(RuntimeError::DivisionByZero);
    }
    let result: u64 = match op {
        DoubleOp::Add => fp::dadd_bits(a, b),
        DoubleOp::Sub => fp::dsub_bits(a, b),
        DoubleOp::Mul => fp::dmul_bits(a, b),
        DoubleOp::Div => fp::ddiv_bits(a, b),
    };
    stack.pop();
    stack.pop();
    stack.push(JvmValue::Double(result));
    proof {
        assert(final(stack)@ =~= old(stack)@.take(old(stack)@.len() - 2).push(
            JvmValue::Double(result),
        ));
    }
    Ok(())
}

} // verus!

verus! {

/// The machine seen mid-step: the top frame is held apart from the rest.
pub open spec fn mid_state(vm: JvmCompatibleVm, frame: MethodFrame, pre: JvmCompatibleVm) -> bool {
    &&& pre.spec_frames().len() >= 1
    &&& vm.spec_frames() == pre.spec_frames().drop_last()
    &&& frame == pre.spec_frames().last()
    &&& vm.spec_heap() == pre.spec_heap()
    &&& vm.spec_strings() == pre.spec_strings()
    &&& vm.spec_output() == pre.spec_output()
    &&& vm.spec_next_id() == pre.spec_next_id()
    &&& vm.spec_steps() == pre.spec_steps()
    &&& vm.spec_max_steps() == pre.spec_max_steps()
    &&& vm.spec_class() == pre.spec_class()
}

impl JvmCompatibleVm {
    pub fn new() -> (r: JvmCompatibleVm)
        ensures
            r.wf(),
            r.spec_frames().len() == 0,
            r.spec_heap().len() == 0,
            r.spec_strings().len() == 0,
            r.spec_output().len() == 0,
            r.spec_steps() == 0,
            r.spec_max_steps() == 100000,
            r.spec_next_id() == 1,
            r.spec_class() is None,
    {
        JvmCompatibleVm {
            frames: Vec::new(),
            heap: Vec::new(),
            string_data: Vec::new(),
            next_object_id: 1,
            max_steps: 100000,
            steps: 0,
            current_class: None,
            output: Vec::new(),
        }
    }

    /// The recorded console writes, in order.
    pub fn output(&self) -> (r: &Vec<OutputLine>)
        ensures
            r@ == self.spec_output(),
    {
        &self.output
    }

    /// Record a console write and perform it.
    fn emit_line(&mut self, to_stderr: bool, newline: bool, line_text: String)
        ensures
            output_extended(*old(self), *final(self), to_stderr, newline, line_text@),
            final(self).spec_frames() == old(self).spec_frames(),
            final(self).spec_heap() == old(self).spec_heap(),
            final(self).spec_strings() == old(self).spec_strings(),
            final(self).spec_next_id() == old(self).spec_next_id(),
            final(self).spec_steps() == old(self).spec_steps(),
            final(self).spec_max_steps() == old(self).spec_max_steps(),
            final(self).spec_class() == old(self).spec_class(),
    {
        if to_stderr {
            if newline {
                print_line_stderr(line_text.as_str());
            } else {
                print_text_stderr(line_text.as_str());
            }
        } else {
            if newline {
                print_line_stdout(line_text.as_str());
            } else {
                print_text_stdout(line_text.as_str());
            }
        }
        self.output.push(OutputLine { to_stderr, newline, text: line_text });
        proof {
            assert(self.output@.drop_last() =~= old(self).output@);
        }
    }

    /// Which stream a value addresses, if any.
    fn stream_kind_of(&self, v: JvmValue) -> (r: Option<bool>)
        ensures
            r == spec_stream_kind(self.spec_heap(), v),
    {
        match v {
            JvmValue::Reference(opt) => match opt {
                Some(id) => {
                    if 1 <= id && id <= self.heap.len() {
                        match field_get_exec(&self.heap[id - 1].fields, "is_stderr") {
                            Some(f) => match f {
                                JvmValue::Int(k) => Some(k == 1),
                                _ => None,
                            },
                            None => None,
                        }
                    } else {
                        None
                    }
                },
                None => None,
            },
            _ => None,
        }
    }

    /// Allocate a heap string: the object carries its length, the side
    /// table its text.
    fn create_string_object(&mut self, value: String) -> (id: usize)
        requires
            old(self).spec_next_id() < usize::MAX,
        ensures
            id == old(self).spec_next_id(),
            final(self).spec_heap().len() == old(self).spec_heap().len() + 1,
            final(self).spec_heap().drop_last() == old(self).spec_heap(),
            is_string_object(final(self).spec_heap().last(), spec_strlen_field(value@)),
            final(self).spec_strings().len() == old(self).spec_strings().len() + 1,
            final(self).spec_strings().drop_last() == old(self).spec_strings(),
            final(self).spec_strings().last().0 == id,
            final(self).spec_strings().last().1@ == value@,
            final(self).spec_next_id() == old(self).spec_next_id() + 1,
            final(self).spec_frames() == old(self).spec_frames(),
            final(self).spec_output() == old(self).spec_output(),
            final(self).spec_steps() == old(self).spec_steps(),
            final(self).spec_max_steps() == old(self).spec_max_steps(),
            final(self).spec_class() == old(self).spec_class(),
    {
        let object_id = self.next_object_id;
        self.next_object_id = self.next_object_id + 1;
        let vs = value.as_str();
        let byte_len = vs.len();
        proof {
            assert(vs@ == value@);
            assert(vs.spec_bytes() == vstd::utf8::encode_utf8(value@));
        }
        let length = #[verifier::truncate] (byte_len as i32);
        let mut fields: Vec<(String, JvmValue)> = Vec::new();
        fields.push((String::from_str("length"), JvmValue::Int(length)));
        let string_object = JvmObject {
            class_name: String::from_str("java/lang/String"),
            fields,
        };
        self.heap.push(string_object);
        self.string_data.push((object_id, value));
        proof {
            assert(self.heap@.drop_last() =~= old(self).heap@);
            assert(self.string_data@.drop_last() =~= old(self).string_data@);
            assert(self.heap@.last().fields@[0].0@ == "length"@);
        }
        object_id
    }

    /// Allocate a print-stream object for one of the two streams.
    fn create_printstream_object(&mut self, stderr: bool) -> (id: usize)
        requires
            old(self).spec_next_id() < usize::MAX,
        ensures
            id == old(self).spec_next_id(),
            final(self).spec_heap().len() == old(self).spec_heap().len() + 1,
            final(self).spec_heap().drop_last() == old(self).spec_heap(),
            is_printstream_object(final(self).spec_heap().last(), stderr),
            final(self).spec_strings() == old(self).spec_strings(),
            final(self).spec_next_id() == old(self).spec_next_id() + 1,
            final(self).spec_frames() == old(self).spec_frames(),
            final(self).spec_output() == old(self).spec_output(),
            final(self).spec_steps() == old(self).spec_steps(),
            final(self).spec_max_steps() == old(self).spec_max_steps(),
            final(self).spec_class() == old(self).spec_class(),
    {
        let object_id = self.next_object_id;
        self.next_object_id = self.next_object_id + 1;
        let mut fields: Vec<(String, JvmValue)> = Vec::new();
        fields.push((String::from_str("type"), JvmValue::Reference(None)));
        let flag: i32 = if stderr {
            1
        } else {
            0
        };
        fields.push((String::from_str("is_stderr"), JvmValue::Int(flag)));
        let printstream_object = JvmObject {
            class_name: String::from_str("java/io/PrintStream"),
            fields,
        };
        self.heap.push(printstream_object);
        proof {
            assert(self.heap@.drop_last() =~= old(self).heap@);
            assert(self.heap@.last().fields@[0].0@ == "type"@);
            assert(self.heap@.last().fields@[1].0@ == "is_stderr"@);
        }
        object_id
    }

    /// Find the stored user method a `Methodref` calls, if any.
    #[verifier::loop_isolation(false)]
    fn resolve_user_method(&self, pool: &ConstantPool, method_ref: u16) -> (r: Option<usize>)
        ensures
            match r {
                Some(j) => spec_resolve_user(pool.spec_entries(), self.spec_class(), method_ref)
                    == Some(j as int) && self.spec_class() is Some && 0 <= j
                    < self.spec_class().unwrap().methods@.len(),
                None => spec_resolve_user(pool.spec_entries(), self.spec_class(), method_ref)
                    is None,
            },
    {
        if method_ref == 0 {
            return None;
        }
        let entries = pool.entries();
        let j = (method_ref - 1) as usize;
        if j >= entries.len() {
            return None;
        }
        let (class_index, nat_index) = match &entries[j] {
            ConstantPoolEntry::Methodref(c, n) => (*c, *n),
            _ => {
                return None;
            },
        };
        if class_index == 0 {
            return None;
        }
        let cj = (class_index - 1) as usize;
        if cj >= entries.len() {
            return None;
        }
        let name_index = match &entries[cj] {
            ConstantPoolEntry::Class(ni) => *ni,
            _ => {
                return None;
            },
        };
        if name_index == 0 {
            return None;
        }
        let nj = (name_index - 1) as usize;
        if nj >= entries.len() {
            return None;
        }
        let class_name = match &entries[nj] {
            ConstantPoolEntry::Utf8(s) => s.clone(),
            _ => {
                return None;
            },
        };
        if class_name.as_str().unicode_len() >= 5 {
            let prefix = class_name.as_str().substring_char(0, 5);
            if crate::text::str_eq(prefix, "java/") {
                proof {
                    assert(!spec_is_user_class(class_name@));
                }
                return None;
            }
        }
        if nat_index == 0 {
            return None;
        }
        let tj = (nat_index - 1) as usize;
        if tj >= entries.len() {
            return None;
        }
        let mn_index = match &entries[tj] {
            ConstantPoolEntry::NameAndType(a, _) => *a,
            _ => {
                return None;
            },
        };
        if mn_index == 0 {
            return None;
        }
        let mj = (mn_index - 1) as usize;
        if mj >= entries.len() {
            return None;
        }
        let method_name = match &entries[mj] {
            ConstantPoolEntry::Utf8(s) => s.clone(),
            _ => {
                return None;
            },
        };
        // the descriptor entry must also resolve for the triple to hold
        let md_index = match &entries[tj] {
            ConstantPoolEntry::NameAndType(_, b) => *b,
            _ => {
                return None;
            },
        };
        if md_index == 0 {
            return None;
        }
        let dj = (md_index - 1) as usize;
        if dj >= entries.len() {
            return None;
        }
        match &entries[dj] {
            ConstantPoolEntry::Utf8(_) => (),
            _ => {
                return None;
            },
        }
        if self.current_class.is_none() {
            return None;
        }
        match self.current_class.as_ref() {
            Some(cf) => {
                proof {
                    assert(self.current_class == Some(*cf));
                }
                let mut k: usize = cf.methods.len();
                proof {
                    assert(cf.methods@.take(cf.methods@.len() as int) =~= cf.methods@);
                }
                while k > 0
                    invariant
                        0 <= k <= cf.methods@.len(),
                        spec_find_method(cf.methods@, method_name@) == spec_find_method(
                            cf.methods@.take(k as int),
                            method_name@,
                        ),
                    decreases k,
                {
                    proof {
                        assert(cf.methods@.take(k as int).last() == cf.methods@[k - 1]);
                        assert(cf.methods@.take(k as int).drop_last() =~= cf.methods@.take(
                            k as int - 1,
                        ));
                    }
                    if crate::text::str_eq(cf.methods[k - 1].name.as_str(), method_name.as_str()) {
                        proof {
                            assert(cf.methods@.take(k as int).last().name@ == method_name@);
                            assert(spec_find_method(cf.methods@.take(k as int), method_name@)
                                == Some(k - 1 as int));
                            assert(spec_find_method(cf.methods@, method_name@) == Some(
                                k - 1 as int,
                            ));
                            assert(self.spec_class() == Some(*cf));
                            assert(crate::resolver::spec_class_name(
                                pool.spec_entries(),
                                class_index,
                            ) == Some(class_name@));
                            assert(spec_is_user_class(class_name@));
                            assert(crate::resolver::spec_name_and_type(
                                pool.spec_entries(),
                                nat_index,
                            ) == Some((method_name@, crate::pool::spec_utf8_at(pool.spec_entries(), md_index))));
                            assert(spec_resolve_user(
                                pool.spec_entries(),
                                self.spec_class(),
                                method_ref,
                            ) == Some(k - 1 as int));
                        }
                        return Some(k - 1);
                    }
                    k = k - 1;
                }
                proof {
                    assert(cf.methods@.take(0) =~= Seq::<MethodInfo>::empty());
                }
                None
            },
            None => None,
        }
    }
}

} // verus!

verus! {

impl JvmCompatibleVm {
    /// Load a constant from the pool and push it; a `String` entry
    /// materializes a fresh heap string.
    fn finish_ldc(
        &mut self,
        frame: MethodFrame,
        k: u16,
        Ghost(pre): Ghost<JvmCompatibleVm>,
    ) -> (r: Result<Option<JvmValue>, RuntimeError>)
        requires
            mid_state(*old(self), frame, pre),
            frame.pc < frame.bytecode@.len(),
            frame.bytecode@.len() <= usize::MAX,
        ensures
            spec_ldc_rel(pre, *final(self), r, k),
            pre.wf() ==> final(self).wf(),
    {
        broadcast use lemma_push_drop_last;

        if k == 0 {
            self.frames.push(frame);
            proof {
                assert(frames_like(self.frames@, pre.spec_frames()));
            }
            return Err(RuntimeError::InvalidStackState);
        }
        let j = (k - 1) as usize;
        if j >= frame.constant_pool.entries().len() {
            self.frames.push(frame);
            proof {
                assert(frames_like(self.frames@, pre.spec_frames()));
            }
            return Err(RuntimeError::InvalidStackState);
        }
        let loaded: Option<JvmValue> = match &frame.constant_pool.entries()[j] {
            ConstantPoolEntry::Integer(i) => Some(JvmValue::Int(*i)),
            ConstantPoolEntry::Float(f) => Some(JvmValue::Float(*f)),
            ConstantPoolEntry::Long(l) => Some(JvmValue::Long(*l)),
            ConstantPoolEntry::Double(d) => Some(JvmValue::Double(*d)),
            _ => None,
        };
        match loaded {
            Some(v) => {
                let mut fr = frame;
                fr.operand_stack.push(v);
                fr.pc = fr.pc + 1;
                self.frames.push(fr);
                return Ok(None);
            },
            None => {},
        }
        let uidx = match &frame.constant_pool.entries()[j] {
            ConstantPoolEntry::String(u) => *u,
            _ => {
                self.frames.push(frame);
                proof {
                    assert(frames_like(self.frames@, pre.spec_frames()));
                }
                return Err(RuntimeError::InvalidStackState);
            },
        };
        if uidx == 0 {
            self.frames.push(frame);
            proof {
                assert(frames_like(self.frames@, pre.spec_frames()));
            }
            return Err(RuntimeError::InvalidStackState);
        }
        let uj = (uidx - 1) as usize;
        if uj >= frame.constant_pool.entries().len() {
            self.frames.push(frame);
            proof {
                assert(frames_like(self.frames@, pre.spec_frames()));
            }
            return Err(RuntimeError::InvalidStackState);
        }
        let s = match &frame.constant_pool.entries()[uj] {
            ConstantPoolEntry::Utf8(s) => s.clone(),
            _ => {
                self.frames.push(frame);
                proof {
                    assert(frames_like(self.frames@, pre.spec_frames()));
                }
                return Err(RuntimeError::InvalidStackState);
            },
        };
        if self.next_object_id == usize::MAX {
            self.frames.push(frame);
            proof {
                assert(frames_like(self.frames@, pre.spec_frames()));
            }
            return Err(RuntimeError::InvalidStackState);
        }
        let object_id = self.create_string_object(s);
        let mut fr = frame;
        fr.operand_stack.push(JvmValue::Reference(Some(object_id)));
        fr.pc = fr.pc + 1;
        self.frames.push(fr);
        Ok(None)
    }

    /// Resolve a static field and push a fresh print-stream reference.
    fn finish_getstatic(
        &mut self,
        frame: MethodFrame,
        k: u16,
        Ghost(pre): Ghost<JvmCompatibleVm>,
    ) -> (r: Result<Option<JvmValue>, RuntimeError>)
        requires
            mid_state(*old(self), frame, pre),
            frame.pc < frame.bytecode@.len(),
            frame.bytecode@.len() <= usize::MAX,
        ensures
            spec_getstatic_rel(pre, *final(self), r, k),
            pre.wf() ==> final(self).wf(),
    {
        broadcast use lemma_push_drop_last;

        let resolved = resolve_static_field_ref(&frame.constant_pool, k);
        let stderr_opt: Option<bool> = match resolved {
            Some(b) => Some(b),
            None => {
                if k == 31 {
                    Some(false)
                } else if k == 32 {
                    Some(true)
                } else {
                    None
                }
            },
        };
        match stderr_opt {
            Some(stderr) => {
                if self.next_object_id == usize::MAX {
                    self.frames.push(frame);
                    proof {
                        assert(frames_like(self.frames@, pre.spec_frames()));
                    }
                    return Err(RuntimeError::InvalidStackState);
                }
                let object_id = self.create_printstream_object(stderr);
                let mut fr = frame;
                fr.operand_stack.push(JvmValue::Reference(Some(object_id)));
                fr.pc = fr.pc + 1;
                self.frames.push(fr);
                Ok(None)
            },
            None => {
                self.frames.push(frame);
                proof {
                    assert(frames_like(self.frames@, pre.spec_frames()));
                }
                Err(RuntimeError::InvalidStackState)
            },
        }
    }

    /// Pop a value; pop the frame; hand the value to the caller or yield
    /// it as the program result.
    fn finish_ireturn(
        &mut self,
        frame: MethodFrame,
        Ghost(pre): Ghost<JvmCompatibleVm>,
    ) -> (r: Result<Option<JvmValue>, RuntimeError>)
        requires
            mid_state(*old(self), frame, pre),
        ensures
            spec_ireturn_rel(pre, *final(self), r),
            pre.wf() ==> final(self).wf(),
    {
        broadcast use lemma_push_drop_last;

        if frame.operand_stack.len() == 0 {
            self.frames.push(frame);
            proof {
                assert(frames_like(self.frames@, pre.spec_frames()));
            }
            return Err(RuntimeError::StackUnderflow);
        }
        let mut fr = frame;
        let value = fr.operand_stack.pop().unwrap();
        if self.frames.len() == 0 {
            return Ok(Some(value));
        }
        let mut caller = self.frames.pop().unwrap();
        caller.operand_stack.push(value);
        self.frames.push(caller);
        proof {
            assert(frames_like(
                self.frames@.drop_last(),
                pre.spec_frames().drop_last().drop_last(),
            ));
        }
        Ok(None)
    }
}

} // verus!

verus! {

impl JvmCompatibleVm {
    /// Pop a value and stream reference, render the value, and print it
    /// when the receiver is a valid stream.
    fn finish_println_value(
        &mut self,
        frame: MethodFrame,
        Ghost(pre): Ghost<JvmCompatibleVm>,
    ) -> (r: Result<Option<JvmValue>, RuntimeError>)
        requires
            mid_state(*old(self), frame, pre),
            frame.pc < frame.bytecode@.len(),
            frame.bytecode@.len() <= usize::MAX,
        ensures
            spec_println_value_rel(pre, *final(self), r),
            pre.wf() ==> final(self).wf(),
    {
        broadcast use lemma_push_drop_last;

        let l = frame.operand_stack.len();
        if l < 2 {
            self.frames.push(frame);
            proof {
                assert(frames_like(self.frames@, pre.spec_frames()));
            }
            return Err(RuntimeError::StackUnderflow);
        }
        let value = frame.operand_stack[l - 1];
        let ps = frame.operand_stack[l - 2];
        let stream = self.stream_kind_of(ps);
        let mut fr = frame;
        fr.operand_stack.pop();
        fr.operand_stack.pop();
        fr.pc = fr.pc + 1;
        let ghost st0 = frame.operand_stack@;
        proof {
            assert(fr.operand_stack@ =~= st0.take(st0.len() - 2));
        }
        self.frames.push(fr);
        match stream {
            Some(e) => {
                let rendered = format_value(value);
                self.emit_line(e, true, rendered);
            },
            None => {},
        }
        Ok(None)
    }

    /// Pop a string and stream reference and print the text when both are
    /// valid.
    fn finish_print_string(
        &mut self,
        frame: MethodFrame,
        newline: bool,
        Ghost(pre): Ghost<JvmCompatibleVm>,
    ) -> (r: Result<Option<JvmValue>, RuntimeError>)
        requires
            mid_state(*old(self), frame, pre),
            frame.pc < frame.bytecode@.len(),
            frame.bytecode@.len() <= usize::MAX,
        ensures
            spec_print_string_rel(pre, *final(self), r, newline),
            pre.wf() ==> final(self).wf(),
    {
        broadcast use lemma_push_drop_last;

        let l = frame.operand_stack.len();
        if l < 2 {
            self.frames.push(frame);
            proof {
                assert(frames_like(self.frames@, pre.spec_frames()));
            }
            return Err(RuntimeError::StackUnderflow);
        }
        let sref = frame.operand_stack[l - 1];
        let ps = frame.operand_stack[l - 2];
        let to_print: Option<(bool, String)> = match (sref, ps) {
            (JvmValue::Reference(Some(sid)), JvmValue::Reference(Some(psid))) => {
                match string_get_exec(&self.string_data, sid) {
                    Some(txt) => match self.stream_kind_of(JvmValue::Reference(Some(psid))) {
                        Some(e) => Some((e, txt)),
                        None => None,
                    },
                    None => None,
                }
            },
            _ => None,
        };
        let mut fr = frame;
        fr.operand_stack.pop();
        fr.operand_stack.pop();
        fr.pc = fr.pc + 1;
        let ghost st0 = frame.operand_stack@;
        proof {
            assert(fr.operand_stack@ =~= st0.take(st0.len() - 2));
        }
        self.frames.push(fr);
        match to_print {
            Some(p) => {
                self.emit_line(p.0, newline, p.1);
            },
            None => {},
        }
        Ok(None)
    }

    /// Pop a value and stream reference and print the coerced rendering;
    /// the coercion faults only when the receiver was a valid stream.
    fn finish_println_coerced(
        &mut self,
        frame: MethodFrame,
        rendered: Option<String>,
        Ghost(pre): Ghost<JvmCompatibleVm>,
        Ghost(rendered_spec): Ghost<Option<Seq<char>>>,
    ) -> (r: Result<Option<JvmValue>, RuntimeError>)
        requires
            mid_state(*old(self), frame, pre),
            frame.pc < frame.bytecode@.len(),
            frame.bytecode@.len() <= usize::MAX,
            frame.operand_stack@.len() >= 2,
            match rendered {
                Some(s) => rendered_spec == Some(s@),
                None => rendered_spec is None,
            },
        ensures
            spec_println_coerced_rel(pre, *final(self), r, rendered_spec),
            pre.wf() ==> final(self).wf(),
    {
        broadcast use lemma_push_drop_last;

        let l = frame.operand_stack.len();
        let ps = frame.operand_stack[l - 2];
        let stream = self.stream_kind_of(ps);
        match stream {
            None => {
                let mut fr = frame;
                fr.operand_stack.pop();
                fr.operand_stack.pop();
                fr.pc = fr.pc + 1;
                let ghost st0 = frame.operand_stack@;
                proof {
                    assert(fr.operand_stack@ =~= st0.take(st0.len() - 2));
                }
                self.frames.push(fr);
                Ok(None)
            },
            Some(e) => {
                match rendered {
                    None => {
                        self.frames.push(frame);
                        proof {
                            assert(frames_like(self.frames@, pre.spec_frames()));
                        }
                        Err(RuntimeError::InvalidStackState)
                    },
                    Some(txt) => {
                        let mut fr = frame;
                        fr.operand_stack.pop();
                        fr.operand_stack.pop();
                        fr.pc = fr.pc + 1;
                        let ghost st0 = frame.operand_stack@;
                        proof {
                            assert(fr.operand_stack@ =~= st0.take(st0.len() - 2));
                        }
                        self.frames.push(fr);
                        self.emit_line(e, true, txt);
                        Ok(None)
                    },
                }
            },
        }
    }

    /// Dispatch an `Invokevirtual` by its resolved behavior.
    fn finish_invokevirtual(
        &mut self,
        frame: MethodFrame,
        k: u16,
        Ghost(pre): Ghost<JvmCompatibleVm>,
    ) -> (r: Result<Option<JvmValue>, RuntimeError>)
        requires
            mid_state(*old(self), frame, pre),
            frame.pc < frame.bytecode@.len(),
            frame.bytecode@.len() <= usize::MAX,
        ensures
            spec_invokevirtual_rel(pre, *final(self), r, k),
            pre.wf() ==> final(self).wf(),
    {
        broadcast use lemma_push_drop_last;

        let resolved = resolve_method_reference(&frame.constant_pool, k);
        match resolved {
            ResolvedMethod::PrintStreamPrintln => self.finish_println_value(frame, Ghost(pre)),
            ResolvedMethod::PrintStreamPrint => self.finish_print_string(frame, false, Ghost(pre)),
            ResolvedMethod::PrintStreamPrintlnString => self.finish_print_string(
                frame,
                true,
                Ghost(pre),
            ),
            ResolvedMethod::PrintStreamPrintlnFloat => {
                let l = frame.operand_stack.len();
                if l < 2 {
                    self.frames.push(frame);
                    proof {
                        assert(frames_like(self.frames@, pre.spec_frames()));
                    }
                    return Err(RuntimeError::StackUnderflow);
                }
                let value = frame.operand_stack[l - 1];
                let rendered: Option<String> = match value {
                    JvmValue::Float(f) => Some(fp::float_text(f)),
                    JvmValue::Int(i) => Some(fp::float_text(fp::i2f_bits(i))),
                    JvmValue::Double(d) => Some(fp::float_text(fp::d2f_bits(d))),
                    _ => None,
                };
                let ghost rendered_spec = match spec_coerce_print_float(value) {
                    Some(f) => Some(fp::float_str_of(f)),
                    None => None::<Seq<char>>,
                };
                self.finish_println_coerced(frame, rendered, Ghost(pre), Ghost(rendered_spec))
            },
            ResolvedMethod::PrintStreamPrintlnDouble => {
                let l = frame.operand_stack.len();
                if l < 2 {
                    self.frames.push(frame);
                    proof {
                        assert(frames_like(self.frames@, pre.spec_frames()));
                    }
                    return Err(RuntimeError::StackUnderflow);
                }
                let value = frame.operand_stack[l - 1];
                let rendered: Option<String> = match value {
                    JvmValue::Double(d) => Some(fp::double_text(d)),
                    JvmValue::Float(f) => Some(fp::double_text(fp::f2d_bits(f))),
                    JvmValue::Int(i) => Some(fp::double_text(fp::i2d_bits(i))),
                    _ => None,
                };
                let ghost rendered_spec = match spec_coerce_print_double(value) {
                    Some(d) => Some(fp::double_str_of(d)),
                    None => None::<Seq<char>>,
                };
                self.finish_println_coerced(frame, rendered, Ghost(pre), Ghost(rendered_spec))
            },
            ResolvedMethod::PrintStreamPrintlnBoolean => {
                let l = frame.operand_stack.len();
                if l < 2 {
                    self.frames.push(frame);
                    proof {
                        assert(frames_like(self.frames@, pre.spec_frames()));
                    }
                    return Err(RuntimeError::StackUnderflow);
                }
                let value = frame.operand_stack[l - 1];
                let rendered: Option<String> = match value {
                    JvmValue::Boolean(b) => Some(text::bool_to_string(b)),
                    JvmValue::Int(i) => Some(text::bool_to_string(i != 0)),
                    _ => None,
                };
                let ghost rendered_spec = match spec_coerce_print_boolean(value) {
                    Some(b) => Some(text::bool_str_of(b)),
                    None => None::<Seq<char>>,
                };
                self.finish_println_coerced(frame, rendered, Ghost(pre), Ghost(rendered_spec))
            },
            ResolvedMethod::PrintStreamPrintlnChar => {
                let l = frame.operand_stack.len();
                if l < 2 {
                    self.frames.push(frame);
                    proof {
                        assert(frames_like(self.frames@, pre.spec_frames()));
                    }
                    return Err(RuntimeError::StackUnderflow);
                }
                let value = frame.operand_stack[l - 1];
                let rendered: Option<String> = match value {
                    JvmValue::Char(c) => Some(text::char_unit_to_string(c)),
                    JvmValue::Int(i) => {
                        let c16 = #[verifier::truncate] (i as u16);
                        Some(text::char_unit_to_string(c16))
                    },
                    _ => None,
                };
                let ghost rendered_spec = spec_coerce_print_char(value);
                proof {
                    if value is Int {
                        let iv = value->Int_0;
                        assert(((iv as u16) as u8) == (iv as u8)) by (bit_vector);
                    }
                }
                self.finish_println_coerced(frame, rendered, Ghost(pre), Ghost(rendered_spec))
            },
            ResolvedMethod::StringLength => {
                let l = frame.operand_stack.len();
                if l < 1 {
                    self.frames.push(frame);
                    proof {
                        assert(frames_like(self.frames@, pre.spec_frames()));
                    }
                    return Err(RuntimeError::StackUnderflow);
                }
                let sref = frame.operand_stack[l - 1];
                let sid = match sref {
                    JvmValue::Reference(Some(id)) => id,
                    _ => {
                        self.frames.push(frame);
                        proof {
                            assert(frames_like(self.frames@, pre.spec_frames()));
                        }
                        return Err(RuntimeError::InvalidStackState);
                    },
                };
                match string_get_exec(&self.string_data, sid) {
                    Some(txt) => {
                        let vs = txt.as_str();
                        let byte_len = vs.len();
                        let length = #[verifier::truncate] (byte_len as i32);
                        let mut fr = frame;
                        fr.operand_stack.pop();
                        fr.operand_stack.push(JvmValue::Int(length));
                        fr.pc = fr.pc + 1;
                        let ghost st0 = frame.operand_stack@;
                        proof {
                            assert(fr.operand_stack@ =~= st0.drop_last().push(
                                JvmValue::Int(length),
                            ));
                        }
                        self.frames.push(fr);
                        Ok(None)
                    },
                    None => {
                        self.frames.push(frame);
                        proof {
                            assert(frames_like(self.frames@, pre.spec_frames()));
                        }
                        Err(RuntimeError::InvalidStackState)
                    },
                }
            },
            ResolvedMethod::StringBuilderAppendString
            | ResolvedMethod::StringBuilderAppendInt
            | ResolvedMethod::StringBuilderAppendDouble => {
                let l = frame.operand_stack.len();
                if l < 2 {
                    self.frames.push(frame);
                    proof {
                        assert(frames_like(self.frames@, pre.spec_frames()));
                    }
                    return Err(RuntimeError::StackUnderflow);
                }
                let sb_ref = frame.operand_stack[l - 2];
                let mut fr = frame;
                fr.operand_stack.pop();
                fr.operand_stack.pop();
                fr.operand_stack.push(sb_ref);
                fr.pc = fr.pc + 1;
                let ghost st0 = frame.operand_stack@;
                proof {
                    assert(fr.operand_stack@ =~= st0.take(st0.len() - 2).push(
                        st0[st0.len() - 2],
                    ));
                }
                self.frames.push(fr);
                Ok(None)
            },
            ResolvedMethod::StringBuilderToString => {
                let l = frame.operand_stack.len();
                if l < 1 {
                    self.frames.push(frame);
                    proof {
                        assert(frames_like(self.frames@, pre.spec_frames()));
                    }
                    return Err(RuntimeError::StackUnderflow);
                }
                let mut fr = frame;
                fr.operand_stack.pop();
                fr.operand_stack.push(JvmValue::Reference(Some(1)));
                fr.pc = fr.pc + 1;
                let ghost st0 = frame.operand_stack@;
                proof {
                    assert(fr.operand_stack@ =~= st0.drop_last().push(
                        JvmValue::Reference(Some(1usize)),
                    ));
                }
                self.frames.push(fr);
                Ok(None)
            },
            ResolvedMethod::Unknown => {
                if k == 33 {
                    let l = frame.operand_stack.len();
                    if l < 1 {
                        self.frames.push(frame);
                        proof {
                            assert(frames_like(self.frames@, pre.spec_frames()));
                        }
                        return Err(RuntimeError::StackUnderflow);
                    }
                    let value = frame.operand_stack[l - 1];
                    let v = match value.as_int() {
                        Ok(v) => v,
                        Err(e) => {
                            self.frames.push(frame);
                            proof {
                                assert(frames_like(self.frames@, pre.spec_frames()));
                            }
                            return Err(e);
                        },
                    };
                    if l < 2 {
                        self.frames.push(frame);
                        proof {
                            assert(frames_like(self.frames@, pre.spec_frames()));
                        }
                        return Err(RuntimeError::StackUnderflow);
                    }
                    let ps = frame.operand_stack[l - 2];
                    let stream = self.stream_kind_of(ps);
                    let mut fr = frame;
                    fr.operand_stack.pop();
                    fr.operand_stack.pop();
                    fr.pc = fr.pc + 1;
                    let ghost st0 = frame.operand_stack@;
                    proof {
                        assert(fr.operand_stack@ =~= st0.take(st0.len() - 2));
                    }
                    self.frames.push(fr);
                    match stream {
                        Some(e) => {
                            let rendered = text::int_to_string(v as i64);
                            self.emit_line(e, true, rendered);
                        },
                        None => {},
                    }
                    Ok(None)
                } else if k == 34 {
                    self.finish_print_string(frame, false, Ghost(pre))
                } else if k == 35 {
                    self.finish_print_string(frame, true, Ghost(pre))
                } else {
                    self.frames.push(frame);
                    proof {
                        assert(frames_like(self.frames@, pre.spec_frames()));
                    }
                    Err(RuntimeError::InvalidStackState)
                }
            },
            _ => {
                self.frames.push(frame);
                proof {
                    assert(frames_like(self.frames@, pre.spec_frames()));
                }
                Err(RuntimeError::InvalidStackState)
            },
        }
    }
}

} // verus!

verus! {

impl JvmCompatibleVm {
    /// Call a stored user method: the caller advances and loses the
    /// arguments; a fresh frame goes on top.
    fn finish_user_call(
        &mut self,
        frame: MethodFrame,
        j: usize,
        Ghost(pre): Ghost<JvmCompatibleVm>,
    ) -> (r: Result<Option<JvmValue>, RuntimeError>)
        requires
            mid_state(*old(self), frame, pre),
            frame.pc < frame.bytecode@.len(),
            frame.bytecode@.len() <= usize::MAX,
            pre.spec_class() is Some,
            0 <= j < pre.spec_class().unwrap().methods@.len(),
        ensures
            spec_user_call_rel(pre, *final(self), r, j as int),
            pre.wf() ==> final(self).wf(),
    {
        broadcast use lemma_push_drop_last;

        let (param_count, callee_max_locals, callee_bytecode) = match self.current_class.as_ref() {
            Some(cf) => {
                proof {
                    assert(self.current_class == Some(*cf));
                }
                let mi = &cf.methods[j];
                (
                    count_method_parameters(mi.descriptor.as_str()),
                    mi.max_locals,
                    copy_instructions(&mi.bytecode),
                )
            },
            None => {
                proof {
                    assert(false);
                }
                (0, 0, Vec::new())
            },
        };
        let l = frame.operand_stack.len();
        if l < param_count {
            self.frames.push(frame);
            proof {
                assert(frames_like(self.frames@, pre.spec_frames()));
            }
            return Err(RuntimeError::StackUnderflow);
        }
        let ghost st0 = frame.operand_stack@;
        let mut new_locals: Vec<JvmValue> = Vec::new();
        let mut i: usize = 0;
        while i < callee_max_locals
            invariant
                0 <= i <= callee_max_locals,
                l == st0.len(),
                param_count <= l,
                new_locals@.len() == i,
                frame.operand_stack@ == st0,
                forall|q: int|
                    0 <= q < i ==> #[trigger] new_locals@[q] == (if q < param_count {
                        st0[st0.len() - param_count + q]
                    } else {
                        JvmValue::Int(0)
                    }),
            decreases callee_max_locals - i,
        {
            if i < param_count {
                new_locals.push(frame.operand_stack[l - param_count + i]);
            } else {
                new_locals.push(JvmValue::Int(0));
            }
            i = i + 1;
        }
        proof {
            assert(new_locals@ =~= spec_call_locals(
                callee_max_locals as int,
                st0,
                spec_count_params(pre.spec_class().unwrap().methods@[j as int].descriptor@),
            ));
        }
        let mut fr = frame;
        let mut t: usize = 0;
        while t < param_count
            invariant
                0 <= t <= param_count,
                param_count <= st0.len(),
                fr.operand_stack@ == st0.take(st0.len() - t),
                fr.locals@ == frame.locals@,
                fr.pc == frame.pc,
                fr.bytecode@ == frame.bytecode@,
                fr.constant_pool.spec_entries() == frame.constant_pool.spec_entries(),
            decreases param_count - t,
        {
            fr.operand_stack.pop();
            proof {
                assert(fr.operand_stack@ =~= st0.take(st0.len() - (t + 1)));
            }
            t = t + 1;
        }
        fr.pc = fr.pc + 1;
        let callee_pool = fr.constant_pool.duplicate();
        self.frames.push(fr);
        let new_frame = MethodFrame {
            locals: new_locals,
            operand_stack: Vec::new(),
            constant_pool: callee_pool,
            pc: 0,
            bytecode: callee_bytecode,
        };
        self.frames.push(new_frame);
        proof {
            assert(forall|q: int|
                0 <= q < pre.spec_frames().len() - 1 ==> frame_like(
                    #[trigger] self.frames@[q],
                    pre.spec_frames()[q],
                ));
        }
        Ok(None)
    }

    /// Dispatch an `Invokestatic`: a stored user method first, then the
    /// intrinsic table, then the numeric fallback.
    fn finish_invokestatic(
        &mut self,
        frame: MethodFrame,
        k: u16,
        Ghost(pre): Ghost<JvmCompatibleVm>,
    ) -> (r: Result<Option<JvmValue>, RuntimeError>)
        requires
            mid_state(*old(self), frame, pre),
            frame.pc < frame.bytecode@.len(),
            frame.bytecode@.len() <= usize::MAX,
        ensures
            spec_invokestatic_rel(pre, *final(self), r, k),
            pre.wf() ==> final(self).wf(),
    {
        broadcast use lemma_push_drop_last;

        match self.resolve_user_method(&frame.constant_pool, k) {
            Some(j) => {
                return self.finish_user_call(frame, j, Ghost(pre));
            },
            None => {},
        }
        let resolved = resolve_method_reference(&frame.constant_pool, k);
        let is_random = match resolved {
            ResolvedMethod::MathRandom => true,
            ResolvedMethod::Unknown => k == 36,
            _ => false,
        };
        if is_random {
            let bits = fp::random_double_bits();
            let ghost q = choose|q: u64|
                q < 0x20000000000000u64 && bits == fp::ddiv_of(
                    #[trigger] fp::l2d_of(q as i64),
                    fp::l2d_of(0x20000000000000i64),
                );
            let mut fr = frame;
            fr.operand_stack.push(JvmValue::Double(bits));
            fr.pc = fr.pc + 1;
            self.frames.push(fr);
            proof {
                assert(step_stack(
                    pre,
                    *self,
                    pre.spec_frames().last().operand_stack@.push(
                        JvmValue::Double(
                            fp::ddiv_of(fp::l2d_of(q as i64), fp::l2d_of(0x20000000000000i64)),
                        ),
                    ),
                    pre.spec_frames().last().pc + 1,
                ));
            }
            return Ok(None);
        }
        match resolved {
            ResolvedMethod::MathMaxInt | ResolvedMethod::MathMinInt => {
                let take_max = match resolved {
                    ResolvedMethod::MathMaxInt => true,
                    _ => false,
                };
                let l = frame.operand_stack.len();
                if l < 1 {
                    self.frames.push(frame);
                    proof {
                        assert(frames_like(self.frames@, pre.spec_frames()));
                    }
                    return Err(RuntimeError::StackUnderflow);
                }
                let b = match frame.operand_stack[l - 1].as_int() {
                    Ok(v) => v,
                    Err(e) => {
                        self.frames.push(frame);
                        proof {
                            assert(frames_like(self.frames@, pre.spec_frames()));
                        }
                        return Err(e);
                    },
                };
                if l < 2 {
                    self.frames.push(frame);
                    proof {
                        assert(frames_like(self.frames@, pre.spec_frames()));
                    }
                    return Err(RuntimeError::StackUnderflow);
                }
                let a = match frame.operand_stack[l - 2].as_int() {
                    Ok(v) => v,
                    Err(e) => {
                        self.frames.push(frame);
                        proof {
                            assert(frames_like(self.frames@, pre.spec_frames()));
                        }
                        return Err(e);
                    },
                };
                let result = if take_max {
                    if a > b {
                        a
                    } else {
                        b
                    }
                } else {
                    if a < b {
                        a
                    } else {
                        b
                    }
                };
                let mut fr = frame;
                fr.operand_stack.pop();
                fr.operand_stack.pop();
                fr.operand_stack.push(JvmValue::Int(result));
                fr.pc = fr.pc + 1;
                let ghost st0 = frame.operand_stack@;
                proof {
                    assert(fr.operand_stack@ =~= st0.take(st0.len() - 2).push(
                        JvmValue::Int(result),
                    ));
                }
                self.frames.push(fr);
                Ok(None)
            },
            ResolvedMethod::MathMaxDouble | ResolvedMethod::MathMinDouble => {
                let take_max = match resolved {
                    ResolvedMethod::MathMaxDouble => true,
                    _ => false,
                };
                let l = frame.operand_stack.len();
                if l < 2 {
                    self.frames.push(frame);
                    proof {
                        assert(frames_like(self.frames@, pre.spec_frames()));
                    }
                    return Err(RuntimeError::StackUnderflow);
                }
                let (a, b) = match (frame.operand_stack[l - 2], frame.operand_stack[l - 1]) {
                    (JvmValue::Double(x), JvmValue::Double(y)) => (x, y),
                    _ => {
                        self.frames.push(frame);
                        proof {
                            assert(frames_like(self.frames@, pre.spec_frames()));
                        }
                        return Err(RuntimeError::InvalidStackState);
                    },
                };
                let result = if take_max {
                    if fp::dgt_bits(a, b) {
                        a
                    } else {
                        b
                    }
                } else {
                    if fp::dlt_bits(a, b) {
                        a
                    } else {
                        b
                    }
                };
                let mut fr = frame;
                fr.operand_stack.pop();
                fr.operand_stack.pop();
                fr.operand_stack.push(JvmValue::Double(result));
                fr.pc = fr.pc + 1;
                let ghost st0 = frame.operand_stack@;
                proof {
                    assert(fr.operand_stack@ =~= st0.take(st0.len() - 2).push(
                        JvmValue::Double(result),
                    ));
                }
                self.frames.push(fr);
                Ok(None)
            },
            ResolvedMethod::MathAbs => {
                let l = frame.operand_stack.len();
                if l < 1 {
                    self.frames.push(frame);
                    proof {
                        assert(frames_like(self.frames@, pre.spec_frames()));
                    }
                    return Err(RuntimeError::StackUnderflow);
                }
                let v = match frame.operand_stack[l - 1].as_int() {
                    Ok(v) => v,
                    Err(e) => {
                        self.frames.push(frame);
                        proof {
                            assert(frames_like(self.frames@, pre.spec_frames()));
                        }
                        return Err(e);
                    },
                };
                let result: i32 = if v == i32::MIN {
                    i32::MIN
                } else if v < 0 {
                    -v
                } else {
                    v
                };
                let mut fr = frame;
                fr.operand_stack.pop();
                fr.operand_stack.push(JvmValue::Int(result));
                fr.pc = fr.pc + 1;
                let ghost st0 = frame.operand_stack@;
                proof {
                    assert(fr.operand_stack@ =~= st0.take(st0.len() - 1).push(
                        JvmValue::Int(result),
                    ));
                }
                self.frames.push(fr);
                Ok(None)
            },
            ResolvedMethod::MathAbsDouble => {
                let l = frame.operand_stack.len();
                if l < 1 {
                    self.frames.push(frame);
                    proof {
                        assert(frames_like(self.frames@, pre.spec_frames()));
                    }
                    return Err(RuntimeError::StackUnderflow);
                }
                let d = match frame.operand_stack[l - 1] {
                    JvmValue::Double(d) => d,
                    _ => {
                        self.frames.push(frame);
                        proof {
                            assert(frames_like(self.frames@, pre.spec_frames()));
                        }
                        return Err(RuntimeError::InvalidStackState);
                    },
                };
                let result = fp::dabs_bits(d);
                let mut fr = frame;
                fr.operand_stack.pop();
                fr.operand_stack.push(JvmValue::Double(result));
                fr.pc = fr.pc + 1;
                let ghost st0 = frame.operand_stack@;
                proof {
                    assert(fr.operand_stack@ =~= st0.take(st0.len() - 1).push(
                        JvmValue::Double(result),
                    ));
                }
                self.frames.push(fr);
                Ok(None)
            },
            ResolvedMethod::MathFloor | ResolvedMethod::MathCeil | ResolvedMethod::MathRound => {
                let l = frame.operand_stack.len();
                if l < 1 {
                    self.frames.push(frame);
                    proof {
                        assert(frames_like(self.frames@, pre.spec_frames()));
                    }
                    return Err(RuntimeError::StackUnderflow);
                }
                let d = match frame.operand_stack[l - 1].as_double() {
                    Ok(v) => v,
                    Err(e) => {
                        self.frames.push(frame);
                        proof {
                            assert(frames_like(self.frames@, pre.spec_frames()));
                        }
                        return Err(e);
                    },
                };
                let result: JvmValue = match resolved {
                    ResolvedMethod::MathFloor => JvmValue::Double(fp::dfloor_bits(d)),
                    ResolvedMethod::MathCeil => JvmValue::Double(fp::dceil_bits(d)),
                    _ => JvmValue::Long(fp::d2l_bits(fp::dround_bits(d))),
                };
                let mut fr = frame;
                fr.operand_stack.pop();
                fr.operand_stack.push(result);
                fr.pc = fr.pc + 1;
                let ghost st0 = frame.operand_stack@;
                proof {
                    assert(fr.operand_stack@ =~= st0.take(st0.len() - 1).push(result));
                }
                self.frames.push(fr);
                Ok(None)
            },
            ResolvedMethod::IntegerParseInt
            | ResolvedMethod::DoubleParseDouble
            | ResolvedMethod::BooleanParseBoolean => {
                let l = frame.operand_stack.len();
                if l < 1 {
                    self.frames.push(frame);
                    proof {
                        assert(frames_like(self.frames@, pre.spec_frames()));
                    }
                    return Err(RuntimeError::StackUnderflow);
                }
                let sid = match frame.operand_stack[l - 1] {
                    JvmValue::Reference(Some(id)) => id,
                    _ => {
                        self.frames.push(frame);
                        proof {
                            assert(frames_like(self.frames@, pre.spec_frames()));
                        }
                        return Err(RuntimeError::InvalidStackState);
                    },
                };
                let txt = match string_get_exec(&self.string_data, sid) {
                    Some(t) => t,
                    None => {
                        self.frames.push(frame);
                        proof {
                            assert(frames_like(self.frames@, pre.spec_frames()));
                        }
                        return Err(RuntimeError::InvalidStackState);
                    },
                };
                let parsed: Option<JvmValue> = match resolved {
                    ResolvedMethod::IntegerParseInt => match text::parse_int_text(txt.as_str()) {
                        Some(v) => Some(JvmValue::Int(v)),
                        None => None,
                    },
                    ResolvedMethod::DoubleParseDouble => {
                        if txt.as_str().unicode_len() >= 0x80000000 {
                            None
                        } else {
                            match fp::parse_double_text(txt.as_str()) {
                                Some(d) => Some(JvmValue::Double(d)),
                                None => None,
                            }
                        }
                    },
                    _ => Some(JvmValue::Boolean(text::eq_true_ignore_case(txt.as_str()))),
                };
                match parsed {
                    Some(v) => {
                        let mut fr = frame;
                        fr.operand_stack.pop();
                        fr.operand_stack.push(v);
                        fr.pc = fr.pc + 1;
                        let ghost st0 = frame.operand_stack@;
                        proof {
                            assert(fr.operand_stack@ =~= st0.take(st0.len() - 1).push(v));
                        }
                        self.frames.push(fr);
                        Ok(None)
                    },
                    None => {
                        self.frames.push(frame);
                        proof {
                            assert(frames_like(self.frames@, pre.spec_frames()));
                        }
                        Err(RuntimeError::InvalidStackState)
                    },
                }
            },
            ResolvedMethod::IntegerToString
            | ResolvedMethod::DoubleToString
            | ResolvedMethod::BooleanToString => {
                let l = frame.operand_stack.len();
                if l < 1 {
                    self.frames.push(frame);
                    proof {
                        assert(frames_like(self.frames@, pre.spec_frames()));
                    }
                    return Err(RuntimeError::StackUnderflow);
                }
                let top = frame.operand_stack[l - 1];
                let rendered: Option<String> = match resolved {
                    ResolvedMethod::IntegerToString => match top.as_int() {
                        Ok(v) => Some(text::int_to_string(v as i64)),
                        Err(_) => None,
                    },
                    ResolvedMethod::DoubleToString => match top.as_double() {
                        Ok(d) => Some(fp::double_text(d)),
                        Err(_) => None,
                    },
                    _ => match top.as_boolean() {
                        Ok(b) => Some(text::bool_to_string(b)),
                        Err(_) => None,
                    },
                };
                let txt = match rendered {
                    Some(t) => t,
                    None => {
                        self.frames.push(frame);
                        proof {
                            assert(frames_like(self.frames@, pre.spec_frames()));
                        }
                        return Err(RuntimeError::InvalidStackState);
                    },
                };
                if self.next_object_id == usize::MAX {
                    self.frames.push(frame);
                    proof {
                        assert(frames_like(self.frames@, pre.spec_frames()));
                    }
                    return Err(RuntimeError::InvalidStackState);
                }
                let object_id = self.create_string_object(txt);
                let mut fr = frame;
                fr.operand_stack.pop();
                fr.operand_stack.push(JvmValue::Reference(Some(object_id)));
                fr.pc = fr.pc + 1;
                let ghost st0 = frame.operand_stack@;
                proof {
                    assert(fr.operand_stack@ =~= st0.take(st0.len() - 1).push(
                        JvmValue::Reference(Some(object_id)),
                    ));
                }
                self.frames.push(fr);
                Ok(None)
            },
            ResolvedMethod::CharacterIsDigit
            | ResolvedMethod::CharacterIsLetter
            | ResolvedMethod::CharacterToUpperCase
            | ResolvedMethod::CharacterToLowerCase => {
                let l = frame.operand_stack.len();
                if l < 1 {
                    self.frames.push(frame);
                    proof {
                        assert(frames_like(self.frames@, pre.spec_frames()));
                    }
                    return Err(RuntimeError::StackUnderflow);
                }
                let c = match frame.operand_stack[l - 1].as_char() {
                    Ok(v) => v,
                    Err(e) => {
                        self.frames.push(frame);
                        proof {
                            assert(frames_like(self.frames@, pre.spec_frames()));
                        }
                        return Err(e);
                    },
                };
                let byte = #[verifier::truncate] (c as u8);
                let result: JvmValue = match resolved {
                    ResolvedMethod::CharacterIsDigit => JvmValue::Boolean(48 <= byte && byte <= 57),
                    ResolvedMethod::CharacterIsLetter => JvmValue::Boolean(
                        (65 <= byte && byte <= 90) || (97 <= byte && byte <= 122),
                    ),
                    ResolvedMethod::CharacterToUpperCase => JvmValue::Char(
                        if 97 <= byte && byte <= 122 {
                            (byte - 32) as u16
                        } else {
                            byte as u16
                        },
                    ),
                    _ => JvmValue::Char(
                        if 65 <= byte && byte <= 90 {
                            (byte + 32) as u16
                        } else {
                            byte as u16
                        },
                    ),
                };
                let mut fr = frame;
                fr.operand_stack.pop();
                fr.operand_stack.push(result);
                fr.pc = fr.pc + 1;
                let ghost st0 = frame.operand_stack@;
                proof {
                    assert(fr.operand_stack@ =~= st0.take(st0.len() - 1).push(result));
                }
                self.frames.push(fr);
                Ok(None)
            },
            _ => {
                self.frames.push(frame);
                proof {
                    assert(frames_like(self.frames@, pre.spec_frames()));
                }
                Err(RuntimeError::InvalidStackState)
            },
        }
    }
}

} // verus!

verus! {

impl JvmCompatibleVm {
    /// Load a local-variable slot onto the stack.
    fn finish_load(
        &mut self,
        frame: MethodFrame,
        idx: usize,
        Ghost(pre): Ghost<JvmCompatibleVm>,
    ) -> (r: Result<Option<JvmValue>, RuntimeError>)
        requires
            mid_state(*old(self), frame, pre),
            frame.pc < frame.bytecode@.len(),
            frame.bytecode@.len() <= usize::MAX,
        ensures
            spec_load_rel(pre, *final(self), r, idx as int),
            pre.wf() ==> final(self).wf(),
    {
        broadcast use lemma_push_drop_last;

        if idx < frame.locals.len() {
            let v = frame.locals[idx];
            let mut fr = frame;
            fr.operand_stack.push(v);
            fr.pc = fr.pc + 1;
            self.frames.push(fr);
            Ok(None)
        } else {
            self.frames.push(frame);
            proof {
                assert(frames_like(self.frames@, pre.spec_frames()));
            }
            Err(RuntimeError::InvalidStackState)
        }
    }

    /// Pop a value into a local-variable slot, growing the array with the
    /// kind's zero when short.
    fn finish_store(
        &mut self,
        frame: MethodFrame,
        idx: usize,
        kind: SlotKind,
        Ghost(pre): Ghost<JvmCompatibleVm>,
    ) -> (r: Result<Option<JvmValue>, RuntimeError>)
        requires
            mid_state(*old(self), frame, pre),
            frame.pc < frame.bytecode@.len(),
            frame.bytecode@.len() <= usize::MAX,
            idx < usize::MAX,
        ensures
            spec_store_rel(pre, *final(self), r, idx as int, kind),
            pre.wf() ==> final(self).wf(),
    {
        broadcast use lemma_push_drop_last;

        if frame.operand_stack.len() == 0 {
            self.frames.push(frame);
            proof {
                assert(frames_like(self.frames@, pre.spec_frames()));
            }
            return Err(RuntimeError::StackUnderflow);
        }
        let zero: JvmValue = match kind {
            SlotKind::IntSlot => JvmValue::Int(0),
            SlotKind::RefSlot => JvmValue::Reference(None),
            SlotKind::DoubleSlot => JvmValue::Double(0),
            SlotKind::LongSlot => JvmValue::Long(0),
        };
        let ghost locals0 = frame.locals@;
        let ghost st0 = frame.operand_stack@;
        let mut fr = frame;
        let value = fr.operand_stack.pop().unwrap();
        if idx >= fr.locals.len() {
            while fr.locals.len() < idx + 1
                invariant
                    idx < usize::MAX,
                    locals0.len() <= fr.locals@.len() <= idx + 1,
                    fr.locals@ == locals0 + Seq::new(
                        (fr.locals@.len() - locals0.len()) as nat,
                        |q: int| spec_slot_zero(kind),
                    ),
                    zero == spec_slot_zero(kind),
                    fr.operand_stack@ == st0.drop_last(),
                    fr.pc == frame.pc,
                    fr.pc < frame.bytecode@.len() <= usize::MAX,
                    fr.bytecode@ == frame.bytecode@,
                    fr.constant_pool.spec_entries() == frame.constant_pool.spec_entries(),
                decreases idx + 1 - fr.locals@.len(),
            {
                fr.locals.push(zero);
                proof {
                    assert(fr.locals@ =~= locals0 + Seq::new(
                        (fr.locals@.len() - locals0.len()) as nat,
                        |q: int| spec_slot_zero(kind),
                    ));
                }
            }
        }
        fr.locals.set(idx, value);
        fr.pc = fr.pc + 1;
        proof {
            assert(fr.locals@ =~= spec_store_locals(locals0, idx as int, value, kind));
        }
        self.frames.push(fr);
        Ok(None)
    }

    /// Pop a coercible integer and branch on its sign.
    fn finish_branch(
        &mut self,
        frame: MethodFrame,
        kind: CondKind,
        offset: u16,
        Ghost(pre): Ghost<JvmCompatibleVm>,
    ) -> (r: Result<Option<JvmValue>, RuntimeError>)
        requires
            mid_state(*old(self), frame, pre),
            frame.pc < frame.bytecode@.len(),
            frame.bytecode@.len() <= usize::MAX,
        ensures
            spec_branch_rel(pre, *final(self), r, kind, offset),
            pre.wf() ==> final(self).wf(),
    {
        broadcast use lemma_push_drop_last;

        let l = frame.operand_stack.len();
        if l < 1 {
            self.frames.push(frame);
            proof {
                assert(frames_like(self.frames@, pre.spec_frames()));
            }
            return Err(RuntimeError::StackUnderflow);
        }
        let v = match frame.operand_stack[l - 1].as_int() {
            Ok(v) => v,
            Err(e) => {
                self.frames.push(frame);
                proof {
                    assert(frames_like(self.frames@, pre.spec_frames()));
                }
                return Err(e);
            },
        };
        let taken = match kind {
            CondKind::Eq => v == 0,
            CondKind::Ne => v != 0,
            CondKind::Lt => v < 0,
            CondKind::Ge => v >= 0,
            CondKind::Gt => v > 0,
            CondKind::Le => v <= 0,
        };
        let mut fr = frame;
        fr.operand_stack.pop();
        if taken {
            fr.pc = offset as usize;
        } else {
            fr.pc = fr.pc + 1;
        }
        self.frames.push(fr);
        Ok(None)
    }

    /// Execute one instruction: the fetch-decode-execute step of the
    /// machine, exactly as `spec_step` describes.
    #[verifier::rlimit(100)]
    #[verifier::spinoff_prover]
    pub fn execute_single_instruction(&mut self) -> (r: Result<Option<JvmValue>, RuntimeError>)
        ensures
            spec_step(*old(self), *final(self), r),
            old(self).wf() ==> final(self).wf(),
    {
        broadcast use lemma_push_drop_last;

        let ghost pre = *self;
        if self.frames.len() == 0 {
            return Err(RuntimeError::CallStackUnderflow);
        }
        let mut frame = self.frames.pop().unwrap();
        if frame.pc >= frame.bytecode.len() {
            return Ok(None);
        }
        let instruction = frame.bytecode[frame.pc];
        match instruction {
            JvmInstruction::IconstM1 => self.finish_push(frame, JvmValue::Int(-1), Ghost(pre)),
            JvmInstruction::Iconst0 => self.finish_push(frame, JvmValue::Int(0), Ghost(pre)),
            JvmInstruction::Iconst1 => self.finish_push(frame, JvmValue::Int(1), Ghost(pre)),
            JvmInstruction::Iconst2 => self.finish_push(frame, JvmValue::Int(2), Ghost(pre)),
            JvmInstruction::Iconst3 => self.finish_push(frame, JvmValue::Int(3), Ghost(pre)),
            JvmInstruction::Iconst4 => self.finish_push(frame, JvmValue::Int(4), Ghost(pre)),
            JvmInstruction::Iconst5 => self.finish_push(frame, JvmValue::Int(5), Ghost(pre)),
            JvmInstruction::Lconst0 => self.finish_push(frame, JvmValue::Long(0), Ghost(pre)),
            JvmInstruction::Lconst1 => self.finish_push(frame, JvmValue::Long(1), Ghost(pre)),
            JvmInstruction::Dconst0 => self.finish_push(
                frame,
                JvmValue::Double(fp::D_ZERO_BITS),
                Ghost(pre),
            ),
            JvmInstruction::Dconst1 => self.finish_push(
                frame,
                JvmValue::Double(fp::D_ONE_BITS),
                Ghost(pre),
            ),
            JvmInstruction::Bipush(v) => self.finish_push(frame, JvmValue::Int(v as i32), Ghost(pre)),
            JvmInstruction::Sipush(v) => self.finish_push(frame, JvmValue::Int(v as i32), Ghost(pre)),
            JvmInstruction::Ldc(k) => self.finish_ldc(frame, k, Ghost(pre)),
            JvmInstruction::Ldc2W(k) => self.finish_ldc(frame, k, Ghost(pre)),
            JvmInstruction::Pop => {
                if frame.operand_stack.len() < 1 {
                    self.frames.push(frame);
                    proof {
                        assert(frames_like(self.frames@, pre.spec_frames()));
                    }
                    return Err(RuntimeError::StackUnderflow);
                }
                let mut fr = frame;
                fr.operand_stack.pop();
                fr.pc = fr.pc + 1;
                self.frames.push(fr);
                Ok(None)
            },
            JvmInstruction::Dup => {
                let l = frame.operand_stack.len();
                if l < 1 {
                    self.frames.push(frame);
                    proof {
                        assert(frames_like(self.frames@, pre.spec_frames()));
                    }
                    return Err(RuntimeError::StackUnderflow);
                }
                let v = frame.operand_stack[l - 1];
                let mut fr = frame;
                fr.operand_stack.push(v);
                fr.pc = fr.pc + 1;
                self.frames.push(fr);
                Ok(None)
            },
            JvmInstruction::Swap => {
                let l = frame.operand_stack.len();
                if l < 2 {
                    self.frames.push(frame);
                    proof {
                        assert(frames_like(self.frames@, pre.spec_frames()));
                    }
                    return Err(RuntimeError::StackUnderflow);
                }
                let b = frame.operand_stack[l - 1];
                let a = frame.operand_stack[l - 2];
                let mut fr = frame;
                fr.operand_stack.set(l - 1, a);
                fr.operand_stack.set(l - 2, b);
                fr.pc = fr.pc + 1;
                self.frames.push(fr);
                proof {
                    let st0 = pre.spec_frames().last().operand_stack@;
                    assert(fr.operand_stack@ =~= st0.update(st0.len() - 1, st0[st0.len() - 2]).update(
                        st0.len() - 2,
                        st0[st0.len() - 1],
                    ));
                }
                Ok(None)
            },
            JvmInstruction::Iadd => self.finish_int_binop(frame, IntOp::Add, Ghost(pre)),
            JvmInstruction::Isub => self.finish_int_binop(frame, IntOp::Sub, Ghost(pre)),
            JvmInstruction::Imul => self.finish_int_binop(frame, IntOp::Mul, Ghost(pre)),
            JvmInstruction::Idiv => self.finish_int_binop(frame, IntOp::Div, Ghost(pre)),
            JvmInstruction::Irem => self.finish_int_binop(frame, IntOp::Rem, Ghost(pre)),
            JvmInstruction::Dadd => self.finish_double_binop(frame, DoubleOp::Add, Ghost(pre)),
            JvmInstruction::Dsub => self.finish_double_binop(frame, DoubleOp::Sub, Ghost(pre)),
            JvmInstruction::Dmul => self.finish_double_binop(frame, DoubleOp::Mul, Ghost(pre)),
            JvmInstruction::Ddiv => self.finish_double_binop(frame, DoubleOp::Div, Ghost(pre)),
            JvmInstruction::I2d => {
                let l = frame.operand_stack.len();
                if l < 1 {
                    self.frames.push(frame);
                    proof {
                        assert(frames_like(self.frames@, pre.spec_frames()));
                    }
                    return Err(RuntimeError::StackUnderflow);
                }
                let v = match frame.operand_stack[l - 1].as_int() {
                    Ok(v) => v,
                    Err(e) => {
                        self.frames.push(frame);
                        proof {
                            assert(frames_like(self.frames@, pre.spec_frames()));
                        }
                        return Err(e);
                    },
                };
                let bits = fp::i2d_bits(v);
                let mut fr = frame;
                fr.operand_stack.pop();
                fr.operand_stack.push(JvmValue::Double(bits));
                fr.pc = fr.pc + 1;
                let ghost st0 = frame.operand_stack@;
                proof {
                    assert(fr.operand_stack@ =~= st0.take(st0.len() - 1).push(
                        JvmValue::Double(bits),
                    ));
                }
                self.frames.push(fr);
                Ok(None)
            },
            JvmInstruction::D2i => {
                let l = frame.operand_stack.len();
                if l < 1 {
                    self.frames.push(frame);
                    proof {
                        assert(frames_like(self.frames@, pre.spec_frames()));
                    }
                    return Err(RuntimeError::StackUnderflow);
                }
                let d = match frame.operand_stack[l - 1] {
                    JvmValue::Double(d) => d,
                    _ => {
                        self.frames.push(frame);
                        proof {
                            assert(frames_like(self.frames@, pre.spec_frames()));
                        }
                        return Err(RuntimeError::InvalidStackState);
                    },
                };
                let v = fp::d2i_bits(d);
                let mut fr = frame;
                fr.operand_stack.pop();
                fr.operand_stack.push(JvmValue::Int(v));
                fr.pc = fr.pc + 1;
                let ghost st0 = frame.operand_stack@;
                proof {
                    assert(fr.operand_stack@ =~= st0.take(st0.len() - 1).push(JvmValue::Int(v)));
                }
                self.frames.push(fr);
                Ok(None)
            },
            JvmInstruction::Goto(o) => {
                let mut fr = frame;
                fr.pc = o as usize;
                self.frames.push(fr);
                Ok(None)
            },
            JvmInstruction::Ifeq(o) => self.finish_branch(frame, CondKind::Eq, o, Ghost(pre)),
            JvmInstruction::Ifne(o) => self.finish_branch(frame, CondKind::Ne, o, Ghost(pre)),
            JvmInstruction::Iflt(o) => self.finish_branch(frame, CondKind::Lt, o, Ghost(pre)),
            JvmInstruction::Ifge(o) => self.finish_branch(frame, CondKind::Ge, o, Ghost(pre)),
            JvmInstruction::Ifgt(o) => self.finish_branch(frame, CondKind::Gt, o, Ghost(pre)),
            JvmInstruction::Ifle(o) => self.finish_branch(frame, CondKind::Le, o, Ghost(pre)),
            JvmInstruction::Return => Ok(None),
            JvmInstruction::Ireturn => self.finish_ireturn(frame, Ghost(pre)),
            JvmInstruction::New(_) => self.finish_push(
                frame,
                JvmValue::Reference(Some(0)),
                Ghost(pre),
            ),
            JvmInstruction::Getstatic(k) => self.finish_getstatic(frame, k, Ghost(pre)),
            JvmInstruction::Invokevirtual(k) => self.finish_invokevirtual(frame, k, Ghost(pre)),
            JvmInstruction::Invokespecial(_) => {
                let mut fr = frame;
                if fr.operand_stack.len() > 0 {
                    fr.operand_stack.pop();
                }
                fr.pc = fr.pc + 1;
                self.frames.push(fr);
                Ok(None)
            },
            JvmInstruction::Invokestatic(k) => self.finish_invokestatic(frame, k, Ghost(pre)),
            JvmInstruction::Invokedynamic(_) => {
                let mut fr = frame;
                if fr.operand_stack.len() > 0 {
                    fr.operand_stack.pop();
                    fr.operand_stack.push(JvmValue::Reference(Some(0)));
                }
                fr.pc = fr.pc + 1;
                self.frames.push(fr);
                Ok(None)
            },
            JvmInstruction::Iload(n) => self.finish_load(frame, n as usize, Ghost(pre)),
            JvmInstruction::Iload0 => self.finish_load(frame, 0, Ghost(pre)),
            JvmInstruction::Iload1 => self.finish_load(frame, 1, Ghost(pre)),
            JvmInstruction::Iload2 => self.finish_load(frame, 2, Ghost(pre)),
            JvmInstruction::Iload3 => self.finish_load(frame, 3, Ghost(pre)),
            JvmInstruction::Aload(n) => self.finish_load(frame, n as usize, Ghost(pre)),
            JvmInstruction::Aload0 => self.finish_load(frame, 0, Ghost(pre)),
            JvmInstruction::Aload1 => self.finish_load(frame, 1, Ghost(pre)),
            JvmInstruction::Aload2 => self.finish_load(frame, 2, Ghost(pre)),
            JvmInstruction::Aload3 => self.finish_load(frame, 3, Ghost(pre)),
            JvmInstruction::Dload(n) => self.finish_load(frame, n as usize, Ghost(pre)),
            JvmInstruction::Dload0 => self.finish_load(frame, 0, Ghost(pre)),
            JvmInstruction::Dload1 => self.finish_load(frame, 1, Ghost(pre)),
            JvmInstruction::Dload2 => self.finish_load(frame, 2, Ghost(pre)),
            JvmInstruction::Dload3 => self.finish_load(frame, 3, Ghost(pre)),
            JvmInstruction::Lload(n) => self.finish_load(frame, n as usize, Ghost(pre)),
            JvmInstruction::Lload0 => self.finish_load(frame, 0, Ghost(pre)),
            JvmInstruction::Lload1 => self.finish_load(frame, 1, Ghost(pre)),
            JvmInstruction::Lload2 => self.finish_load(frame, 2, Ghost(pre)),
            JvmInstruction::Lload3 => self.finish_load(frame, 3, Ghost(pre)),
            JvmInstruction::Istore(n) => self.finish_store(
                frame,
                n as usize,
                SlotKind::IntSlot,
                Ghost(pre),
            ),
            JvmInstruction::Istore0 => self.finish_store(frame, 0, SlotKind::IntSlot, Ghost(pre)),
            JvmInstruction::Istore1 => self.finish_store(frame, 1, SlotKind::IntSlot, Ghost(pre)),
            JvmInstruction::Istore2 => self.finish_store(frame, 2, SlotKind::IntSlot, Ghost(pre)),
            JvmInstruction::Istore3 => self.finish_store(frame, 3, SlotKind::IntSlot, Ghost(pre)),
            JvmInstruction::Astore(n) => self.finish_store(
                frame,
                n as usize,
                SlotKind::RefSlot,
                Ghost(pre),
            ),
            JvmInstruction::Astore0 => self.finish_store(frame, 0, SlotKind::RefSlot, Ghost(pre)),
            JvmInstruction::Astore1 => self.finish_store(frame, 1, SlotKind::RefSlot, Ghost(pre)),
            JvmInstruction::Astore2 => self.finish_store(frame, 2, SlotKind::RefSlot, Ghost(pre)),
            JvmInstruction::Astore3 => self.finish_store(frame, 3, SlotKind::RefSlot, Ghost(pre)),
            JvmInstruction::Dstore(n) => self.finish_store(
                frame,
                n as usize,
                SlotKind::DoubleSlot,
                Ghost(pre),
            ),
            JvmInstruction::Dstore0 => self.finish_store(frame, 0, SlotKind::DoubleSlot, Ghost(pre)),
            JvmInstruction::Dstore1 => self.finish_store(frame, 1, SlotKind::DoubleSlot, Ghost(pre)),
            JvmInstruction::Dstore2 => self.finish_store(frame, 2, SlotKind::DoubleSlot, Ghost(pre)),
            JvmInstruction::Dstore3 => self.finish_store(frame, 3, SlotKind::DoubleSlot, Ghost(pre)),
            JvmInstruction::Lstore(n) => self.finish_store(
                frame,
                n as usize,
                SlotKind::LongSlot,
                Ghost(pre),
            ),
            JvmInstruction::Lstore0 => self.finish_store(frame, 0, SlotKind::LongSlot, Ghost(pre)),
            JvmInstruction::Lstore1 => self.finish_store(frame, 1, SlotKind::LongSlot, Ghost(pre)),
            JvmInstruction::Lstore2 => self.finish_store(frame, 2, SlotKind::LongSlot, Ghost(pre)),
            JvmInstruction::Lstore3 => self.finish_store(frame, 3, SlotKind::LongSlot, Ghost(pre)),
            JvmInstruction::Nop => {
                let mut fr = frame;
                fr.pc = fr.pc + 1;
                self.frames.push(fr);
                Ok(None)
            },
        }
    }

    /// Push one value and advance.
    fn finish_push(
        &mut self,
        frame: MethodFrame,
        v: JvmValue,
        Ghost(pre): Ghost<JvmCompatibleVm>,
    ) -> (r: Result<Option<JvmValue>, RuntimeError>)
        requires
            mid_state(*old(self), frame, pre),
            frame.pc < frame.bytecode@.len(),
            frame.bytecode@.len() <= usize::MAX,
        ensures
            r == Ok::<Option<JvmValue>, RuntimeError>(None),
            step_stack(
                pre,
                *final(self),
                pre.spec_frames().last().operand_stack@.push(v),
                pre.spec_frames().last().pc + 1,
            ),
            pre.wf() ==> final(self).wf(),
    {
        broadcast use lemma_push_drop_last;

        let mut fr = frame;
        fr.operand_stack.push(v);
        fr.pc = fr.pc + 1;
        self.frames.push(fr);
        Ok(None)
    }

    /// Apply an integer instruction.
    fn finish_int_binop(
        &mut self,
        frame: MethodFrame,
        op: IntOp,
        Ghost(pre): Ghost<JvmCompatibleVm>,
    ) -> (r: Result<Option<JvmValue>, RuntimeError>)
        requires
            mid_state(*old(self), frame, pre),
            frame.pc < frame.bytecode@.len(),
            frame.bytecode@.len() <= usize::MAX,
        ensures
            spec_stack_rewrite_rel(
                pre,
                *final(self),
                r,
                spec_int_binop(op, pre.spec_frames().last().operand_stack@),
            ),
            pre.wf() ==> final(self).wf(),
    {
        broadcast use lemma_push_drop_last;

        let mut fr = frame;
        match int_binop_exec(&mut fr.operand_stack, op) {
            Ok(_) => {
                fr.pc = fr.pc + 1;
                self.frames.push(fr);
                Ok(None)
            },
            Err(e) => {
                self.frames.push(fr);
                proof {
                    assert(frames_like(self.frames@, pre.spec_frames()));
                }
                Err(e)
            },
        }
    }

    /// Apply a double instruction.
    fn finish_double_binop(
        &mut self,
        frame: MethodFrame,
        op: DoubleOp,
        Ghost(pre): Ghost<JvmCompatibleVm>,
    ) -> (r: Result<Option<JvmValue>, RuntimeError>)
        requires
            mid_state(*old(self), frame, pre),
            frame.pc < frame.bytecode@.len(),
            frame.bytecode@.len() <= usize::MAX,
        ensures
            spec_stack_rewrite_rel(
                pre,
                *final(self),
                r,
                spec_double_binop(op, pre.spec_frames().last().operand_stack@),
            ),
            pre.wf() ==> final(self).wf(),
    {
        broadcast use lemma_push_drop_last;

        let mut fr = frame;
        match double_binop_exec(&mut fr.operand_stack, op) {
            Ok(_) => {
                fr.pc = fr.pc + 1;
                self.frames.push(fr);
                Ok(None)
            },
            Err(e) => {
                self.frames.push(fr);
                proof {
                    assert(frames_like(self.frames@, pre.spec_frames()));
                }
                Err(e)
            },
        }
    }
}

} // verus!

verus! {

/// The machine after the step counter advances past a completed
/// instruction: everything else stands.
pub open spec fn vm_bumped(mid: JvmCompatibleVm, b: JvmCompatibleVm) -> bool {
    &&& b.spec_steps() == mid.spec_steps() + 1
    &&& b.spec_frames() == mid.spec_frames()
    &&& b.spec_heap() == mid.spec_heap()
    &&& b.spec_strings() == mid.spec_strings()
    &&& b.spec_output() == mid.spec_output()
    &&& b.spec_next_id() == mid.spec_next_id()
    &&& b.spec_max_steps() == mid.spec_max_steps()
    &&& b.spec_class() == mid.spec_class()
}

/// The second machine is the first with the given class loaded; nothing
/// else moves.
pub open spec fn vm_with_class(a: JvmCompatibleVm, b: JvmCompatibleVm, cf: ClassFile) -> bool {
    &&& b.spec_frames() == a.spec_frames()
    &&& b.spec_heap() == a.spec_heap()
    &&& b.spec_strings() == a.spec_strings()
    &&& b.spec_output() == a.spec_output()
    &&& b.spec_next_id() == a.spec_next_id()
    &&& b.spec_steps() == a.spec_steps()
    &&& b.spec_max_steps() == a.spec_max_steps()
    &&& b.spec_class() == Some(cf)
}

/// One completed loop iteration of the run: an instruction step that
/// yields no value, then the step counter advances.
pub open spec fn spec_iter_step(a: JvmCompatibleVm, b: JvmCompatibleVm) -> bool {
    exists|mid: JvmCompatibleVm|
        #[trigger] spec_step(a, mid, Ok(None::<JvmValue>)) && vm_bumped(mid, b)
}

/// A run trace: the machine states at the top of the run loop, each
/// consecutive pair one completed instruction apart.
pub open spec fn spec_trace(tr: Seq<JvmCompatibleVm>) -> bool {
    &&& tr.len() >= 1
    &&& forall|i: int| 0 <= i < tr.len() - 1 ==> #[trigger] spec_iter_step(tr[i], tr[i + 1])
}

/// The state a method invocation enters: one fresh frame over the given
/// code and pool on top of the caller's frames, zero-filled locals, an
/// empty operand stack, and the step counter reset.
pub open spec fn spec_entry_state(
    s: JvmCompatibleVm,
    prev: JvmCompatibleVm,
    bytecode: Seq<JvmInstruction>,
    pool: Seq<ConstantPoolEntry>,
    max_locals: int,
) -> bool {
    &&& s.spec_frames().len() == prev.spec_frames().len() + 1
    &&& s.spec_frames().drop_last() == prev.spec_frames()
    &&& s.spec_frames().last().locals@ == Seq::new(
        if max_locals >= 0 {
            max_locals as nat
        } else {
            0
        },
        |i: int| JvmValue::Int(0),
    )
    &&& s.spec_frames().last().operand_stack@.len() == 0
    &&& s.spec_frames().last().pc == 0
    &&& s.spec_frames().last().bytecode@ == bytecode
    &&& s.spec_frames().last().constant_pool.spec_entries() == pool
    &&& s.spec_steps() == 0
    &&& s.spec_heap() == prev.spec_heap()
    &&& s.spec_strings() == prev.spec_strings()
    &&& s.spec_output() == prev.spec_output()
    &&& s.spec_next_id() == prev.spec_next_id()
    &&& s.spec_max_steps() == prev.spec_max_steps()
    &&& s.spec_class() == prev.spec_class()
}

/// How a run ends. With `Ok(None)` the frame stack ran dry at the last
/// trace state. With `Ok(Some(v))` one more step returned `v` from the
/// bottom frame and the counter advanced past it. An error is either the
/// step budget found exhausted at the last trace state, as
/// `InvalidStackState`, or a final step that faulted, leaving the machine
/// as it stood.
pub open spec fn spec_run_outcome(
    tr: Seq<JvmCompatibleVm>,
    fin: JvmCompatibleVm,
    r: Result<Option<JvmValue>, RuntimeError>,
) -> bool {
    match r {
        Ok(opt) => match opt {
            None => fin == tr.last() && fin.spec_frames().len() == 0,
            Some(v) => exists|mid: JvmCompatibleVm|
                #[trigger] spec_step(tr.last(), mid, Ok(Some(v))) && vm_bumped(mid, fin),
        },
        Err(e) => (e == RuntimeError::InvalidStackState && fin == tr.last() && fin.spec_steps()
            >= fin.spec_max_steps()) || spec_step(
            tr.last(),
            fin,
            Err::<Option<JvmValue>, RuntimeError>(e),
        ),
    }
}

impl JvmCompatibleVm {
    /// Run a method to completion: push its frame, then fetch, decode and
    /// execute until the frame stack empties or a value returns. The run
    /// is exactly an entry state followed by a trace of instruction
    /// steps; the interpreter never executes more than `max_steps`
    /// instructions before returning or faulting.
    #[verifier::loop_isolation(false)]
    pub fn execute_method(
        &mut self,
        bytecode: Vec<JvmInstruction>,
        constant_pool: ConstantPool,
        max_locals: usize,
    ) -> (r: Result<Option<JvmValue>, RuntimeError>)
        requires
            old(self).wf(),
        ensures
            final(self).wf(),
            final(self).spec_steps() <= final(self).spec_max_steps(),
            final(self).spec_max_steps() == old(self).spec_max_steps(),
            final(self).spec_class() == old(self).spec_class(),
            output_prefix(old(self).spec_output(), final(self).spec_output()),
            r matches Ok(v) && v is Some ==> final(self).spec_frames().len() == 0,
            exists|tr: Seq<JvmCompatibleVm>|
                {
                    &&& #[trigger] spec_trace(tr)
                    &&& spec_entry_state(
                        tr[0],
                        *old(self),
                        bytecode@,
                        constant_pool.spec_entries(),
                        max_locals as int,
                    )
                    &&& tr.last().spec_steps() == tr.len() - 1
                    &&& tr.len() - 1 <= old(self).spec_max_steps()
                    &&& spec_run_outcome(tr, *final(self), r)
                },
    {
        broadcast use lemma_push_drop_last;

        let ghost bc = bytecode@;
        let ghost pe = constant_pool.spec_entries();
        let mut locals: Vec<JvmValue> = Vec::new();
        let mut i: usize = 0;
        while i < max_locals
            invariant
                0 <= i <= max_locals,
                locals@.len() == i,
                forall|j: int| 0 <= j < i ==> #[trigger] locals@[j] == JvmValue::Int(0),
            decreases max_locals - i,
        {
            locals.push(JvmValue::Int(0));
            i = i + 1;
        }
        let frame = MethodFrame {
            locals,
            operand_stack: Vec::new(),
            constant_pool,
            pc: 0,
            bytecode,
        };
        self.frames.push(frame);
        self.steps = 0;
        let ghost entry = *self;
        let ghost mut tr: Seq<JvmCompatibleVm> = seq![entry];
        proof {
            assert(entry.spec_frames().last().locals@ =~= Seq::new(
                max_locals as nat,
                |j: int| JvmValue::Int(0),
            )) by {
                assert(entry.spec_frames().last().locals@.len() == max_locals);
                assert(forall|j: int|
                    0 <= j < max_locals ==> #[trigger] entry.spec_frames().last().locals@[j]
                        == JvmValue::Int(0));
            }
            assert(spec_entry_state(entry, *old(self), bc, pe, max_locals as int));
            assert(output_prefix(old(self).spec_output(), self.spec_output()));
        }
        while self.frames.len() > 0
            invariant
                self.wf(),
                self.spec_steps() <= self.spec_max_steps(),
                self.spec_max_steps() == old(self).spec_max_steps(),
                self.spec_class() == old(self).spec_class(),
                output_prefix(old(self).spec_output(), self.spec_output()),
                spec_trace(tr),
                tr[0] == entry,
                spec_entry_state(entry, *old(self), bc, pe, max_locals as int),
                tr.last() == *self,
                self.spec_steps() == tr.len() - 1,
            decreases self.spec_max_steps() - self.spec_steps(),
        {
            if self.steps >= self.max_steps {
                proof {
                    assert(spec_trace(tr));
                    assert(spec_run_outcome(
                        tr,
                        *self,
                        Err::<Option<JvmValue>, RuntimeError>(RuntimeError::InvalidStackState),
                    ));
                }
                return Err(RuntimeError::InvalidStackState);
            }
            let ghost before = *self;
            let result = match self.execute_single_instruction() {
                Ok(v) => v,
                Err(e) => {
                    proof {
                        assert(spec_step(before, *self, Err::<Option<JvmValue>, RuntimeError>(e)));
                        assert(spec_trace(tr));
                        assert(spec_run_outcome(
                            tr,
                            *self,
                            Err::<Option<JvmValue>, RuntimeError>(e),
                        ));
                    }
                    return Err(e);
                },
            };
            let ghost mid = *self;
            proof {
                assert(spec_step(before, mid, Ok::<Option<JvmValue>, RuntimeError>(result)));
                lemma_step_output_monotone(
                    before,
                    mid,
                    Ok::<Option<JvmValue>, RuntimeError>(result),
                );
                if result is Some {
                    lemma_step_value_empties_stack(before, mid, result->0);
                }
            }
            self.steps = self.steps + 1;
            match result {
                Some(return_value) => {
                    proof {
                        assert(spec_step(
                            tr.last(),
                            mid,
                            Ok::<Option<JvmValue>, RuntimeError>(Some(return_value)),
                        ));
                        assert(vm_bumped(mid, *self));
                        assert(spec_run_outcome(
                            tr,
                            *self,
                            Ok::<Option<JvmValue>, RuntimeError>(Some(return_value)),
                        ));
                    }
                    return Ok(Some(return_value));
                },
                None => {},
            }
            proof {
                assert(vm_bumped(mid, *self));
                assert(spec_iter_step(before, *self)) by {
                    assert(spec_step(before, mid, Ok(None::<JvmValue>)) && vm_bumped(mid, *self));
                }
                let ghost tr2 = tr.push(*self);
                assert forall|q: int| 0 <= q < tr2.len() - 1 implies #[trigger] spec_iter_step(
                    tr2[q],
                    tr2[q + 1],
                ) by {
                    if q < tr.len() - 1 {
                        assert(tr2[q] == tr[q]);
                        assert(tr2[q + 1] == tr[q + 1]);
                    } else {
                        assert(tr2[q] == before);
                        assert(tr2[q + 1] == *self);
                    }
                }
                tr = tr2;
            }
        }
        proof {
            assert(spec_trace(tr));
            assert(spec_run_outcome(tr, *self, Ok::<Option<JvmValue>, RuntimeError>(None)));
        }
        Ok(None)
    }

    /// Parse a class file from bytes and run its main method. On bytes
    /// the structure spec refuses, the parse fault comes back and the
    /// machine stands; otherwise the parsed class is loaded and the run
    /// is exactly an entry state over its main method followed by a trace
    /// of instruction steps.
    pub fn execute_class_bytes(&mut self, data: &[u8]) -> (r: Result<Option<JvmValue>, RuntimeError>)
        requires
            old(self).wf(),
        ensures
            final(self).wf(),
            final(self).spec_max_steps() == old(self).spec_max_steps(),
            match crate::reader::spec_class_structure(data@) {
                Err(pe) => r == Err::<Option<JvmValue>, RuntimeError>(pe) && vm_unchanged(
                    *old(self),
                    *final(self),
                ),
                Ok(parsed) => exists|lv: JvmCompatibleVm, cf2: ClassFile, tr: Seq<JvmCompatibleVm>|
                    {
                        &&& spec_trace(tr)
                        &&& #[trigger] vm_with_class(*old(self), lv, cf2)
                        &&& #[trigger] spec_run_outcome(tr, *final(self), r)
                        &&& crate::pool::pool_model(cf2.constant_pool.spec_entries()) == parsed.0
                        &&& crate::reader::methods_model(cf2.methods@) == parsed.1
                        &&& crate::reader::spec_main_selected(
                            cf2.methods@,
                            cf2.main_method_bytecode@,
                            cf2.max_locals,
                            cf2.max_stack,
                        )
                        &&& spec_entry_state(
                            tr[0],
                            lv,
                            cf2.main_method_bytecode@,
                            cf2.constant_pool.spec_entries(),
                            cf2.max_locals as int,
                        )
                        &&& tr.last().spec_steps() == tr.len() - 1
                        &&& tr.len() - 1 <= old(self).spec_max_steps()
                    },
            },
    {
        let class_file = match ClassFileParser::parse(data) {
            Ok(cf) => cf,
            Err(e) => {
                return Err(e);
            },
        };
        let main_method_bytecode = copy_instructions(&class_file.main_method_bytecode);
        let constant_pool = class_file.constant_pool.duplicate();
        let max_locals = class_file.max_locals;
        let ghost before_load = *self;
        let ghost cfg = class_file;
        self.current_class = Some(class_file);
        let ghost loaded = *self;
        let result = self.execute_method(main_method_bytecode, constant_pool, max_locals);
        proof {
            assert(vm_with_class(before_load, loaded, cfg));
            let tr = choose|tr: Seq<JvmCompatibleVm>|
                {
                    &&& #[trigger] spec_trace(tr)
                    &&& spec_entry_state(
                        tr[0],
                        loaded,
                        main_method_bytecode@,
                        constant_pool.spec_entries(),
                        max_locals as int,
                    )
                    &&& tr.last().spec_steps() == tr.len() - 1
                    &&& tr.len() - 1 <= loaded.spec_max_steps()
                    &&& spec_run_outcome(tr, *self, result)
                };
            assert(before_load == *old(self));
            assert(vm_with_class(*old(self), loaded, cfg));
            assert(spec_trace(tr) && spec_entry_state(
                tr[0],
                loaded,
                cfg.main_method_bytecode@,
                cfg.constant_pool.spec_entries(),
                cfg.max_locals as int,
            ));
            assert(spec_run_outcome(tr, *self, result));
        }
        result
    }
}

/// Two back-to-back `Ldc` of the same pool index push equal values when
/// the entry is numeric: the loaded constant is a function of the pool
/// and the index alone. A `String` entry materializes a fresh object each
/// time, so there the pushed references differ while the denoted text is
/// the same.
pub proof fn lemma_ldc_idempotent(
    pre1: JvmCompatibleVm,
    post1: JvmCompatibleVm,
    pre2: JvmCompatibleVm,
    post2: JvmCompatibleVm,
    k: u16,
)
    requires
        spec_ldc_rel(pre1, post1, Ok(None), k),
        spec_ldc_rel(pre2, post2, Ok(None), k),
        pre1.spec_frames().len() >= 1,
        pre2.spec_frames().len() >= 1,
        pre1.spec_frames().last().constant_pool.spec_entries()
            == pre2.spec_frames().last().constant_pool.spec_entries(),
        1 <= k,
        k - 1 < pre1.spec_frames().last().constant_pool.spec_entries().len(),
        !(pre1.spec_frames().last().constant_pool.spec_entries()[k - 1] is String),
        !(pre1.spec_frames().last().constant_pool.spec_entries()[k - 1] is Placeholder),
    ensures
        post1.spec_frames().last().operand_stack@.last()
            == post2.spec_frames().last().operand_stack@.last(),
{
}

/// Before and after `Iadd`, the operand stack shrinks by exactly one
/// slot: two operands leave and one sum arrives.
pub proof fn lemma_iadd_stack_discipline(
    pre: JvmCompatibleVm,
    post: JvmCompatibleVm,
    r: Result<Option<JvmValue>, RuntimeError>,
)
    requires
        spec_step(pre, post, r),
        pre.spec_frames().len() >= 1,
        pre.spec_frames().last().pc < pre.spec_frames().last().bytecode@.len(),
        pre.spec_frames().last().bytecode@[pre.spec_frames().last().pc as int]
            == JvmInstruction::Iadd,
        r is Ok,
    ensures
        post.spec_frames().last().operand_stack@.len()
            == pre.spec_frames().last().operand_stack@.len() - 1,
{
}

} // verus!

verus! {

/// One log is a prefix of another: nothing already written ever changes.
pub open spec fn output_prefix(a: Seq<OutputLine>, b: Seq<OutputLine>) -> bool {
    &&& a.len() <= b.len()
    &&& forall|i: int|
        0 <= i < a.len() ==> {
            &&& (#[trigger] b[i]).to_stderr == a[i].to_stderr
            &&& b[i].newline == a[i].newline
            &&& b[i].text@ == a[i].text@
        }
}

/// A step never rewrites what was already printed: the output log only
/// grows at its end.
pub proof fn lemma_step_output_monotone(
    pre: JvmCompatibleVm,
    post: JvmCompatibleVm,
    r: Result<Option<JvmValue>, RuntimeError>,
)
    requires
        spec_step(pre, post, r),
    ensures
        output_prefix(pre.spec_output(), post.spec_output()),
{
    if post.spec_output().len() == pre.spec_output().len() + 1 && post.spec_output().drop_last()
        == pre.spec_output() {
        assert forall|i: int| 0 <= i < pre.spec_output().len() implies {
            &&& (#[trigger] post.spec_output()[i]).to_stderr == pre.spec_output()[i].to_stderr
            &&& post.spec_output()[i].newline == pre.spec_output()[i].newline
            &&& post.spec_output()[i].text@ == pre.spec_output()[i].text@
        } by {
            assert(post.spec_output()[i] == post.spec_output().drop_last()[i]);
        }
    }
}

/// A step that yields a value has run the bottom frame's return: the call
/// stack is empty afterwards.
pub proof fn lemma_step_value_empties_stack(
    pre: JvmCompatibleVm,
    post: JvmCompatibleVm,
    v: JvmValue,
)
    requires
        spec_step(pre, post, Ok(Some(v))),
    ensures
        post.spec_frames().len() == 0,
{
}

} // verus!
