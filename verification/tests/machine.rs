//! The interpreter, the class-file codec, and the intrinsic runtime,
//! exercised end to end.

use dice_rust::instr::JvmInstruction;
use dice_rust::pool::{ConstantPool, ConstantPoolEntry};
use dice_rust::reader::{parse_bytecode, ClassFileParser};
use dice_rust::errors::RuntimeError;
use dice_rust::value::JvmValue;
use dice_rust::vm::{count_method_parameters, JvmCompatibleVm};
use dice_rust::writer::{instructions_to_bytes, JavaClassGenerator};

#[test]
fn test_simple_arithmetic() {
    let mut vm = JvmCompatibleVm::new();
    let bytecode = vec![
        JvmInstruction::Iconst2,
        JvmInstruction::Iconst3,
        JvmInstruction::Iadd,
        JvmInstruction::Ireturn,
    ];

    let constant_pool = ConstantPool::new();
    let result = vm.execute_method(bytecode, constant_pool, 0).unwrap();

    assert_eq!(result, Some(JvmValue::Int(5)));
}

#[test]
fn jvm_compatible_vm_test_simple_arithmetic() {
    let mut vm = JvmCompatibleVm::new();
    let bytecode = vec![
        JvmInstruction::Iconst2,
        JvmInstruction::Iconst3,
        JvmInstruction::Iadd,
        JvmInstruction::Ireturn,
    ];

    let constant_pool = ConstantPool::new();
    let result = vm.execute_method(bytecode, constant_pool, 0).unwrap();

    assert_eq!(result, Some(JvmValue::Int(5)));
}

#[test]
fn test_conditional_jump() {
    let mut vm = JvmCompatibleVm::new();
    let bytecode = vec![
        JvmInstruction::Iconst0,
        JvmInstruction::Ifne(5),
        JvmInstruction::Iconst1,
        JvmInstruction::Ireturn,
        JvmInstruction::Iconst2,
        JvmInstruction::Ireturn,
    ];

    let constant_pool = ConstantPool::new();
    let result = vm.execute_method(bytecode, constant_pool, 0).unwrap();

    assert_eq!(result, Some(JvmValue::Int(1)));
}

#[test]
fn jvm_compatible_vm_test_conditional_jump() {
    let mut vm = JvmCompatibleVm::new();
    let bytecode = vec![
        JvmInstruction::Iconst0,
        JvmInstruction::Ifne(5),
        JvmInstruction::Iconst1,
        JvmInstruction::Ireturn,
        JvmInstruction::Iconst2,
        JvmInstruction::Ireturn,
    ];

    let constant_pool = ConstantPool::new();
    let result = vm.execute_method(bytecode, constant_pool, 0).unwrap();

    assert_eq!(result, Some(JvmValue::Int(1)));
}

fn hello_world_pool() -> (ConstantPool, u16, u16, u16) {
    let mut constant_pool = ConstantPool::new();

    let hello_utf8 = constant_pool.add_utf8("Hello, World!".to_string());
    let hello_string = constant_pool.add_string(hello_utf8);

    let system_utf8 = constant_pool.add_utf8("java/lang/System".to_string());
    let system_class = constant_pool.add_class(system_utf8);

    let out_utf8 = constant_pool.add_utf8("out".to_string());
    let printstream_desc_utf8 = constant_pool.add_utf8("Ljava/io/PrintStream;".to_string());
    let out_name_and_type = constant_pool.add_name_and_type(out_utf8, printstream_desc_utf8);
    let system_out_field = constant_pool.add_fieldref(system_class, out_name_and_type);

    let printstream_utf8 = constant_pool.add_utf8("java/io/PrintStream".to_string());
    let printstream_class = constant_pool.add_class(printstream_utf8);

    let println_utf8 = constant_pool.add_utf8("println".to_string());
    let println_desc_utf8 = constant_pool.add_utf8("(Ljava/lang/String;)V".to_string());
    let println_name_and_type = constant_pool.add_name_and_type(println_utf8, println_desc_utf8);
    let println_method = constant_pool.add_methodref(printstream_class, println_name_and_type);

    (constant_pool, system_out_field, hello_string, println_method)
}

#[test]
fn test_jvm_compatible_hello_world() {
    let mut vm = JvmCompatibleVm::new();
    let (constant_pool, system_out_field, hello_string, println_method) = hello_world_pool();

    let bytecode = vec![
        JvmInstruction::Getstatic(system_out_field),
        JvmInstruction::Ldc(hello_string),
        JvmInstruction::Invokevirtual(println_method),
        JvmInstruction::Return,
    ];

    let result = vm.execute_method(bytecode, constant_pool, 0);
    assert!(result.is_ok());
}

#[test]
fn hello_world_writes_exactly_one_line() {
    let mut vm = JvmCompatibleVm::new();
    let (constant_pool, system_out_field, hello_string, println_method) = hello_world_pool();

    let bytecode = vec![
        JvmInstruction::Getstatic(system_out_field),
        JvmInstruction::Ldc(hello_string),
        JvmInstruction::Invokevirtual(println_method),
        JvmInstruction::Return,
    ];

    let result = vm.execute_method(bytecode, constant_pool, 0);
    assert_eq!(result, Ok(None));
    let output = vm.output();
    assert_eq!(output.len(), 1);
    assert_eq!(output[0].text, "Hello, World!");
    assert!(!output[0].to_stderr);
    assert!(output[0].newline);
}

fn math_random_pool() -> (ConstantPool, u16) {
    let mut constant_pool = ConstantPool::new();
    let math_utf8 = constant_pool.add_utf8("java/lang/Math".to_string());
    let math_class = constant_pool.add_class(math_utf8);

    let random_utf8 = constant_pool.add_utf8("random".to_string());
    let random_desc_utf8 = constant_pool.add_utf8("()D".to_string());
    let random_name_and_type = constant_pool.add_name_and_type(random_utf8, random_desc_utf8);
    let random_method = constant_pool.add_methodref(math_class, random_name_and_type);
    (constant_pool, random_method)
}

#[test]
fn test_math_random_compatibility() {
    let mut vm = JvmCompatibleVm::new();
    let (constant_pool, random_method) = math_random_pool();

    let bytecode = vec![
        JvmInstruction::Invokestatic(random_method),
        JvmInstruction::Return,
    ];

    let result = vm.execute_method(bytecode, constant_pool, 0);
    assert!(result.is_ok());
}

#[test]
fn math_random_returns_a_unit_interval_double() {
    let mut vm = JvmCompatibleVm::new();
    let (constant_pool, random_method) = math_random_pool();

    let bytecode = vec![
        JvmInstruction::Invokestatic(random_method),
        JvmInstruction::Ireturn,
    ];

    let result = vm.execute_method(bytecode, constant_pool, 0).unwrap();
    match result {
        Some(JvmValue::Double(bits)) => {
            let d = f64::from_bits(bits);
            assert!((0.0..1.0).contains(&d));
        }
        other => panic!("expected a double, got {:?}", other),
    }
}

#[test]
fn double_addition_is_ieee_exact() {
    let mut vm = JvmCompatibleVm::new();
    let bytecode = vec![
        JvmInstruction::Dconst1,
        JvmInstruction::Dconst1,
        JvmInstruction::Dadd,
        JvmInstruction::Ireturn,
    ];
    let result = vm.execute_method(bytecode, ConstantPool::new(), 0).unwrap();
    assert_eq!(result, Some(JvmValue::Double(2.0f64.to_bits())));
}

#[test]
fn int_widens_to_double_exactly() {
    let mut vm = JvmCompatibleVm::new();
    let bytecode = vec![
        JvmInstruction::Iconst5,
        JvmInstruction::I2d,
        JvmInstruction::Ireturn,
    ];
    let result = vm.execute_method(bytecode, ConstantPool::new(), 0).unwrap();
    assert_eq!(result, Some(JvmValue::Double(5.0f64.to_bits())));
}

#[test]
fn double_truncates_to_int() {
    let mut vm = JvmCompatibleVm::new();
    let mut pool = ConstantPool::new();
    let idx = pool.add_double(3.9f64.to_bits());
    let bytecode = vec![
        JvmInstruction::Ldc2W(idx),
        JvmInstruction::D2i,
        JvmInstruction::Ireturn,
    ];
    let result = vm.execute_method(bytecode, pool, 0).unwrap();
    assert_eq!(result, Some(JvmValue::Int(3)));
}

#[test]
fn integer_division_by_zero_faults() {
    let mut vm = JvmCompatibleVm::new();
    let bytecode = vec![
        JvmInstruction::Iconst1,
        JvmInstruction::Iconst0,
        JvmInstruction::Idiv,
    ];
    let result = vm.execute_method(bytecode, ConstantPool::new(), 0);
    assert_eq!(result, Err(RuntimeError::DivisionByZero));
}

#[test]
fn double_division_by_zero_faults() {
    let mut vm = JvmCompatibleVm::new();
    let bytecode = vec![
        JvmInstruction::Dconst1,
        JvmInstruction::Dconst0,
        JvmInstruction::Ddiv,
    ];
    let result = vm.execute_method(bytecode, ConstantPool::new(), 0);
    assert_eq!(result, Err(RuntimeError::DivisionByZero));
}

#[test]
fn arithmetic_underflows_the_stack() {
    let mut vm = JvmCompatibleVm::new();
    let bytecode = vec![JvmInstruction::Iadd];
    let result = vm.execute_method(bytecode, ConstantPool::new(), 0);
    assert_eq!(result, Err(RuntimeError::StackUnderflow));
}

#[test]
fn negative_division_truncates_toward_zero() {
    let mut vm = JvmCompatibleVm::new();
    let bytecode = vec![
        JvmInstruction::Bipush(-7),
        JvmInstruction::Iconst2,
        JvmInstruction::Idiv,
        JvmInstruction::Ireturn,
    ];
    let result = vm.execute_method(bytecode, ConstantPool::new(), 0).unwrap();
    assert_eq!(result, Some(JvmValue::Int(-3)));

    let mut vm2 = JvmCompatibleVm::new();
    let bytecode2 = vec![
        JvmInstruction::Bipush(-7),
        JvmInstruction::Iconst2,
        JvmInstruction::Irem,
        JvmInstruction::Ireturn,
    ];
    let result2 = vm2.execute_method(bytecode2, ConstantPool::new(), 0).unwrap();
    assert_eq!(result2, Some(JvmValue::Int(-1)));
}

#[test]
fn an_endless_loop_exhausts_the_step_budget() {
    let mut vm = JvmCompatibleVm::new();
    let bytecode = vec![JvmInstruction::Goto(0)];
    let result = vm.execute_method(bytecode, ConstantPool::new(), 0);
    assert_eq!(result, Err(RuntimeError::InvalidStackState));
}

#[test]
fn locals_grow_on_store_and_read_back() {
    let mut vm = JvmCompatibleVm::new();
    let bytecode = vec![
        JvmInstruction::Bipush(42),
        JvmInstruction::Istore(3),
        JvmInstruction::Iload3,
        JvmInstruction::Ireturn,
    ];
    let result = vm.execute_method(bytecode, ConstantPool::new(), 0).unwrap();
    assert_eq!(result, Some(JvmValue::Int(42)));
}

#[test]
fn string_length_reads_the_heap_string() {
    let mut vm = JvmCompatibleVm::new();
    let mut pool = ConstantPool::new();
    let text_utf8 = pool.add_utf8("abcd".to_string());
    let text_string = pool.add_string(text_utf8);
    let string_utf8 = pool.add_utf8("java/lang/String".to_string());
    let string_class = pool.add_class(string_utf8);
    let length_utf8 = pool.add_utf8("length".to_string());
    let length_desc = pool.add_utf8("()I".to_string());
    let length_nat = pool.add_name_and_type(length_utf8, length_desc);
    let length_method = pool.add_methodref(string_class, length_nat);

    let bytecode = vec![
        JvmInstruction::Ldc(text_string),
        JvmInstruction::Invokevirtual(length_method),
        JvmInstruction::Ireturn,
    ];
    let result = vm.execute_method(bytecode, pool, 0).unwrap();
    assert_eq!(result, Some(JvmValue::Int(4)));
}

#[test]
fn pool_aliasing_reserves_the_slot_after_a_long() {
    let mut pool = ConstantPool::new();
    pool.add_utf8("pad".to_string());
    let li = pool.add_long(77);
    let di = pool.add_double(1.5f64.to_bits());
    let entries = pool.entries();
    assert!(matches!(entries[(li - 1) as usize], ConstantPoolEntry::Long(77)));
    assert!(matches!(entries[li as usize], ConstantPoolEntry::Placeholder));
    assert!(matches!(entries[(di - 1) as usize], ConstantPoolEntry::Double(_)));
    assert!(matches!(entries[di as usize], ConstantPoolEntry::Placeholder));
    assert_eq!(di, li + 2);
}

#[test]
fn descriptor_arity_matches_the_semantic_count() {
    assert_eq!(count_method_parameters("(IJLjava/lang/String;[D)V"), 4);
    assert_eq!(count_method_parameters("()V"), 0);
    assert_eq!(count_method_parameters("(I)V"), 1);
    assert_eq!(count_method_parameters("(Ljava/lang/String;Z)I"), 2);
    assert_eq!(count_method_parameters("([[I[J)V"), 2);
}

#[test]
fn written_instructions_read_back_unchanged() {
    let stream = vec![
        JvmInstruction::Iconst0,
        JvmInstruction::Bipush(-5),
        JvmInstruction::Sipush(-300),
        JvmInstruction::Ldc(24),
        JvmInstruction::Getstatic(31),
        JvmInstruction::Swap,
        JvmInstruction::Invokevirtual(33),
        JvmInstruction::Invokestatic(35),
        JvmInstruction::Dmul,
        JvmInstruction::Dconst1,
        JvmInstruction::Dadd,
        JvmInstruction::D2i,
        JvmInstruction::Ireturn,
        JvmInstruction::Return,
    ];
    let bytes = instructions_to_bytes(&stream);
    let back = parse_bytecode(&bytes).unwrap();
    assert_eq!(back, stream);
}

#[test]
fn unsupported_instructions_write_as_nop() {
    let stream = vec![JvmInstruction::Lconst1, JvmInstruction::Iconst1];
    let bytes = instructions_to_bytes(&stream);
    let back = parse_bytecode(&bytes).unwrap();
    assert_eq!(back, vec![JvmInstruction::Nop, JvmInstruction::Iconst1]);
}

#[test]
fn a_bad_magic_number_is_refused() {
    let mut vm = JvmCompatibleVm::new();
    let result = vm.execute_class_bytes(&[0, 0, 0, 0, 0, 0]);
    assert_eq!(result, Err(RuntimeError::InvalidStackState));
}

#[test]
fn an_unknown_pool_tag_is_named_in_the_fault() {
    let mut data: Vec<u8> = Vec::new();
    data.extend_from_slice(&0xCAFEBABEu32.to_be_bytes());
    data.extend_from_slice(&0u16.to_be_bytes());
    data.extend_from_slice(&52u16.to_be_bytes());
    data.extend_from_slice(&2u16.to_be_bytes());
    data.push(99);
    let result = ClassFileParser::parse(&data);
    match result {
        Err(RuntimeError::UnknownConstantPoolTag { tag, index }) => {
            assert_eq!(tag, 99);
            assert_eq!(index, 1);
        }
        other => panic!("expected an unknown-tag fault, got {:?}", other),
    }
}

#[test]
fn a_compiled_class_file_round_trips_and_rolls_one_die() {
    let mut generator = JavaClassGenerator::new("DiceRoll".to_string());
    let bytes = generator.generate_dice_class("1d6").unwrap();

    let parsed = ClassFileParser::parse(&bytes).unwrap();
    assert!(!parsed.main_method_bytecode.is_empty());

    let mut vm = JvmCompatibleVm::new();
    let result = vm.execute_class_bytes(&bytes);
    assert_eq!(result, Ok(None));

    let output = vm.output();
    assert_eq!(output.len(), 1);
    assert!(!output[0].to_stderr);
    assert!(output[0].newline);
    let roll: i32 = output[0].text.parse().unwrap();
    assert!((1..=6).contains(&roll));
}

#[test]
fn three_dice_print_rolls_and_a_total() {
    let (instructions, pool) =
        dice_rust::writer::generate_vm_instructions("3d2").unwrap();
    let mut vm = JvmCompatibleVm::new();
    let result = vm.execute_method(instructions, pool, 10);
    assert_eq!(result, Ok(None));

    let output = vm.output();
    assert_eq!(output.len(), 5);
    let mut sum = 0;
    for line in output.iter().take(3) {
        assert!(!line.to_stderr);
        assert!(line.newline);
        let roll: i32 = line.text.parse().unwrap();
        assert!((1..=2).contains(&roll));
        sum += roll;
    }
    assert_eq!(output[3].text, "Total: ");
    assert!(output[3].to_stderr);
    assert!(!output[3].newline);
    assert!(output[4].to_stderr);
    assert!(output[4].newline);
    let total: i32 = output[4].text.parse().unwrap();
    assert_eq!(total, sum);
}

#[test]
fn ldc_twice_pushes_equal_numeric_constants() {
    let mut vm = JvmCompatibleVm::new();
    let mut pool = ConstantPool::new();
    let k = pool.add_integer(123);
    let bytecode = vec![
        JvmInstruction::Ldc(k),
        JvmInstruction::Ldc(k),
        JvmInstruction::Isub,
        JvmInstruction::Ireturn,
    ];
    let result = vm.execute_method(bytecode, pool, 0).unwrap();
    assert_eq!(result, Some(JvmValue::Int(0)));
}

#[test]
fn a_handwritten_class_file_parses_every_pool_kind() {
    let mut data: Vec<u8> = Vec::new();
    data.extend_from_slice(&0xCAFEBABEu32.to_be_bytes());
    data.extend_from_slice(&0u16.to_be_bytes());
    data.extend_from_slice(&52u16.to_be_bytes());
    // six occupied slots, so the on-the-wire count is seven
    data.extend_from_slice(&7u16.to_be_bytes());
    // 1: Utf8 "hi"
    data.push(1);
    data.extend_from_slice(&2u16.to_be_bytes());
    data.extend_from_slice(b"hi");
    // 2: Integer 7
    data.push(3);
    data.extend_from_slice(&7i32.to_be_bytes());
    // 3 (and 4): Long 5
    data.push(5);
    data.extend_from_slice(&5i64.to_be_bytes());
    // 5 (and 6): Double 2.5
    data.push(6);
    data.extend_from_slice(&2.5f64.to_bits().to_be_bytes());
    // access flags, this, super, interfaces, fields, methods, attributes
    data.extend_from_slice(&0x0021u16.to_be_bytes());
    data.extend_from_slice(&0u16.to_be_bytes());
    data.extend_from_slice(&0u16.to_be_bytes());
    data.extend_from_slice(&0u16.to_be_bytes());
    data.extend_from_slice(&0u16.to_be_bytes());
    data.extend_from_slice(&0u16.to_be_bytes());
    data.extend_from_slice(&0u16.to_be_bytes());

    let parsed = ClassFileParser::parse(&data).unwrap();
    let entries = parsed.constant_pool.entries();
    assert_eq!(entries.len(), 6);
    assert_eq!(entries[0], ConstantPoolEntry::Utf8("hi".to_string()));
    assert_eq!(entries[1], ConstantPoolEntry::Integer(7));
    assert_eq!(entries[2], ConstantPoolEntry::Long(5));
    assert_eq!(entries[3], ConstantPoolEntry::Placeholder);
    assert_eq!(entries[4], ConstantPoolEntry::Double(2.5f64.to_bits()));
    assert_eq!(entries[5], ConstantPoolEntry::Placeholder);
    assert!(parsed.main_method_bytecode.is_empty());
}

#[test]
fn a_taken_branch_skips_the_fallthrough() {
    let mut vm = JvmCompatibleVm::new();
    let bytecode = vec![
        JvmInstruction::Iconst1,
        JvmInstruction::Ifne(4),
        JvmInstruction::Iconst2,
        JvmInstruction::Ireturn,
        JvmInstruction::Iconst3,
        JvmInstruction::Ireturn,
    ];
    let result = vm.execute_method(bytecode, ConstantPool::new(), 0).unwrap();
    assert_eq!(result, Some(JvmValue::Int(3)));
}

#[test]
fn swap_and_dup_rearrange_the_stack() {
    let mut vm = JvmCompatibleVm::new();
    let bytecode = vec![
        JvmInstruction::Iconst1,
        JvmInstruction::Iconst2,
        JvmInstruction::Swap,
        JvmInstruction::Dup,
        JvmInstruction::Imul,
        JvmInstruction::Isub,
        JvmInstruction::Ireturn,
    ];
    // stack: 1 2 -> 2 1 -> 2 1 1 -> 2 1 -> 1
    let result = vm.execute_method(bytecode, ConstantPool::new(), 0).unwrap();
    assert_eq!(result, Some(JvmValue::Int(1)));
}

#[test]
fn sipush_pushes_its_signed_immediate() {
    let mut vm = JvmCompatibleVm::new();
    let bytecode = vec![JvmInstruction::Sipush(-1234), JvmInstruction::Ireturn];
    let result = vm.execute_method(bytecode, ConstantPool::new(), 0).unwrap();
    assert_eq!(result, Some(JvmValue::Int(-1234)));
}

#[test]
fn wrapping_addition_matches_two_complement() {
    let mut vm = JvmCompatibleVm::new();
    let mut pool = ConstantPool::new();
    let k = pool.add_integer(i32::MAX);
    let bytecode = vec![
        JvmInstruction::Ldc(k),
        JvmInstruction::Iconst1,
        JvmInstruction::Iadd,
        JvmInstruction::Ireturn,
    ];
    let result = vm.execute_method(bytecode, pool, 0).unwrap();
    assert_eq!(result, Some(JvmValue::Int(i32::MIN)));
}
