use avmir::vm::instruction::ProcessInstruction;
use avmir::vm::program::{Instruction, InstructionParam, Opcode, Program, DEFAULT_PROGRAM_MEMORY};
use avmir::vm::stack::{Stack, StackValue, STACK_CAPACITY};

const NAMES: [(&str, Opcode, usize); 42] = [
    ("Noop", Opcode::Noop, 0),
    ("Debug", Opcode::Debug, 0),
    ("Add", Opcode::Add, 2),
    ("Sub", Opcode::Sub, 2),
    ("Mul", Opcode::Mul, 2),
    ("Div", Opcode::Div, 2),
    ("Gt", Opcode::Gt, 2),
    ("Ls", Opcode::Ls, 2),
    ("Gteq", Opcode::Gteq, 2),
    ("Lseq", Opcode::Lseq, 2),
    ("Eq", Opcode::Eq, 2),
    ("Noteq", Opcode::Noteq, 2),
    ("Int", Opcode::Int, 1),
    ("Float", Opcode::Float, 1),
    ("Discard", Opcode::Discard, 1),
    ("Clone", Opcode::Clone, 0),
    ("Push", Opcode::Push, 0),
    ("Swap", Opcode::Swap, 2),
    ("Over", Opcode::Over, 2),
    ("Reg", Opcode::Reg, 1),
    ("SetReg", Opcode::SetReg, 2),
    ("WriteInt64", Opcode::WriteInt64, 2),
    ("ReadInt64", Opcode::ReadInt64, 1),
    ("WriteInt32", Opcode::WriteInt32, 2),
    ("ReadInt32", Opcode::ReadInt32, 1),
    ("WriteInt16", Opcode::WriteInt16, 2),
    ("ReadInt16", Opcode::ReadInt16, 1),
    ("WriteInt8", Opcode::WriteInt8, 2),
    ("ReadInt8", Opcode::ReadInt8, 1),
    ("WriteFloat64", Opcode::WriteFloat64, 2),
    ("ReadFloat64", Opcode::ReadFloat64, 1),
    ("WriteFloat32", Opcode::WriteFloat32, 2),
    ("ReadFloat32", Opcode::ReadFloat32, 1),
    ("Mount", Opcode::Mount, 1),
    ("Unmount", Opcode::Unmount, 0),
    ("Jump", Opcode::Jump, 2),
    ("Fork", Opcode::Fork, 1),
    ("Exit", Opcode::Exit, 0),
    ("ThreadSleep", Opcode::ThreadSleep, 1),
    ("PrepareInvoke", Opcode::PrepareInvoke, 2),
    ("Invoke", Opcode::Invoke, 0),
    ("FastInvoke", Opcode::FastInvoke, 2),
];

#[test]
fn every_operation_has_its_name() {
    for (name, opcode, arity) in NAMES {
        assert_eq!(opcode.name(), name);
        assert_eq!(Opcode::from_name(name), Some(opcode));
        assert_eq!(Opcode::from_bytes(name.as_bytes()), Some(opcode));
        assert_eq!(opcode.operands(), arity, "{}", name);
    }
}

#[test]
fn names_are_case_sensitive_and_whole() {
    for name in ["", "noop", "NOOP", "Noop ", " Noop", "Noo", "Noopp", "WriteInt", "Pid", "Gt\0"] {
        assert_eq!(Opcode::from_name(name), None, "{:?}", name);
    }
}

#[test]
fn memory_operations_have_their_width() {
    assert_eq!(Opcode::WriteInt64.bytes(), 8);
    assert_eq!(Opcode::ReadFloat64.bytes(), 8);
    assert_eq!(Opcode::ReadInt32.bytes(), 4);
    assert_eq!(Opcode::WriteFloat32.bytes(), 4);
    assert_eq!(Opcode::WriteInt16.bytes(), 2);
    assert_eq!(Opcode::ReadInt8.bytes(), 1);
    assert_eq!(Opcode::Add.bytes(), 0);
}

#[test]
fn a_new_program_is_empty() {
    let program = Program::new();
    assert_eq!(program.name, "");
    assert!(program.instructions.is_empty());
    assert!(program.static_data.is_empty());
    assert!(program.static_data_meta.is_empty());
    assert_eq!(program.required_memory, 1024);
    assert_eq!(DEFAULT_PROGRAM_MEMORY, 1024);
    assert_eq!(Program::with_name("demo").name, "demo");
}

#[test]
fn initial_memory_is_static_data_padded_with_zeros() {
    let mut program = Program::new();
    program.static_data = vec![1, 2, 3];
    program.required_memory = 5;
    assert_eq!(program.memory(), vec![1, 2, 3, 0, 0]);
    program.required_memory = 3;
    assert_eq!(program.memory(), vec![1, 2, 3]);
    program.required_memory = 2;
    assert_eq!(program.memory(), vec![1, 2, 3]);
    assert_eq!(Program::new().memory(), vec![0; 1024]);
}

#[test]
fn a_program_is_cloned_field_by_field() {
    let mut program = Program::with_name("p");
    program.instructions.push(Instruction::new(Opcode::Exit));
    program.static_data = vec![9];
    program.static_data_meta = vec![(0, 1)];
    program.required_memory = 77;
    let copy = program.clone();
    assert_eq!(copy.name, "p");
    assert_eq!(copy.instructions, program.instructions);
    assert_eq!(copy.static_data, vec![9]);
    assert_eq!(copy.static_data_meta, vec![(0, 1)]);
    assert_eq!(copy.required_memory, 77);
}

#[test]
fn instructions_carry_their_inline_operands() {
    assert_eq!(Instruction::new(Opcode::Add), Instruction(Opcode::Add, None, None));
    let instruction = Instruction::with_args(Opcode::Sub, Some(InstructionParam::Int(25)), None);
    assert_eq!(instruction, Instruction(Opcode::Sub, Some(InstructionParam::Int(25)), None));
    let running = ProcessInstruction::from(Instruction(Opcode::Push, None, Some(InstructionParam::Float(7))));
    assert_eq!(running.opcode, Opcode::Push);
    assert_eq!(running.operands, (None, Some(StackValue::Float(7))));
    assert_eq!(StackValue::from(InstructionParam::Int(-3)), StackValue::Int(-3));
    assert_eq!(StackValue::from(InstructionParam::Float(3)), StackValue::Float(3));
}

#[test]
fn stack_pushes_and_pops() {
    let mut stack = Stack::new();
    assert_eq!(stack.depth(), 0);
    assert_eq!(stack.pop(), None);
    assert_eq!(stack.pop2(), None);
    assert_eq!(stack.peek(), None);
    stack.push(StackValue::Int(1));
    assert_eq!(stack.pop2(), None);
    assert_eq!(stack.depth(), 1);
    stack.push(StackValue::Int(2));
    stack.push(StackValue::Float(3));
    assert_eq!(stack.peek(), Some(StackValue::Float(3)));
    assert_eq!(stack.to_vec(), vec![StackValue::Int(1), StackValue::Int(2), StackValue::Float(3)]);
    assert_eq!(stack.pop2(), Some((StackValue::Float(3), StackValue::Int(2))));
    assert_eq!(stack.pop(), Some(StackValue::Int(1)));
    assert_eq!(stack.pop(), None);
}

#[test]
fn stack_holds_thirty_two_values() {
    let mut stack = Stack::new();
    for i in 0..STACK_CAPACITY {
        stack.push(StackValue::Int(i as i64));
    }
    assert_eq!(stack.depth(), 32);
    assert_eq!(stack.peek(), Some(StackValue::Int(31)));
    let copy = stack;
    assert_eq!(copy.to_vec().len(), 32);
}
