use std::cell::RefCell;
use std::sync::{Arc, RwLock};

use avmir::vm::ffi::{FFIError, InvokeShape};
use avmir::vm::instruction::ProcessInstruction;
use avmir::vm::machine::MachineProcessSupervisor;
use avmir::vm::memory::MemoryHandler;
use avmir::vm::process::{Effect, Fault, FloatTask, ProcesSupervisor, Process, ReadUse};
use avmir::vm::program::{Instruction, InstructionParam, Opcode, Program};
use avmir::vm::stack::{Stack, StackValue};

/// A supervisor for one process at a time: forks are queued, foreign
/// functions are a fixed table.
struct Bench {
    memory: MachineProcessSupervisor<Vec<u8>>,
    forks: RefCell<Vec<Process>>,
    shown: RefCell<Vec<Vec<StackValue>>>,
    slept: RefCell<Vec<u64>>,
}

impl Bench {
    fn new(units: Vec<Arc<RwLock<Vec<u8>>>>, private: Vec<u8>) -> Bench {
        Bench {
            memory: MachineProcessSupervisor::new(units, private),
            forks: RefCell::new(Vec::new()),
            shown: RefCell::new(Vec::new()),
            slept: RefCell::new(Vec::new()),
        }
    }

    fn alone(size: usize) -> Bench {
        Bench::new(Vec::new(), vec![0; size])
    }
}

fn float(bits: u64) -> f64 {
    f64::from_bits(bits)
}

impl ProcesSupervisor for Bench {
    type Unit = Vec<u8>;

    fn set_memory(&mut self, unit: Option<usize>) -> bool {
        self.memory.set_memory(unit)
    }

    fn get_memory(&mut self) -> MemoryHandler<'_, Vec<u8>> {
        self.memory.get_memory()
    }

    fn fork(&self, process: Process) {
        self.forks.borrow_mut().push(process);
    }

    fn invoke_ffi(&mut self, symbol: &[u8], process: &mut Process) -> Result<Option<StackValue>, FFIError> {
        match symbol {
            b"sum" => {
                let window = process.public_registers();
                let mut total: i64 = 0;
                for value in window.iter() {
                    if let StackValue::Int(x) = value {
                        total += x;
                    }
                }
                Ok(Some(StackValue::Int(total)))
            }
            b"quiet" => Ok(None),
            b"shape" => Ok(Some(StackValue::Int(match process.invoke_shape() {
                InvokeShape::Trap => 2,
                InvokeShape::Memory => 1,
                InvokeShape::Plain => 0,
            }))),
            _ => Err(FFIError::NotFound),
        }
    }

    fn float(&self, task: FloatTask) -> u64 {
        match task {
            FloatTask::Add { first, second } => (float(first) + float(second)).to_bits(),
            FloatTask::Sub { first, second } => (float(first) - float(second)).to_bits(),
            FloatTask::Mul { first, second } => (float(first) * float(second)).to_bits(),
            FloatTask::Div { first, second } => (float(first) / float(second)).to_bits(),
            FloatTask::Gt { first, second } => (float(first) > float(second)) as u64,
            FloatTask::Ls { first, second } => (float(first) < float(second)) as u64,
            FloatTask::Gteq { first, second } => (float(first) >= float(second)) as u64,
            FloatTask::Lseq { first, second } => (float(first) <= float(second)) as u64,
            FloatTask::Eq { first, second } => (float(first) == float(second)) as u64,
            FloatTask::Noteq { first, second } => (float(first) != float(second)) as u64,
            FloatTask::ToInt { bits } => (float(bits) as i64) as u64,
            FloatTask::FromInt { value } => (value as f64).to_bits(),
            FloatTask::Narrow { bits, .. } => (float(bits) as f32).to_bits() as u64,
            FloatTask::Widen { bits } => (f32::from_bits(bits) as f64).to_bits(),
        }
    }

    fn sleep(&self, millis: u64) {
        self.slept.borrow_mut().push(millis);
    }

    fn debug(&self, stack: &Stack) {
        self.shown.borrow_mut().push(stack.to_vec());
    }
}

fn num(x: i64) -> Option<InstructionParam> {
    Some(InstructionParam::Int(x))
}

fn flt(x: f64) -> Option<InstructionParam> {
    Some(InstructionParam::Float(x.to_bits()))
}

fn op(opcode: Opcode) -> Instruction {
    Instruction::new(opcode)
}

fn op1(opcode: Opcode, first: Option<InstructionParam>) -> Instruction {
    Instruction::with_args(opcode, first, None)
}

fn op2(opcode: Opcode, first: Option<InstructionParam>, second: Option<InstructionParam>) -> Instruction {
    Instruction::with_args(opcode, first, second)
}

fn program(instructions: Vec<Instruction>) -> Program {
    let mut program = Program::with_name("test");
    program.instructions = instructions;
    program
}

fn run(instructions: Vec<Instruction>, bench: &mut Bench) -> (Process, Result<bool, Fault>) {
    let mut process = Process::new(program(instructions));
    let result = process.run_until_finish(bench, 10_000);
    (process, result)
}

fn now(opcode: Opcode, first: Option<StackValue>, second: Option<StackValue>) -> ProcessInstruction {
    ProcessInstruction { opcode, operands: (first, second) }
}

#[test]
fn arithmetic_inline_vs_stack() {
    let mut bench = Bench::alone(64);
    let (process, result) = run(
        vec![op1(Opcode::Push, num(3)), op1(Opcode::Push, num(4)), op(Opcode::Add), op(Opcode::Debug)],
        &mut bench,
    );
    assert_eq!(result, Ok(true));
    assert_eq!(process.stack.to_vec(), vec![StackValue::Int(7)]);
    assert_eq!(*bench.shown.borrow(), vec![vec![StackValue::Int(7)]]);
    assert!(process.is_finished());
}

#[test]
fn mixed_inline_operand() {
    let mut bench = Bench::alone(64);
    let (process, result) = run(vec![op1(Opcode::Push, num(10)), op2(Opcode::Sub, num(25), None)], &mut bench);
    assert_eq!(result, Ok(true));
    assert_eq!(process.stack.to_vec(), vec![StackValue::Int(15)]);
}

#[test]
fn popped_operands_are_top_then_second() {
    let mut bench = Bench::alone(64);
    let (process, _) = run(vec![op1(Opcode::Push, num(3)), op1(Opcode::Push, num(4)), op(Opcode::Sub)], &mut bench);
    assert_eq!(process.stack.to_vec(), vec![StackValue::Int(1)]);
    let (process, _) = run(vec![op1(Opcode::Push, num(3)), op2(Opcode::Sub, None, num(10))], &mut bench);
    assert_eq!(process.stack.to_vec(), vec![StackValue::Int(-7)]);
}

#[test]
fn float_path_with_coercion() {
    let mut bench = Bench::alone(64);
    let (process, result) = run(
        vec![op1(Opcode::Push, num(2)), op(Opcode::Float), op1(Opcode::Push, flt(0.5)), op(Opcode::Mul)],
        &mut bench,
    );
    assert_eq!(result, Ok(true));
    assert_eq!(process.stack.to_vec(), vec![StackValue::Float(1.0f64.to_bits())]);
}

#[test]
fn memory_round_trip() {
    let mut bench = Bench::alone(1024);
    let (process, result) = run(
        vec![
            op2(Opcode::WriteInt32, num(100), num(-1)),
            op1(Opcode::ReadInt32, num(100)),
            op1(Opcode::ReadInt8, num(100)),
        ],
        &mut bench,
    );
    assert_eq!(result, Ok(true));
    assert_eq!(process.stack.to_vec(), vec![StackValue::Int(-1), StackValue::Int(-1)]);
}

#[test]
fn conditional_loop_counts_down() {
    let mut bench = Bench::alone(64);
    let (process, result) = run(
        vec![
            op2(Opcode::SetReg, num(0), num(5)),
            op2(Opcode::Jump, num(3), num(1)),
            op(Opcode::Discard),
            op1(Opcode::Reg, num(0)),
            op2(Opcode::Sub, None, num(1)),
            op2(Opcode::SetReg, num(0), None),
            op1(Opcode::Reg, num(0)),
            op2(Opcode::Gt, None, num(0)),
            op(Opcode::Clone),
            op2(Opcode::Jump, num(2), None),
        ],
        &mut bench,
    );
    assert_eq!(result, Ok(true));
    assert_eq!(process.registers[0], StackValue::Int(0));
    assert_eq!(process.stack.to_vec(), vec![StackValue::Int(0)]);
}

#[test]
fn fork_convergence_on_a_shared_unit() {
    let unit = Arc::new(RwLock::new(vec![0u8; 16]));
    let mut bench = Bench::new(vec![unit.clone()], vec![0; 16]);
    let code = vec![
        op1(Opcode::Mount, num(0)),
        op1(Opcode::Fork, num(4)),
        op2(Opcode::WriteInt8, num(1), num(11)),
        op(Opcode::Exit),
        op1(Opcode::Mount, num(0)),
        op2(Opcode::WriteInt8, num(2), num(22)),
        op(Opcode::Exit),
    ];
    let (parent, result) = run(code, &mut bench);
    assert_eq!(result, Ok(true));
    assert_eq!(parent.pc, 7);
    let mut children = bench.forks.replace(Vec::new());
    assert_eq!(children.len(), 1);
    let mut child = children.remove(0);
    assert_eq!(child.pc, 4);
    let mut second = Bench::new(vec![unit.clone()], child.program.memory());
    assert_eq!(child.run_until_finish(&mut second, 100), Ok(true));
    let content = unit.read().unwrap();
    assert_eq!(content[1], 11);
    assert_eq!(content[2], 22);
}

#[test]
fn fork_copies_the_parent() {
    let mut bench = Bench::alone(16);
    let mut process = Process::new(program(vec![op(Opcode::Noop); 9]));
    process.pc = 3;
    process.stack.push(StackValue::Int(5));
    process.stack.push(StackValue::Int(7));
    process.registers[4] = StackValue::Int(9);
    process.invoke_target = b"name".to_vec();
    let result = process.run_instruction(&mut bench, now(Opcode::Fork, None, None));
    assert_eq!(result, Ok(()));
    assert_eq!(process.pc, 3);
    assert_eq!(process.stack.to_vec(), vec![StackValue::Int(5)]);
    let child = bench.forks.borrow_mut().remove(0);
    assert_eq!(child.pc, 7);
    assert_eq!(child.stack.to_vec(), vec![StackValue::Int(5)]);
    assert_eq!(child.registers, process.registers);
    assert_eq!(child.invoke_target, b"name".to_vec());
    assert_eq!(child.program.instructions.len(), 9);
}

#[test]
fn mount_then_unmount_restores_private_memory() {
    let unit = Arc::new(RwLock::new(vec![0u8; 8]));
    let mut bench = Bench::new(vec![unit.clone()], vec![0; 8]);
    let (process, result) = run(
        vec![
            op2(Opcode::WriteInt8, num(0), num(1)),
            op1(Opcode::Mount, num(0)),
            op2(Opcode::WriteInt8, num(0), num(2)),
            op(Opcode::Unmount),
            op1(Opcode::ReadInt8, num(0)),
            op1(Opcode::Mount, num(0)),
            op1(Opcode::ReadInt8, num(0)),
        ],
        &mut bench,
    );
    assert_eq!(result, Ok(true));
    assert_eq!(process.stack.to_vec(), vec![StackValue::Int(1), StackValue::Int(2)]);
    assert_eq!(unit.read().unwrap()[0], 2);
}

#[test]
fn mount_of_a_missing_unit_is_a_fault() {
    let mut bench = Bench::alone(8);
    let (_, result) = run(vec![op1(Opcode::Mount, num(0))], &mut bench);
    assert_eq!(result, Err(Fault::UnitNotFound));
    let (_, result) = run(vec![op1(Opcode::Mount, num(-1))], &mut bench);
    assert_eq!(result, Err(Fault::OperandShape));
}

#[test]
fn execute_names_the_effect() {
    let mut process = Process::new(program(vec![]));
    assert_eq!(
        process.execute(now(Opcode::WriteInt32, Some(StackValue::Int(100)), Some(StackValue::Int(-1)))),
        Ok(Effect::Write { address: 100, size: 4, bits: u64::MAX })
    );
    assert_eq!(
        process.execute(now(Opcode::ReadInt16, Some(StackValue::Int(6)), None)),
        Ok(Effect::Read { address: 6, size: 2, then: ReadUse::Int })
    );
    assert_eq!(
        process.execute(now(Opcode::ReadFloat32, Some(StackValue::Int(6)), None)),
        Ok(Effect::Read { address: 6, size: 4, then: ReadUse::Widen })
    );
    assert_eq!(
        process.execute(now(Opcode::WriteFloat32, Some(StackValue::Int(6)), Some(StackValue::Float(7)))),
        Ok(Effect::Float { task: FloatTask::Narrow { bits: 7, address: 6 } })
    );
    assert_eq!(process.execute(now(Opcode::ThreadSleep, Some(StackValue::Int(250)), None)), Ok(Effect::Sleep { millis: 250 }));
    assert_eq!(process.execute(now(Opcode::ThreadSleep, Some(StackValue::Int(-1)), None)), Ok(Effect::Sleep { millis: u64::MAX }));
    assert_eq!(process.execute(now(Opcode::Unmount, None, None)), Ok(Effect::SetMemory { unit: None }));
    assert_eq!(process.execute(now(Opcode::Mount, Some(StackValue::Int(3)), None)), Ok(Effect::SetMemory { unit: Some(3) }));
    assert_eq!(process.execute(now(Opcode::Invoke, None, None)), Ok(Effect::Invoke));
    assert_eq!(
        process.execute(now(Opcode::FastInvoke, Some(StackValue::Int(2)), Some(StackValue::Int(5)))),
        Ok(Effect::Read { address: 2, size: 5, then: ReadUse::TargetInvoke })
    );
    assert_eq!(process.execute(now(Opcode::Debug, None, None)), Ok(Effect::Debug));
    assert_eq!(process.stack.depth(), 0);
}

#[test]
fn after_read_sign_extends() {
    let mut process = Process::new(program(vec![]));
    assert_eq!(process.after_read(ReadUse::Int, 1, Some(vec![0xFF])), Ok(Effect::Done));
    assert_eq!(process.after_read(ReadUse::Int, 2, Some(vec![0x00, 0x80])), Ok(Effect::Done));
    assert_eq!(process.after_read(ReadUse::Int, 4, Some(vec![0x78, 0x56, 0x34, 0x12])), Ok(Effect::Done));
    assert_eq!(process.after_read(ReadUse::Int, 8, Some(vec![0xFE, 0xFF, 0xFF, 0xFF, 0xFF, 0xFF, 0xFF, 0xFF])), Ok(Effect::Done));
    assert_eq!(
        process.stack.to_vec(),
        vec![StackValue::Int(-1), StackValue::Int(-32768), StackValue::Int(0x12345678), StackValue::Int(-2)]
    );
    assert_eq!(process.after_read(ReadUse::Int, 4, None), Err(Fault::MemoryOutOfRange));
    assert_eq!(process.after_read(ReadUse::Int, 4, Some(vec![1, 2])), Err(Fault::MemoryOutOfRange));
    assert_eq!(process.after_read(ReadUse::Target, 3, Some(b"sum".to_vec())), Ok(Effect::Done));
    assert_eq!(process.invoke_target, b"sum".to_vec());
    assert_eq!(process.after_read(ReadUse::TargetInvoke, 1, Some(b"x".to_vec())), Ok(Effect::Invoke));
    assert_eq!(
        process.after_read(ReadUse::Widen, 4, Some(1.5f32.to_bits().to_le_bytes().to_vec())),
        Ok(Effect::Float { task: FloatTask::Widen { bits: 1.5f32.to_bits() } })
    );
}

#[test]
fn after_float_and_after_invoke() {
    let mut process = Process::new(program(vec![]));
    assert_eq!(process.after_float(FloatTask::Add { first: 1, second: 2 }, 77), Ok(Effect::Done));
    assert_eq!(process.after_float(FloatTask::Gt { first: 1, second: 2 }, 5), Ok(Effect::Done));
    assert_eq!(process.after_float(FloatTask::Eq { first: 1, second: 2 }, 0), Ok(Effect::Done));
    assert_eq!(process.after_float(FloatTask::ToInt { bits: 9 }, u64::MAX - 2), Ok(Effect::Done));
    assert_eq!(
        process.after_float(FloatTask::Narrow { bits: 9, address: 40 }, 0x3FC00000),
        Ok(Effect::Write { address: 40, size: 4, bits: 0x3FC00000 })
    );
    assert_eq!(process.after_invoke(Ok(Some(StackValue::Int(6)))), Ok(Effect::Done));
    assert_eq!(process.after_invoke(Ok(None)), Ok(Effect::Done));
    assert_eq!(process.after_invoke(Err(FFIError::NotFound)), Err(Fault::SymbolNotFound));
    assert_eq!(
        process.stack.to_vec(),
        vec![StackValue::Float(77), StackValue::Int(1), StackValue::Int(0), StackValue::Int(-3), StackValue::Int(6)]
    );
}

#[test]
fn faults_name_their_cause_and_change_nothing() {
    let mut bench = Bench::alone(8);
    let mut process = Process::new(program(vec![]));
    process.stack.push(StackValue::Int(1));
    let cases = vec![
        (now(Opcode::Add, None, None), Fault::StackUnderflow),
        (now(Opcode::Add, Some(StackValue::Float(1)), None), Fault::OperandMismatch),
        (now(Opcode::Div, Some(StackValue::Int(1)), Some(StackValue::Int(0))), Fault::DivisionByZero),
        (now(Opcode::Div, Some(StackValue::Int(i64::MIN)), Some(StackValue::Int(-1))), Fault::DivisionOverflow),
        (now(Opcode::Reg, Some(StackValue::Int(24)), None), Fault::RegisterOutOfRange),
        (now(Opcode::Reg, Some(StackValue::Int(-1)), None), Fault::RegisterOutOfRange),
        (now(Opcode::Reg, Some(StackValue::Float(0)), None), Fault::OperandShape),
        (now(Opcode::SetReg, Some(StackValue::Int(24)), None), Fault::RegisterOutOfRange),
        (now(Opcode::ReadInt64, Some(StackValue::Int(1)), None), Fault::MemoryOutOfRange),
        (now(Opcode::ReadInt8, Some(StackValue::Int(-1)), None), Fault::MemoryOutOfRange),
        (now(Opcode::WriteInt64, Some(StackValue::Int(1)), Some(StackValue::Int(5))), Fault::MemoryOutOfRange),
        (now(Opcode::WriteInt8, Some(StackValue::Float(1)), None), Fault::OperandShape),
        (now(Opcode::WriteFloat64, Some(StackValue::Int(0)), Some(StackValue::Int(1))), Fault::OperandShape),
        (now(Opcode::Jump, Some(StackValue::Int(0)), Some(StackValue::Float(1))), Fault::OperandShape),
        (now(Opcode::Mount, Some(StackValue::Int(0)), None), Fault::UnitNotFound),
        (now(Opcode::Invoke, None, None), Fault::SymbolNotFound),
    ];
    for (instruction, fault) in cases {
        assert_eq!(process.run_instruction(&mut bench, instruction), Err(fault));
        assert_eq!(process.stack.to_vec(), vec![StackValue::Int(1)]);
        assert_eq!(process.pc, 0);
    }
}

#[test]
fn an_operand_popped_before_a_refused_write_stays_popped() {
    let mut bench = Bench::alone(8);
    let mut process = Process::new(program(vec![]));
    process.stack.push(StackValue::Int(1));
    let write = now(Opcode::WriteInt64, Some(StackValue::Int(1)), None);
    assert_eq!(process.run_instruction(&mut bench, write), Err(Fault::MemoryOutOfRange));
    assert_eq!(process.stack.depth(), 0);
}

#[test]
fn stack_overflow_is_a_fault() {
    let mut bench = Bench::alone(8);
    let mut process = Process::new(program(vec![]));
    for i in 0..32 {
        assert_eq!(process.run_instruction(&mut bench, now(Opcode::Push, Some(StackValue::Int(i)), None)), Ok(()));
    }
    assert_eq!(process.stack.depth(), 32);
    assert_eq!(process.run_instruction(&mut bench, now(Opcode::Push, Some(StackValue::Int(0)), None)), Err(Fault::StackOverflow));
    assert_eq!(process.run_instruction(&mut bench, now(Opcode::Clone, None, None)), Err(Fault::StackOverflow));
    assert_eq!(process.run_instruction(&mut bench, now(Opcode::Over, None, None)), Err(Fault::StackOverflow));
    assert_eq!(process.run_instruction(&mut bench, now(Opcode::ReadInt8, Some(StackValue::Int(0)), None)), Err(Fault::StackOverflow));
    assert_eq!(process.stack.depth(), 32);
    assert_eq!(process.run_instruction(&mut bench, now(Opcode::Swap, None, None)), Ok(()));
    assert_eq!(process.run_instruction(&mut bench, now(Opcode::Add, None, None)), Ok(()));
    assert_eq!(process.stack.depth(), 31);
}

#[test]
fn retagging_is_idempotent() {
    let mut bench = Bench::alone(8);
    let (process, _) = run(vec![op1(Opcode::Push, num(-9)), op(Opcode::Int), op(Opcode::Int)], &mut bench);
    assert_eq!(process.stack.to_vec(), vec![StackValue::Int(-9)]);
    let (process, _) = run(vec![op1(Opcode::Push, flt(2.5)), op(Opcode::Float), op(Opcode::Float)], &mut bench);
    assert_eq!(process.stack.to_vec(), vec![StackValue::Float(2.5f64.to_bits())]);
    let (process, _) = run(vec![op1(Opcode::Push, flt(-2.5)), op(Opcode::Int), op(Opcode::Int)], &mut bench);
    assert_eq!(process.stack.to_vec(), vec![StackValue::Int(-2)]);
}

#[test]
fn stack_manipulation() {
    let mut bench = Bench::alone(8);
    let (process, _) = run(vec![op2(Opcode::Push, num(1), num(2)), op(Opcode::Swap)], &mut bench);
    assert_eq!(process.stack.to_vec(), vec![StackValue::Int(2), StackValue::Int(1)]);
    let (process, _) = run(vec![op2(Opcode::Push, num(1), num(2)), op(Opcode::Over)], &mut bench);
    assert_eq!(process.stack.to_vec(), vec![StackValue::Int(1), StackValue::Int(2), StackValue::Int(1)]);
    let (process, _) = run(vec![op2(Opcode::Push, num(1), num(2)), op(Opcode::Clone), op(Opcode::Discard), op(Opcode::Discard)], &mut bench);
    assert_eq!(process.stack.to_vec(), vec![StackValue::Int(1)]);
    let (process, result) = run(vec![op(Opcode::Clone), op(Opcode::Push), op(Opcode::Noop)], &mut bench);
    assert_eq!(result, Ok(true));
    assert_eq!(process.stack.depth(), 0);
    let (_, result) = run(vec![op(Opcode::Discard)], &mut bench);
    assert_eq!(result, Err(Fault::StackUnderflow));
    let (process, result) = run(vec![op1(Opcode::Push, num(1)), op1(Opcode::Discard, num(5))], &mut bench);
    assert_eq!(result, Ok(true));
    assert_eq!(process.stack.to_vec(), vec![StackValue::Int(1)]);
    let (process, _) = run(vec![op2(Opcode::Push, None, num(2))], &mut bench);
    assert_eq!(process.stack.to_vec(), vec![StackValue::Int(2)]);
}

#[test]
fn integer_arithmetic_wraps_and_truncates() {
    let mut bench = Bench::alone(8);
    let (process, _) = run(
        vec![
            op2(Opcode::Add, num(i64::MAX), num(1)),
            op2(Opcode::Sub, num(i64::MIN), num(1)),
            op2(Opcode::Mul, num(i64::MAX), num(2)),
            op2(Opcode::Div, num(-7), num(2)),
            op2(Opcode::Div, num(7), num(-2)),
        ],
        &mut bench,
    );
    assert_eq!(
        process.stack.to_vec(),
        vec![StackValue::Int(i64::MIN), StackValue::Int(i64::MAX), StackValue::Int(-2), StackValue::Int(-3), StackValue::Int(-3)]
    );
}

#[test]
fn comparisons_give_one_or_zero() {
    let mut bench = Bench::alone(8);
    let (process, _) = run(
        vec![
            op2(Opcode::Gt, num(2), num(1)),
            op2(Opcode::Ls, num(2), num(1)),
            op2(Opcode::Gteq, num(2), num(2)),
            op2(Opcode::Lseq, num(3), num(2)),
            op2(Opcode::Eq, num(3), num(3)),
            op2(Opcode::Noteq, num(3), num(3)),
            op2(Opcode::Ls, flt(0.5), flt(1.5)),
            op2(Opcode::Eq, flt(0.0), flt(-0.0)),
        ],
        &mut bench,
    );
    let expected: Vec<StackValue> = [1, 0, 1, 0, 1, 0, 1, 1].iter().map(|x| StackValue::Int(*x)).collect();
    assert_eq!(process.stack.to_vec(), expected);
}

#[test]
fn float_memory_round_trips() {
    let mut bench = Bench::alone(64);
    let (process, result) = run(
        vec![
            op2(Opcode::WriteFloat64, num(8), flt(0.1)),
            op1(Opcode::ReadFloat64, num(8)),
            op2(Opcode::WriteFloat32, num(20), flt(0.1)),
            op1(Opcode::ReadFloat32, num(20)),
        ],
        &mut bench,
    );
    assert_eq!(result, Ok(true));
    assert_eq!(
        process.stack.to_vec(),
        vec![StackValue::Float(0.1f64.to_bits()), StackValue::Float(((0.1f64 as f32) as f64).to_bits())]
    );
}

#[test]
fn integer_write_truncates_to_the_width() {
    let mut bench = Bench::alone(64);
    let (process, _) = run(
        vec![
            op2(Opcode::WriteInt64, num(0), num(-1)),
            op2(Opcode::WriteInt16, num(2), num(0x1_8001)),
            op1(Opcode::ReadInt16, num(2)),
            op1(Opcode::ReadInt64, num(0)),
            op1(Opcode::ReadInt8, num(3)),
        ],
        &mut bench,
    );
    assert_eq!(
        process.stack.to_vec(),
        vec![StackValue::Int(-32767), StackValue::Int(-2147352577), StackValue::Int(-128)]
    );
}

#[test]
fn jump_out_of_range_ends_the_process() {
    let mut bench = Bench::alone(8);
    let (process, result) = run(vec![op2(Opcode::Jump, num(-1), num(1)), op1(Opcode::Push, num(1))], &mut bench);
    assert_eq!(result, Ok(true));
    assert_eq!(process.stack.depth(), 0);
    assert!(process.is_finished());
    let (process, _) = run(vec![op2(Opcode::Jump, num(7), num(0)), op1(Opcode::Push, num(1))], &mut bench);
    assert_eq!(process.stack.to_vec(), vec![StackValue::Int(1)]);
}

#[test]
fn budget_bounds_an_endless_loop() {
    let mut bench = Bench::alone(8);
    let mut process = Process::new(program(vec![op2(Opcode::Jump, num(0), num(1))]));
    assert_eq!(process.run_until_finish(&mut bench, 50), Ok(false));
    assert!(!process.is_finished());
}

#[test]
fn run_next_steps_once() {
    let mut bench = Bench::alone(8);
    let mut process = Process::new(program(vec![op1(Opcode::Push, num(1)), op(Opcode::Add)]));
    assert_eq!(process.get_current_instruction(), Some(&op1(Opcode::Push, num(1))));
    assert_eq!(process.run_next(&mut bench), Ok(true));
    assert_eq!(process.pc, 1);
    assert_eq!(process.run_next(&mut bench), Err(Fault::StackUnderflow));
    assert_eq!(process.pc, 2);
    assert_eq!(process.run_next(&mut bench), Ok(false));
    assert_eq!(process.get_current_instruction(), None);
}

#[test]
fn invoke_pushes_what_the_function_returns() {
    let mut bench = Bench::alone(64);
    bench.memory.get_memory().memory_mut(|m| {
        m[0..3].copy_from_slice(b"sum");
        m[3..8].copy_from_slice(b"quiet");
    });
    let (process, result) = run(
        vec![
            op2(Opcode::SetReg, num(0), num(4)),
            op2(Opcode::SetReg, num(9), num(5)),
            op2(Opcode::SetReg, num(14), num(100)),
            op2(Opcode::PrepareInvoke, num(0), num(3)),
            op(Opcode::Invoke),
            op2(Opcode::FastInvoke, num(3), num(5)),
            op(Opcode::Invoke),
        ],
        &mut bench,
    );
    assert_eq!(result, Ok(true));
    assert_eq!(process.stack.to_vec(), vec![StackValue::Int(9)]);
    assert_eq!(process.invoke_target, b"quiet".to_vec());
}

#[test]
fn flags_select_the_shape_of_a_call() {
    let mut process = Process::new(program(vec![]));
    assert_eq!(process.invoke_shape(), InvokeShape::Plain);
    assert!(!process.get_flag_share_memory());
    process.registers[10] = StackValue::Int(1);
    assert!(process.get_flag_share_memory());
    assert_eq!(process.invoke_shape(), InvokeShape::Memory);
    process.registers[11] = StackValue::Int(-4);
    assert!(process.get_flag_invoke_trap());
    assert_eq!(process.invoke_shape(), InvokeShape::Trap);
    process.registers[10] = StackValue::Int(0);
    assert_eq!(process.invoke_shape(), InvokeShape::Trap);
    assert_eq!(InvokeShape::of(false, true), InvokeShape::Memory);
    assert_eq!(InvokeShape::of(true, true), InvokeShape::Trap);
    assert_eq!(InvokeShape::of(false, false), InvokeShape::Plain);
}

#[test]
fn a_float_flag_is_on_when_its_integer_part_is_not_zero() {
    for x in [0.0f64, -0.0, 0.5, 0.999, 1.0, 1.5, 2.0, -1.0, -7.5, 1e300, f64::INFINITY, f64::NEG_INFINITY, f64::NAN, -f64::NAN, f64::MIN_POSITIVE, f64::MAX, f64::MIN] {
        assert_eq!(StackValue::Float(x.to_bits()).is_set(), (x as usize) != 0, "{}", x);
    }
    assert!(StackValue::Int(-1).is_set());
    assert!(!StackValue::Int(0).is_set());
}

#[test]
fn new_process_starts_clean() {
    let process = Process::new(program(vec![op2(Opcode::Add, num(1), flt(2.0))]));
    assert_eq!(process.pc, 0);
    assert_eq!(process.stack.depth(), 0);
    assert_eq!(process.registers, [StackValue::Int(0); 24]);
    assert!(process.invoke_target.is_empty());
    assert_eq!(
        process.instructions,
        vec![now(Opcode::Add, Some(StackValue::Int(1)), Some(StackValue::Float(2.0f64.to_bits())))]
    );
    assert!(!process.is_finished());
    assert!(Process::new(program(vec![])).is_finished());
    assert_eq!(process.forked(1).pc, 1);
    assert_eq!(process.public_registers(), [StackValue::Int(0); 10]);
}

#[test]
fn a_program_becomes_a_process() {
    let process = Process::from(program(vec![op(Opcode::Noop)]));
    assert_eq!(process.pc, 0);
    assert_eq!(process.instructions.len(), 1);
    assert_eq!(process.program.name, "test");
}

#[test]
fn the_public_window_is_put_back() {
    let mut process = Process::new(program(vec![]));
    process.registers[9] = StackValue::Int(9);
    process.registers[10] = StackValue::Int(10);
    let mut window = process.public_registers();
    assert_eq!(window[9], StackValue::Int(9));
    window[0] = StackValue::Float(1);
    window[9] = StackValue::Int(-9);
    process.set_public_registers(&window);
    assert_eq!(process.registers[0], StackValue::Float(1));
    assert_eq!(process.registers[9], StackValue::Int(-9));
    assert_eq!(process.registers[10], StackValue::Int(10));
    assert_eq!(process.registers[23], StackValue::Int(0));
}

#[test]
fn a_budget_of_nothing_runs_nothing() {
    let mut bench = Bench::alone(8);
    let mut process = Process::new(program(vec![op2(Opcode::Push, num(1), None)]));
    assert_eq!(process.run_until_finish(&mut bench, 0), Ok(false));
    assert_eq!(process.pc, 0);
    assert_eq!(process.run_until_finish(&mut bench, 1), Ok(true));
    assert_eq!(process.stack.to_vec(), vec![StackValue::Int(1)]);
    assert_eq!(process.run_until_finish(&mut bench, 0), Ok(true));
}

#[test]
fn sleep_is_left_to_the_supervisor() {
    let mut bench = Bench::alone(8);
    let (_, result) = run(vec![op1(Opcode::ThreadSleep, num(30)), op(Opcode::ThreadSleep)], &mut bench);
    assert_eq!(result, Err(Fault::StackUnderflow));
    assert_eq!(*bench.slept.borrow(), vec![30]);
}

#[test]
fn an_instruction_pops_the_operands_that_are_not_inline() {
    let mut bench = Bench::alone(8);
    let one = Some(StackValue::Int(1));
    let placements = [(None, None, 2), (one, None, 1), (None, one, 1), (one, one, 0)];
    for (first, second, popped) in placements {
        for have in 0..4usize {
            let mut process = Process::new(program(vec![]));
            for i in 0..have {
                process.stack.push(StackValue::Int(10 + i as i64));
            }
            let result = process.run_instruction(&mut bench, now(Opcode::Add, first, second));
            if have < popped {
                assert_eq!(result, Err(Fault::StackUnderflow));
                assert_eq!(process.stack.depth(), have);
            } else {
                assert_eq!(result, Ok(()));
                assert_eq!(process.stack.depth(), have - popped + 1);
                let kept: Vec<StackValue> = (0..have - popped).map(|i| StackValue::Int(10 + i as i64)).collect();
                assert_eq!(process.stack.to_vec()[..have - popped], kept[..]);
            }
        }
    }
    for (first, popped) in [(None, 1usize), (one, 0)] {
        for have in 0..3usize {
            let mut process = Process::new(program(vec![]));
            for i in 0..have {
                process.stack.push(StackValue::Int(i as i64));
            }
            let result = process.run_instruction(&mut bench, now(Opcode::Reg, first, Some(StackValue::Int(5))));
            if have < popped {
                assert_eq!(result, Err(Fault::StackUnderflow));
            } else {
                assert_eq!(result, Ok(()));
                assert_eq!(process.stack.depth(), have - popped + 1);
            }
        }
    }
    let mut process = Process::new(program(vec![]));
    process.stack.push(StackValue::Int(1));
    assert_eq!(process.run_instruction(&mut bench, now(Opcode::Discard, one, None)), Ok(()));
    assert_eq!(process.stack.depth(), 1);
    assert_eq!(process.run_instruction(&mut bench, now(Opcode::Discard, None, None)), Ok(()));
    assert_eq!(process.stack.depth(), 0);
    assert_eq!(process.run_instruction(&mut bench, now(Opcode::Discard, None, None)), Err(Fault::StackUnderflow));
}
