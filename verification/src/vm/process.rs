//! A process: program counter, stack, registers and the semantics of each
//! operation.
//!
//! Running an instruction has two parts. [`Process::execute`] does what the
//! process can do alone and names, as an [`Effect`], what is left for the
//! supervisor; [`Process::after_read`], [`Process::after_float`] and
//! [`Process::after_invoke`] take what the supervisor hands back.
//! [`Process::run_instruction`] puts the parts together over a
//! [`ProcesSupervisor`].

use vstd::prelude::*;
use super::instruction::ProcessInstruction;
use super::ffi::FFIError;
use vstd::slice::slice_to_vec;
use vstd::std_specs::convert::FromSpecImpl;
use super::memory::decode;
use super::memory::encode;
use super::memory::Memory;
use super::memory::MemoryHandler;
use super::memory::from_bits;
use super::memory::le_bytes;
use super::memory::le_value;
use super::memory::lemma_int_round_trip;
use super::memory::lemma_le_bytes_len;
use super::memory::lemma_le_round_trip;
use super::memory::overwrite;
use super::memory::read_gives;
use super::memory::write_gives;
use super::memory::lemma_le_value_bound;
use super::memory::lemma_span_values;
use super::memory::sign_extend;
use super::memory::to_bits;
use super::memory::twos;
use super::memory::untwos;
use super::memory::wrap_signed;
use super::program::Instruction;
use super::program::Opcode;
use super::program::Program;
use super::stack::Stack;
use super::stack::StackValue;
use super::stack::STACK_CAPACITY;

verus! {

/// Registers through which foreign functions take arguments and give results.
pub const PUBLIC_REGISTERS_COUNT: usize = 10;

/// Registers that hold the flags of a foreign call.
pub const SPECIAL_REGISTERS_COUNT: usize = 4;

/// Registers for the program's own use.
pub const PRIVATE_REGISTERS_COUNT: usize = 10;

/// All registers of a process: public, then special, then private.
pub const PROCESS_REGISTERS_COUNT: usize = 24;

/// Which special register holds the share-memory flag.
pub const REGISTER_FLAG_SHARE_MEMORY: usize = 0;

/// Which special register holds the invoke-trap flag.
pub const REGISTER_FLAG_INVOKE_TRAP: usize = 1;

pub type PublicRegisters = [StackValue; 10];

pub type ProcessRegisters = [StackValue; 24];

/// Why a process cannot go on.
#[derive(Clone, Copy, Debug, PartialEq, Eq, Structural)]
pub enum Fault {
    /// An operand was to be popped from a stack that holds too few values.
    StackUnderflow,
    /// A result does not fit on the stack.
    StackOverflow,
    /// A register index is not below [`PROCESS_REGISTERS_COUNT`].
    RegisterOutOfRange,
    /// The two operands of an arithmetic operation or a comparison differ in tag.
    OperandMismatch,
    /// An operand has the wrong tag, or a unit index is negative.
    OperandShape,
    /// An integer was divided by zero.
    DivisionByZero,
    /// The least integer was divided by minus one.
    DivisionOverflow,
    /// A memory access does not lie within the active memory.
    MemoryOutOfRange,
    /// There is no shared unit of the index to mount.
    UnitNotFound,
    /// No library has the foreign symbol.
    SymbolNotFound,
}

/// What the bytes of a read are for.
#[derive(Clone, Copy, Debug, PartialEq, Eq, Structural)]
pub enum ReadUse {
    /// A signed integer of as many bytes as were read.
    Int,
    /// A float of eight bytes.
    Float,
    /// A float of four bytes, still to be widened.
    Widen,
    /// The name of the next foreign call.
    Target,
    /// The name of a foreign call to make at once.
    TargetInvoke,
}

/// Floating-point work. The process does none itself: it hands the bit
/// patterns to the supervisor and takes a bit pattern back.
#[derive(Clone, Copy, Debug, PartialEq, Eq, Structural)]
pub enum FloatTask {
    /// Sum of two binary64 numbers; the answer is a binary64 number.
    Add { first: u64, second: u64 },
    /// Difference, first minus second.
    Sub { first: u64, second: u64 },
    /// Product.
    Mul { first: u64, second: u64 },
    /// Quotient, first by second.
    Div { first: u64, second: u64 },
    /// Whether first is greater; the answer is zero for no.
    Gt { first: u64, second: u64 },
    /// Whether first is less.
    Ls { first: u64, second: u64 },
    /// Whether first is greater or equal.
    Gteq { first: u64, second: u64 },
    /// Whether first is less or equal.
    Lseq { first: u64, second: u64 },
    /// Whether the two are equal numbers.
    Eq { first: u64, second: u64 },
    /// Whether the two are not equal numbers.
    Noteq { first: u64, second: u64 },
    /// The integer part of a binary64 number; the answer is its two's complement image.
    ToInt { bits: u64 },
    /// The binary64 number nearest to an integer.
    FromInt { value: i64 },
    /// The binary32 number nearest to a binary64 number, to be stored at
    /// `address`; the answer is in the low 32 bits.
    Narrow { bits: u64, address: usize },
    /// The binary64 number equal to a binary32 number.
    Widen { bits: u32 },
}

/// What is left to do for an instruction, by the supervisor.
#[derive(Clone, Copy, Debug, PartialEq, Eq, Structural)]
pub enum Effect {
    /// Nothing: the instruction is complete.
    Done,
    /// Show the stack.
    Debug,
    /// Block the worker.
    Sleep { millis: u64 },
    /// Make shared unit `unit`, or the private buffer, the active memory.
    SetMemory { unit: Option<usize> },
    /// Read `size` bytes of the active memory at `address` and hand them to
    /// [`Process::after_read`].
    Read { address: usize, size: usize, then: ReadUse },
    /// Write the `size` low bytes of `bits` to the active memory at
    /// `address`, the least significant first.
    Write { address: usize, size: usize, bits: u64 },
    /// Compute `task` and hand the answer to [`Process::after_float`].
    Float { task: FloatTask },
    /// Launch [`Process::forked`]`(pc)`.
    Fork { pc: usize },
    /// Call the foreign function named by the invoke target and hand what it
    /// returns to [`Process::after_invoke`].
    Invoke,
}

/// The state of a process as the semantics see it.
pub struct ProcessView {
    pub pc: usize,
    /// The stack, the top last.
    pub stack: Seq<StackValue>,
    pub registers: Seq<StackValue>,
    pub invoke_target: Seq<u8>,
    pub instructions: Seq<ProcessInstruction>,
}

/// How a part of an instruction ends: with an effect or a fault, and the
/// state it leaves.
pub struct Step {
    pub result: Result<Effect, Fault>,
    pub state: ProcessView,
}

impl ProcessView {
    pub open spec fn with_stack(self, stack: Seq<StackValue>) -> ProcessView {
        ProcessView { stack, ..self }
    }

    pub open spec fn with_pc(self, pc: usize) -> ProcessView {
        ProcessView { pc, ..self }
    }

    /// Well-formed states: a stack within capacity and a full register file.
    pub open spec fn wf(self) -> bool {
        &&& self.stack.len() <= STACK_CAPACITY
        &&& self.registers.len() == PROCESS_REGISTERS_COUNT
    }

    /// The step that ends in fault `fault` and changes nothing.
    pub open spec fn fails(self, fault: Fault) -> Step {
        Step { result: Err(fault), state: self }
    }

    /// The step that pushes `values`, the first deepest, and then asks for
    /// `effect`, whose completion pushes `owed` values more. It fails
    /// without room for all of them.
    pub open spec fn yields(self, values: Seq<StackValue>, owed: nat, effect: Effect) -> Step {
        if self.stack.len() + values.len() + owed > STACK_CAPACITY {
            self.fails(Fault::StackOverflow)
        } else {
            Step { result: Ok(effect), state: self.with_stack(self.stack + values) }
        }
    }
}

/// The index that an operand denotes, if it denotes one.
pub open spec fn index_of(value: i64) -> Option<usize> {
    if 0 <= value <= usize::MAX {
        Some(value as usize)
    } else {
        None
    }
}

/// One for true, zero for false.
pub open spec fn truth(holds: bool) -> StackValue {
    if holds {
        StackValue::Int(1)
    } else {
        StackValue::Int(0)
    }
}

impl Opcode {
    /// Arithmetic and comparison: two operands of one tag, one result.
    pub open spec fn is_numeric(self) -> bool {
        match self {
            Opcode::Add | Opcode::Sub | Opcode::Mul | Opcode::Div | Opcode::Gt | Opcode::Ls | Opcode::Gteq | Opcode::Lseq | Opcode::Eq | Opcode::Noteq => true,
            _ => false,
        }
    }
}

/// The operands that an instruction found, and the stack they left.
pub struct Sourced {
    /// The first operand; zero for an operation without operands.
    pub first: StackValue,
    /// The second operand; zero for an operation of fewer than two.
    pub second: StackValue,
    /// The stack without the operands that were popped.
    pub rest: Seq<StackValue>,
}

/// The operands of `instruction` in the order of declaration: a filled slot
/// gives its operand, an empty one is popped, the first operand first.
/// `None` where the stack holds too few values.
pub open spec fn sourced(stack: Seq<StackValue>, instruction: ProcessInstruction) -> Option<Sourced> {
    let n = stack.len() as int;
    let zero = StackValue::Int(0);
    if instruction.opcode.arity() == 0 {
        Some(Sourced { first: zero, second: zero, rest: stack })
    } else if instruction.opcode.arity() == 1 {
        match instruction.operands.0 {
            Some(a) => Some(Sourced { first: a, second: zero, rest: stack }),
            None => if n >= 1 {
                Some(Sourced { first: stack[n - 1], second: zero, rest: stack.subrange(0, n - 1) })
            } else {
                None
            },
        }
    } else {
        match instruction.operands {
            (Some(a), Some(b)) => Some(Sourced { first: a, second: b, rest: stack }),
            (Some(a), None) => if n >= 1 {
                Some(Sourced { first: a, second: stack[n - 1], rest: stack.subrange(0, n - 1) })
            } else {
                None
            },
            (None, Some(b)) => if n >= 1 {
                Some(Sourced { first: stack[n - 1], second: b, rest: stack.subrange(0, n - 1) })
            } else {
                None
            },
            (None, None) => if n >= 2 {
                Some(
                    Sourced {
                        first: stack[n - 1],
                        second: stack[n - 2],
                        rest: stack.subrange(0, n - 2),
                    },
                )
            } else {
                None
            },
        }
    }
}

/// Arithmetic and comparison of two integers. Sums, differences and products
/// wrap around; a quotient is truncated toward zero.
pub open spec fn int_binary(opcode: Opcode, x: i64, y: i64) -> Result<StackValue, Fault> {
    match opcode {
        Opcode::Add => Ok(StackValue::Int(x.wrapping_add(y))),
        Opcode::Sub => Ok(StackValue::Int(x.wrapping_sub(y))),
        Opcode::Mul => Ok(StackValue::Int(x.wrapping_mul(y))),
        Opcode::Div => match x.checked_div(y) {
            Some(quotient) => Ok(StackValue::Int(quotient)),
            None => if y == 0 {
                Err(Fault::DivisionByZero)
            } else {
                Err(Fault::DivisionOverflow)
            },
        },
        Opcode::Gt => Ok(truth(x > y)),
        Opcode::Ls => Ok(truth(x < y)),
        Opcode::Gteq => Ok(truth(x >= y)),
        Opcode::Lseq => Ok(truth(x <= y)),
        Opcode::Eq => Ok(truth(x == y)),
        _ => Ok(truth(x != y)),
    }
}

/// The floating-point work that arithmetic or a comparison of two floats asks for.
pub open spec fn float_binary(opcode: Opcode, first: u64, second: u64) -> FloatTask {
    match opcode {
        Opcode::Add => FloatTask::Add { first, second },
        Opcode::Sub => FloatTask::Sub { first, second },
        Opcode::Mul => FloatTask::Mul { first, second },
        Opcode::Div => FloatTask::Div { first, second },
        Opcode::Gt => FloatTask::Gt { first, second },
        Opcode::Ls => FloatTask::Ls { first, second },
        Opcode::Gteq => FloatTask::Gteq { first, second },
        Opcode::Lseq => FloatTask::Lseq { first, second },
        Opcode::Eq => FloatTask::Eq { first, second },
        _ => FloatTask::Noteq { first, second },
    }
}

/// Arithmetic and comparison, on a state whose operands are already taken.
pub open spec fn numeric(state: ProcessView, opcode: Opcode, a: StackValue, b: StackValue) -> Step {
    match (a, b) {
        (StackValue::Int(x), StackValue::Int(y)) => match int_binary(opcode, x, y) {
            Ok(value) => state.yields(seq![value], 0, Effect::Done),
            Err(fault) => state.fails(fault),
        },
        (StackValue::Float(x), StackValue::Float(y)) => state.yields(
            Seq::empty(),
            1,
            Effect::Float { task: float_binary(opcode, x, y) },
        ),
        _ => state.fails(Fault::OperandMismatch),
    }
}

/// `Int` and `Float`: a value of the tag asked for stays as it is, one of
/// the other tag goes to the floating-point unit.
pub open spec fn retag(state: ProcessView, opcode: Opcode, a: StackValue) -> Step {
    match (opcode, a) {
        (Opcode::Int, StackValue::Float(bits)) => state.yields(
            Seq::empty(),
            1,
            Effect::Float { task: FloatTask::ToInt { bits } },
        ),
        (Opcode::Float, StackValue::Int(value)) => state.yields(
            Seq::empty(),
            1,
            Effect::Float { task: FloatTask::FromInt { value } },
        ),
        _ => state.yields(seq![a], 0, Effect::Done),
    }
}

/// `Discard`, `Clone`, `Push`, `Swap` and `Over`.
pub open spec fn shuffle(
    state: ProcessView,
    instruction: ProcessInstruction,
    a: StackValue,
    b: StackValue,
) -> Step {
    let n = state.stack.len() as int;
    match instruction.opcode {
        Opcode::Discard => state.yields(Seq::empty(), 0, Effect::Done),
        Opcode::Clone => if n == 0 {
            state.yields(Seq::empty(), 0, Effect::Done)
        } else {
            state.yields(seq![state.stack[n - 1]], 0, Effect::Done)
        },
        Opcode::Push => state.yields(
            (match instruction.operands.0 {
                Some(a) => seq![a],
                None => Seq::empty(),
            }) + (match instruction.operands.1 {
                Some(b) => seq![b],
                None => Seq::empty(),
            }),
            0,
            Effect::Done,
        ),
        Opcode::Swap => state.yields(seq![a, b], 0, Effect::Done),
        _ => state.yields(seq![b, a, b], 0, Effect::Done),
    }
}

/// `Reg` and `SetReg`.
pub open spec fn register(state: ProcessView, opcode: Opcode, a: StackValue, b: StackValue) -> Step {
    match a {
        StackValue::Int(index) => if 0 <= index < PROCESS_REGISTERS_COUNT {
            if opcode == Opcode::Reg {
                state.yields(seq![state.registers[index as int]], 0, Effect::Done)
            } else {
                Step {
                    result: Ok(Effect::Done),
                    state: ProcessView {
                        registers: state.registers.update(index as int, b),
                        ..state
                    },
                }
            }
        } else {
            state.fails(Fault::RegisterOutOfRange)
        },
        _ => state.fails(Fault::OperandShape),
    }
}

/// The reads and writes of integers and floats.
pub open spec fn transfer(state: ProcessView, opcode: Opcode, a: StackValue, b: StackValue) -> Step {
    let size = opcode.width() as usize;
    match a {
        StackValue::Int(at) => match opcode {
            Opcode::ReadInt64 | Opcode::ReadInt32 | Opcode::ReadInt16 | Opcode::ReadInt8 | Opcode::ReadFloat64 | Opcode::ReadFloat32 => match index_of(
                at,
            ) {
                Some(address) => state.yields(
                    Seq::empty(),
                    1,
                    Effect::Read {
                        address,
                        size,
                        then: if opcode == Opcode::ReadFloat64 {
                            ReadUse::Float
                        } else if opcode == Opcode::ReadFloat32 {
                            ReadUse::Widen
                        } else {
                            ReadUse::Int
                        },
                    },
                ),
                None => state.fails(Fault::MemoryOutOfRange),
            },
            Opcode::WriteFloat64 | Opcode::WriteFloat32 => match (b, index_of(at)) {
                (StackValue::Int(_), _) => state.fails(Fault::OperandShape),
                (_, None) => state.fails(Fault::MemoryOutOfRange),
                (StackValue::Float(bits), Some(address)) => if opcode == Opcode::WriteFloat64 {
                    state.yields(Seq::empty(), 0, Effect::Write { address, size, bits })
                } else {
                    state.yields(
                        Seq::empty(),
                        0,
                        Effect::Float { task: FloatTask::Narrow { bits, address } },
                    )
                },
            },
            _ => match (b, index_of(at)) {
                (StackValue::Float(_), _) => state.fails(Fault::OperandShape),
                (_, None) => state.fails(Fault::MemoryOutOfRange),
                (StackValue::Int(value), Some(address)) => state.yields(
                    Seq::empty(),
                    0,
                    Effect::Write { address, size, bits: twos(value) },
                ),
            },
        },
        _ => state.fails(Fault::OperandShape),
    }
}

/// `Mount`, `Unmount`, `Jump`, `Fork`, `Exit` and `ThreadSleep`.
pub open spec fn control(state: ProcessView, opcode: Opcode, a: StackValue, b: StackValue) -> Step {
    match opcode {
        Opcode::Unmount => state.yields(Seq::empty(), 0, Effect::SetMemory { unit: None }),
        Opcode::Exit => Step {
            result: Ok(Effect::Done),
            state: state.with_pc(state.instructions.len() as usize),
        },
        Opcode::Jump => match (a, b) {
            (StackValue::Int(target), StackValue::Int(condition)) => if condition != 0 {
                Step { result: Ok(Effect::Done), state: state.with_pc(target as usize) }
            } else {
                state.yields(Seq::empty(), 0, Effect::Done)
            },
            _ => state.fails(Fault::OperandShape),
        },
        _ => match a {
            StackValue::Int(x) => if opcode == Opcode::Mount {
                if x < 0 {
                    state.fails(Fault::OperandShape)
                } else {
                    match index_of(x) {
                        Some(unit) => state.yields(
                            Seq::empty(),
                            0,
                            Effect::SetMemory { unit: Some(unit) },
                        ),
                        None => state.fails(Fault::UnitNotFound),
                    }
                }
            } else if opcode == Opcode::Fork {
                state.yields(Seq::empty(), 0, Effect::Fork { pc: x as usize })
            } else {
                state.yields(Seq::empty(), 0, Effect::Sleep { millis: twos(x) })
            },
            _ => state.fails(Fault::OperandShape),
        },
    }
}

/// `PrepareInvoke`, `Invoke` and `FastInvoke`.
pub open spec fn invocation(state: ProcessView, opcode: Opcode, a: StackValue, b: StackValue) -> Step {
    if opcode == Opcode::Invoke {
        state.yields(Seq::empty(), 0, Effect::Invoke)
    } else {
        match (a, b) {
            (StackValue::Int(at), StackValue::Int(count)) => match (index_of(at), index_of(count)) {
                (Some(address), Some(size)) => state.yields(
                    Seq::empty(),
                    0,
                    Effect::Read {
                        address,
                        size,
                        then: if opcode == Opcode::PrepareInvoke {
                            ReadUse::Target
                        } else {
                            ReadUse::TargetInvoke
                        },
                    },
                ),
                _ => state.fails(Fault::MemoryOutOfRange),
            },
            _ => state.fails(Fault::OperandShape),
        }
    }
}

/// What an operation does once its operands `a` and `b` are taken. An
/// operation of fewer operands makes nothing of the others.
pub open spec fn apply(state: ProcessView, instruction: ProcessInstruction, a: StackValue, b: StackValue) -> Step {
    let opcode = instruction.opcode;
    match opcode {
        Opcode::Noop => state.yields(Seq::empty(), 0, Effect::Done),
        Opcode::Debug => state.yields(Seq::empty(), 0, Effect::Debug),
        Opcode::Add | Opcode::Sub | Opcode::Mul | Opcode::Div | Opcode::Gt | Opcode::Ls | Opcode::Gteq | Opcode::Lseq | Opcode::Eq | Opcode::Noteq => numeric(
            state,
            opcode,
            a,
            b,
        ),
        Opcode::Int | Opcode::Float => retag(state, opcode, a),
        Opcode::Discard | Opcode::Clone | Opcode::Push | Opcode::Swap | Opcode::Over => shuffle(
            state,
            instruction,
            a,
            b,
        ),
        Opcode::Reg | Opcode::SetReg => register(state, opcode, a, b),
        Opcode::Mount | Opcode::Unmount | Opcode::Jump | Opcode::Fork | Opcode::Exit | Opcode::ThreadSleep => control(
            state,
            opcode,
            a,
            b,
        ),
        Opcode::PrepareInvoke | Opcode::Invoke | Opcode::FastInvoke => invocation(
            state,
            opcode,
            a,
            b,
        ),
        _ => transfer(state, opcode, a, b),
    }
}

/// The first part of running `instruction` in state `pre`: the operands are
/// taken, the operation is applied, and an effect may be left for the
/// supervisor. A fault leaves the state as it was.
pub open spec fn execute_spec(pre: ProcessView, instruction: ProcessInstruction) -> Step {
    match sourced(pre.stack, instruction) {
        None => pre.fails(Fault::StackUnderflow),
        Some(found) => {
            let step = apply(pre.with_stack(found.rest), instruction, found.first, found.second);
            if step.result is Err {
                Step { result: step.result, state: pre }
            } else {
                step
            }
        },
    }
}

/// The state with `target` as the name of the next foreign call.
pub open spec fn with_target(state: ProcessView, target: Seq<u8>) -> ProcessView {
    ProcessView { invoke_target: target, ..state }
}

/// The bytes that a read gave, if it gave any.
pub open spec fn read_view(bytes: Option<Vec<u8>>) -> Option<Seq<u8>> {
    match bytes {
        Some(data) => Some(data@),
        None => None,
    }
}

/// What the bytes of a read lead to. `bytes` is `None` where the range did
/// not lie within the active memory.
pub open spec fn after_read_spec(
    state: ProcessView,
    then: ReadUse,
    size: usize,
    bytes: Option<Seq<u8>>,
) -> Step {
    match bytes {
        None => state.fails(Fault::MemoryOutOfRange),
        Some(data) => if data.len() != size {
            state.fails(Fault::MemoryOutOfRange)
        } else {
            match then {
                ReadUse::Int => if 1 <= size <= 8 {
                    state.yields(
                        seq![StackValue::Int(wrap_signed(le_value(data) as int, size as nat) as i64)],
                        0,
                        Effect::Done,
                    )
                } else {
                    state.fails(Fault::OperandShape)
                },
                ReadUse::Float => if size == 8 {
                    state.yields(seq![StackValue::Float(le_value(data) as u64)], 0, Effect::Done)
                } else {
                    state.fails(Fault::OperandShape)
                },
                ReadUse::Widen => if size == 4 {
                    state.yields(
                        Seq::empty(),
                        1,
                        Effect::Float { task: FloatTask::Widen { bits: le_value(data) as u32 } },
                    )
                } else {
                    state.fails(Fault::OperandShape)
                },
                ReadUse::Target => Step {
                    result: Ok(Effect::Done),
                    state: with_target(state, data),
                },
                ReadUse::TargetInvoke => Step {
                    result: Ok(Effect::Invoke),
                    state: with_target(state, data),
                },
            }
        },
    }
}

/// What the answer of the floating-point unit leads to.
pub open spec fn after_float_spec(state: ProcessView, task: FloatTask, answer: u64) -> Step {
    match task {
        FloatTask::Gt { .. } | FloatTask::Ls { .. } | FloatTask::Gteq { .. } | FloatTask::Lseq { .. } | FloatTask::Eq { .. } | FloatTask::Noteq { .. } => state.yields(
            seq![truth(answer != 0)],
            0,
            Effect::Done,
        ),
        FloatTask::ToInt { .. } => state.yields(
            seq![StackValue::Int(untwos(answer))],
            0,
            Effect::Done,
        ),
        FloatTask::Narrow { address, .. } => state.yields(
            Seq::empty(),
            0,
            Effect::Write { address, size: 4, bits: answer },
        ),
        _ => state.yields(seq![StackValue::Float(answer)], 0, Effect::Done),
    }
}

/// What the outcome of a foreign call leads to: a value that the function
/// returned is pushed; a symbol that no library has is a fault.
pub open spec fn after_invoke_spec(
    state: ProcessView,
    outcome: Result<Option<StackValue>, FFIError>,
) -> Step {
    match outcome {
        Ok(Some(value)) => state.yields(seq![value], 0, Effect::Done),
        Ok(None) => state.yields(Seq::empty(), 0, Effect::Done),
        Err(_) => state.fails(Fault::SymbolNotFound),
    }
}

/// How a step whose effect needs no answer, or only a yes or no, can end:
/// with `result`, in state `after`. A supervisor may refuse to mount a unit
/// or to write; of a foreign call, which is given the process itself,
/// nothing is known but the faults it can end in.
pub open spec fn finishes(step: Step, result: Result<(), Fault>, after: ProcessView) -> bool {
    match step.result {
        Err(fault) => result == Err::<(), Fault>(fault) && after == step.state,
        Ok(Effect::SetMemory { .. }) => after == step.state && (result is Ok || result == Err::<
            (),
            Fault,
        >(Fault::UnitNotFound)),
        Ok(Effect::Write { .. }) => after == step.state && (result is Ok || result == Err::<
            (),
            Fault,
        >(Fault::MemoryOutOfRange)),
        Ok(Effect::Invoke) => result is Ok || result == Err::<(), Fault>(Fault::SymbolNotFound)
            || result == Err::<(), Fault>(Fault::StackOverflow),
        Ok(Effect::Read { .. }) | Ok(Effect::Float { .. }) => false,
        Ok(_) => result is Ok && after == step.state,
    }
}

/// How a step can end whose effect may be floating-point work: the answer
/// is some bit pattern.
pub open spec fn settles_float(step: Step, result: Result<(), Fault>, after: ProcessView) -> bool {
    match step.result {
        Ok(Effect::Float { task }) => exists|answer: u64|
            finishes(#[trigger] after_float_spec(step.state, task, answer), result, after),
        _ => finishes(step, result, after),
    }
}

/// How a step can end, whatever the supervisor answers: a read gives some
/// bytes or is refused.
pub open spec fn settles(step: Step, result: Result<(), Fault>, after: ProcessView) -> bool {
    match step.result {
        Ok(Effect::Read { size, then, .. }) => exists|bytes: Option<Seq<u8>>|
            settles_float(#[trigger] after_read_spec(step.state, then, size, bytes), result, after),
        _ => settles_float(step, result, after),
    }
}

/// Whether the instruction at the program counter of `before`, run with
/// the counter advanced, can end with `result` in state `after`.
pub open spec fn steps(before: ProcessView, result: Result<(), Fault>, after: ProcessView) -> bool {
    before.pc < before.instructions.len() && settles(
        execute_spec(
            before.with_pc((before.pc + 1) as usize),
            before.instructions[before.pc as int],
        ),
        result,
        after,
    )
}

/// Whether `count` instructions, run one after the other from `before`
/// without a fault, can end in state `after`.
pub open spec fn reaches(before: ProcessView, count: nat, after: ProcessView) -> bool
    decreases count,
{
    if count == 0 {
        after == before
    } else {
        exists|last: ProcessView|
            reaches(before, (count - 1) as nat, last) && #[trigger] steps(last, Ok(()), after)
    }
}

/// A run of `count` instructions and one more is a run of `count + 1`.
pub proof fn lemma_reaches_one_more(
    before: ProcessView,
    count: nat,
    last: ProcessView,
    after: ProcessView,
)
    requires
        reaches(before, count, last),
        steps(last, Ok(()), after),
    ensures
        reaches(before, count + 1, after),
{
    assert(reaches(before, ((count + 1) - 1) as nat, last));
}

/// What a process needs from outside itself: the active memory, the launch
/// of a fork, foreign calls, and the work it cannot do alone.
///
/// Nothing is assumed of an implementation: what it answers is taken as it comes.
pub trait ProcesSupervisor {
    /// The kind of buffer behind the memory units.
    type Unit: Memory;

    /// Makes shared unit `unit`, or with `None` the private buffer, the
    /// active memory. Returns whether there is such a unit.
    fn set_memory(&mut self, unit: Option<usize>) -> (found: bool);

    /// Access to the active memory.
    fn get_memory(&mut self) -> (handler: MemoryHandler<'_, Self::Unit>);

    /// Launches `process`; nothing comes back.
    fn fork(&self, process: Process);

    /// Calls the foreign function `symbol` in the shape that the flags of
    /// `process` select, see [`Process::invoke_shape`].
    fn invoke_ffi(&mut self, symbol: &[u8], process: &mut Process) -> (outcome: Result<
        Option<StackValue>,
        FFIError,
    >);

    /// Computes `task` in floating point.
    fn float(&self, task: FloatTask) -> (answer: u64);

    /// Blocks the worker for `millis` milliseconds.
    fn sleep(&self, millis: u64);

    /// Shows `stack` to whoever watches the machine.
    fn debug(&self, stack: &Stack);
}

/// Copies `size` bytes at `address` out of `unit`, if the range lies within it.
fn copy_out<M: Memory>(unit: &M, address: usize, size: usize) -> (bytes: Option<Vec<u8>>)
    ensures
        read_gives(unit, address, size, read_view(bytes)),
{
    match unit.read(address, size) {
        Some(found) => Some(slice_to_vec(found)),
        None => None,
    }
}

/// Reads `size` bytes at `address` of the active memory: asks the
/// supervisor for the active memory and copies out of it what a read at
/// that address and of that size gives.
fn fetch<S: ProcesSupervisor>(supervisor: &mut S, address: usize, size: usize) -> (bytes: Option<
    Vec<u8>,
>)
    ensures
        exists|unit: &S::Unit| #[trigger] read_gives(unit, address, size, read_view(bytes)),
{
    let handler = supervisor.get_memory();
    let read = |unit: &S::Unit| -> (bytes: Option<Vec<u8>>)
        ensures
            read_gives(unit, address, size, read_view(bytes)),
        {
            copy_out(unit, address, size)
        };
    handler.memory(read)
}

/// Writes the `size` low bytes of `bits` at `address` of the active
/// memory, the least significant first: asks the supervisor for the active
/// memory and returns what a write of those bytes at that address gives.
fn store<S: ProcesSupervisor>(supervisor: &mut S, address: usize, size: usize, bits: u64) -> (done:
    bool)
    ensures
        write_gives::<S::Unit>(address, le_bytes(bits as nat, size as nat), done),
{
    let bytes = encode(bits, size);
    let mut handler = supervisor.get_memory();
    let write = |unit: &mut S::Unit| -> (done: bool)
        ensures
            write_gives::<S::Unit>(address, bytes@, done),
        {
            unit.write(address, bytes.as_slice())
        };
    handler.memory_mut(write)
}

impl View for Process {
    type V = ProcessView;

    open spec fn view(&self) -> ProcessView {
        ProcessView {
            pc: self.pc,
            stack: self.stack@,
            registers: self.registers@,
            invoke_target: self.invoke_target@,
            instructions: self.instructions@,
        }
    }
}

/// A process: a program and how far it has run.
#[derive(Clone)]
pub struct Process {
    pub program: Program,
    /// The program's instructions in the form they are run.
    pub instructions: Vec<ProcessInstruction>,
    /// Index of the next instruction.
    pub pc: usize,
    pub stack: Stack,
    pub registers: ProcessRegisters,
    /// Name of the next foreign call.
    pub invoke_target: Vec<u8>,
}

/// Takes the operands of `instruction`, see [`sourced`].
fn gather(stack: &mut Stack, instruction: &ProcessInstruction) -> (found: Result<
    (StackValue, StackValue),
    Fault,
>)
    ensures
        match sourced(old(stack)@, *instruction) {
            Some(expected) => found == Ok::<(StackValue, StackValue), Fault>(
                (expected.first, expected.second),
            ) && final(stack)@ == expected.rest,
            None => found == Err::<(StackValue, StackValue), Fault>(Fault::StackUnderflow)
                && final(stack)@ == old(stack)@,
        },
{
    let zero = StackValue::Int(0);
    let arity = instruction.opcode.operands();
    if arity == 0 {
        Ok((zero, zero))
    } else if arity == 1 {
        match instruction.operands.0 {
            Some(a) => Ok((a, zero)),
            None => match stack.pop() {
                Some(a) => Ok((a, zero)),
                None => Err(Fault::StackUnderflow),
            },
        }
    } else {
        match instruction.operands {
            (Some(a), Some(b)) => Ok((a, b)),
            (Some(a), None) => match stack.pop() {
                Some(b) => Ok((a, b)),
                None => Err(Fault::StackUnderflow),
            },
            (None, Some(b)) => match stack.pop() {
                Some(a) => Ok((a, b)),
                None => Err(Fault::StackUnderflow),
            },
            (None, None) => match stack.pop2() {
                Some(pair) => Ok(pair),
                None => Err(Fault::StackUnderflow),
            },
        }
    }
}

/// The index that `value` denotes, see [`index_of`].
fn to_index(value: i64) -> (index: Option<usize>)
    ensures
        index == index_of(value),
{
    if value < 0 {
        None
    } else if value as u64 > usize::MAX as u64 {
        None
    } else {
        Some(value as usize)
    }
}

impl Process {
    /// The state in which every process starts: at the first instruction,
    /// with an empty stack, all registers zero and no invoke target.
    pub open spec fn initial(instructions: Seq<Instruction>) -> ProcessView {
        ProcessView {
            pc: 0,
            stack: Seq::empty(),
            registers: Seq::new(PROCESS_REGISTERS_COUNT as nat, |i: int| StackValue::Int(0)),
            invoke_target: Seq::empty(),
            instructions: instructions.map_values(|i: Instruction| ProcessInstruction::of(i)),
        }
    }

    /// A process that is about to run `program`.
    pub fn new(program: Program) -> (process: Self)
        ensures
            process.program == program,
            process@ == Self::initial(program.instructions@),
    {
        let mut instructions: Vec<ProcessInstruction> = Vec::new();
        let mut i: usize = 0;
        while i < program.instructions.len()
            invariant
                i <= program.instructions@.len(),
                instructions@ == program.instructions@.subrange(0, i as int).map_values(
                    |i: Instruction| ProcessInstruction::of(i),
                ),
            decreases program.instructions@.len() - i,
        {
            instructions.push(ProcessInstruction::from(program.instructions[i]));
            i += 1;
            assert(instructions@ =~= program.instructions@.subrange(0, i as int).map_values(
                |i: Instruction| ProcessInstruction::of(i),
            ));
        }
        assert(program.instructions@.subrange(0, i as int) =~= program.instructions@);
        let registers = zeroed();
        Process {
            program,
            instructions,
            pc: 0,
            stack: Stack::new(),
            registers,
            invoke_target: Vec::new(),
        }
    }

    /// Whether the program counter is past the program's last instruction.
    pub fn is_finished(&self) -> (finished: bool)
        ensures
            finished == (self.pc >= self.program.instructions@.len()),
    {
        self.pc >= self.program.instructions.len()
    }

    /// The share-memory flag: whether foreign functions are given the active memory.
    pub fn get_flag_share_memory(&self) -> (on: bool)
        ensures
            on == self@.registers[PUBLIC_REGISTERS_COUNT + REGISTER_FLAG_SHARE_MEMORY].truthy(),
    {
        self.registers[PUBLIC_REGISTERS_COUNT + REGISTER_FLAG_SHARE_MEMORY].is_set()
    }

    /// The invoke-trap flag: whether foreign functions are given the process itself.
    pub fn get_flag_invoke_trap(&self) -> (on: bool)
        ensures
            on == self@.registers[PUBLIC_REGISTERS_COUNT + REGISTER_FLAG_INVOKE_TRAP].truthy(),
    {
        self.registers[PUBLIC_REGISTERS_COUNT + REGISTER_FLAG_INVOKE_TRAP].is_set()
    }

    /// The program's instruction at the program counter, if there is one.
    pub fn get_current_instruction(&self) -> (current: Option<&Instruction>)
        ensures
            self.pc < self.program.instructions@.len() ==> current == Some(
                &self.program.instructions@[self.pc as int],
            ),
            self.pc >= self.program.instructions@.len() ==> current is None,
    {
        if self.pc < self.program.instructions.len() {
            Some(&self.program.instructions[self.pc])
        } else {
            None
        }
    }

    /// The public registers, the window that foreign functions see.
    pub fn public_registers(&self) -> (window: PublicRegisters)
        ensures
            window@ == self@.registers.subrange(0, PUBLIC_REGISTERS_COUNT as int),
    {
        let mut window: PublicRegisters = [StackValue::Int(0);10];
        let mut i: usize = 0;
        while i < PUBLIC_REGISTERS_COUNT
            invariant
                i <= PUBLIC_REGISTERS_COUNT,
                forall|k: int| 0 <= k < i ==> window@[k] == self.registers@[k],
            decreases PUBLIC_REGISTERS_COUNT - i,
        {
            window[i] = self.registers[i];
            i += 1;
        }
        assert(window@ =~= self@.registers.subrange(0, PUBLIC_REGISTERS_COUNT as int));
        window
    }

    /// Puts `window` in place of the public registers: what a foreign
    /// function left in the window it was given.
    pub fn set_public_registers(&mut self, window: &PublicRegisters)
        ensures
            final(self)@.registers == window@ + old(self)@.registers.subrange(
                PUBLIC_REGISTERS_COUNT as int,
                PROCESS_REGISTERS_COUNT as int,
            ),
            final(self)@ == (ProcessView { registers: final(self)@.registers, ..old(self)@ }),
            final(self).program == old(self).program,
    {
        let mut i: usize = 0;
        while i < PUBLIC_REGISTERS_COUNT
            invariant
                i <= PUBLIC_REGISTERS_COUNT,
                forall|k: int| 0 <= k < i ==> self.registers@[k] == window@[k],
                forall|k: int|
                    i <= k < PROCESS_REGISTERS_COUNT ==> self.registers@[k] == old(
                        self,
                    ).registers@[k],
                self.pc == old(self).pc,
                self.stack == old(self).stack,
                self.invoke_target == old(self).invoke_target,
                self.instructions == old(self).instructions,
                self.program == old(self).program,
            decreases PUBLIC_REGISTERS_COUNT - i,
        {
            self.registers[i] = window[i];
            i += 1;
        }
        assert(self@.registers =~= window@ + old(self)@.registers.subrange(
            PUBLIC_REGISTERS_COUNT as int,
            PROCESS_REGISTERS_COUNT as int,
        ));
    }

    /// Ends a step that pushes nothing now and leaves `effect`, whose
    /// completion pushes `owed` values.
    fn leave(&mut self, owed: usize, effect: Effect) -> (result: Result<Effect, Fault>)
        requires
            owed <= 1,
        ensures
            (Step { result, state: final(self)@ }) == old(self)@.yields(
                Seq::empty(),
                owed as nat,
                effect,
            ),
            final(self).program == old(self).program,
    {
        assert(self@.stack + Seq::<StackValue>::empty() =~= self@.stack);
        if self.stack.depth() + owed > STACK_CAPACITY {
            Err(Fault::StackOverflow)
        } else {
            Ok(effect)
        }
    }

    /// Ends a step that pushes `value` and is then complete.
    fn give(&mut self, value: StackValue) -> (result: Result<Effect, Fault>)
        ensures
            (Step { result, state: final(self)@ }) == old(self)@.yields(seq![value], 0, Effect::Done),
            final(self).program == old(self).program,
    {
        if self.stack.depth() >= STACK_CAPACITY {
            Err(Fault::StackOverflow)
        } else {
            self.stack.push(value);
            assert(self@.stack =~= old(self)@.stack + seq![value]);
            Ok(Effect::Done)
        }
    }

    /// Ends a step that pushes `values`, the first deepest, and is then complete.
    fn give_all(&mut self, values: &[StackValue]) -> (result: Result<Effect, Fault>)
        ensures
            (Step { result, state: final(self)@ }) == old(self)@.yields(values@, 0, Effect::Done),
            final(self).program == old(self).program,
    {
        if values.len() > STACK_CAPACITY - self.stack.depth() {
            return Err(Fault::StackOverflow);
        }
        let mut i: usize = 0;
        while i < values.len()
            invariant
                i <= values@.len(),
                old(self)@.stack.len() + values@.len() <= STACK_CAPACITY,
                self@ == old(self)@.with_stack(old(self)@.stack + values@.subrange(0, i as int)),
                self.program == old(self).program,
            decreases values@.len() - i,
        {
            self.stack.push(values[i]);
            i += 1;
            assert(self@.stack =~= old(self)@.stack + values@.subrange(0, i as int));
        }
        assert(values@.subrange(0, i as int) =~= values@);
        Ok(Effect::Done)
    }

    fn run_numeric(&mut self, opcode: Opcode, a: StackValue, b: StackValue) -> (result: Result<
        Effect,
        Fault,
    >)
        ensures
            (Step { result, state: final(self)@ }) == numeric(old(self)@, opcode, a, b),
            final(self).program == old(self).program,
    {
        match (a, b) {
            (StackValue::Int(x), StackValue::Int(y)) => {
                let value = match opcode {
                    Opcode::Add => StackValue::Int(x.wrapping_add(y)),
                    Opcode::Sub => StackValue::Int(x.wrapping_sub(y)),
                    Opcode::Mul => StackValue::Int(x.wrapping_mul(y)),
                    Opcode::Div => match x.checked_div(y) {
                        Some(quotient) => StackValue::Int(quotient),
                        None => {
                            return Err(
                                if y == 0 {
                                    Fault::DivisionByZero
                                } else {
                                    Fault::DivisionOverflow
                                },
                            );
                        },
                    },
                    Opcode::Gt => flag(x > y),
                    Opcode::Ls => flag(x < y),
                    Opcode::Gteq => flag(x >= y),
                    Opcode::Lseq => flag(x <= y),
                    Opcode::Eq => flag(x == y),
                    _ => flag(x != y),
                };
                self.give(value)
            },
            (StackValue::Float(first), StackValue::Float(second)) => {
                let task = match opcode {
                    Opcode::Add => FloatTask::Add { first, second },
                    Opcode::Sub => FloatTask::Sub { first, second },
                    Opcode::Mul => FloatTask::Mul { first, second },
                    Opcode::Div => FloatTask::Div { first, second },
                    Opcode::Gt => FloatTask::Gt { first, second },
                    Opcode::Ls => FloatTask::Ls { first, second },
                    Opcode::Gteq => FloatTask::Gteq { first, second },
                    Opcode::Lseq => FloatTask::Lseq { first, second },
                    Opcode::Eq => FloatTask::Eq { first, second },
                    _ => FloatTask::Noteq { first, second },
                };
                self.leave(1, Effect::Float { task })
            },
            _ => Err(Fault::OperandMismatch),
        }
    }

    fn run_retag(&mut self, opcode: Opcode, a: StackValue) -> (result: Result<Effect, Fault>)
        ensures
            (Step { result, state: final(self)@ }) == retag(old(self)@, opcode, a),
            final(self).program == old(self).program,
    {
        match (opcode, a) {
            (Opcode::Int, StackValue::Float(bits)) => self.leave(
                1,
                Effect::Float { task: FloatTask::ToInt { bits } },
            ),
            (Opcode::Float, StackValue::Int(value)) => self.leave(
                1,
                Effect::Float { task: FloatTask::FromInt { value } },
            ),
            _ => self.give(a),
        }
    }

    fn run_shuffle(&mut self, instruction: ProcessInstruction, a: StackValue, b: StackValue) -> (result:
        Result<Effect, Fault>)
        ensures
            (Step { result, state: final(self)@ }) == shuffle(old(self)@, instruction, a, b),
            final(self).program == old(self).program,
    {
        match instruction.opcode {
            Opcode::Discard => self.leave(0, Effect::Done),
            Opcode::Clone => match self.stack.peek() {
                Some(top) => self.give(top),
                None => self.leave(0, Effect::Done),
            },
            Opcode::Push => match instruction.operands {
                (Some(first), Some(second)) => {
                    let values = [first, second];
                    assert(values@ =~= seq![first] + seq![second]);
                    self.give_all(values.as_slice())
                },
                (Some(first), None) => {
                    assert(seq![first] + Seq::<StackValue>::empty() =~= seq![first]);
                    self.give(first)
                },
                (None, Some(second)) => {
                    assert(Seq::<StackValue>::empty() + seq![second] =~= seq![second]);
                    self.give(second)
                },
                (None, None) => {
                    assert(Seq::<StackValue>::empty() + Seq::<StackValue>::empty() =~= Seq::<
                        StackValue,
                    >::empty());
                    self.leave(0, Effect::Done)
                },
            },
            Opcode::Swap => {
                let values = [a, b];
                assert(values@ =~= seq![a, b]);
                self.give_all(values.as_slice())
            },
            _ => {
                let values = [b, a, b];
                assert(values@ =~= seq![b, a, b]);
                self.give_all(values.as_slice())
            },
        }
    }

    fn run_register(&mut self, opcode: Opcode, a: StackValue, b: StackValue) -> (result: Result<
        Effect,
        Fault,
    >)
        ensures
            (Step { result, state: final(self)@ }) == register(old(self)@, opcode, a, b),
            final(self).program == old(self).program,
    {
        match a {
            StackValue::Int(index) => {
                if 0 <= index && index < 24 {
                    let slot = index as usize;
                    match opcode {
                        Opcode::Reg => {
                            let value = self.registers[slot];
                            self.give(value)
                        },
                        _ => {
                            self.registers[slot] = b;
                            Ok(Effect::Done)
                        },
                    }
                } else {
                    Err(Fault::RegisterOutOfRange)
                }
            },
            _ => Err(Fault::OperandShape),
        }
    }

    fn run_transfer(&mut self, opcode: Opcode, a: StackValue, b: StackValue) -> (result: Result<
        Effect,
        Fault,
    >)
        ensures
            (Step { result, state: final(self)@ }) == transfer(old(self)@, opcode, a, b),
            final(self).program == old(self).program,
    {
        let size = opcode.bytes();
        match a {
            StackValue::Int(at) => match opcode {
                Opcode::ReadInt64 | Opcode::ReadInt32 | Opcode::ReadInt16 | Opcode::ReadInt8 | Opcode::ReadFloat64 | Opcode::ReadFloat32 => match to_index(
                    at,
                ) {
                    Some(address) => {
                        let then = match opcode {
                            Opcode::ReadFloat64 => ReadUse::Float,
                            Opcode::ReadFloat32 => ReadUse::Widen,
                            _ => ReadUse::Int,
                        };
                        self.leave(1, Effect::Read { address, size, then })
                    },
                    None => Err(Fault::MemoryOutOfRange),
                },
                Opcode::WriteFloat64 | Opcode::WriteFloat32 => match (b, to_index(at)) {
                    (StackValue::Int(_), _) => Err(Fault::OperandShape),
                    (_, None) => Err(Fault::MemoryOutOfRange),
                    (StackValue::Float(bits), Some(address)) => match opcode {
                        Opcode::WriteFloat64 => self.leave(
                            0,
                            Effect::Write { address, size, bits },
                        ),
                        _ => self.leave(
                            0,
                            Effect::Float { task: FloatTask::Narrow { bits, address } },
                        ),
                    },
                },
                _ => match (b, to_index(at)) {
                    (StackValue::Float(_), _) => Err(Fault::OperandShape),
                    (_, None) => Err(Fault::MemoryOutOfRange),
                    (StackValue::Int(value), Some(address)) => self.leave(
                        0,
                        Effect::Write { address, size, bits: to_bits(value) },
                    ),
                },
            },
            _ => Err(Fault::OperandShape),
        }
    }

    fn run_control(&mut self, opcode: Opcode, a: StackValue, b: StackValue) -> (result: Result<
        Effect,
        Fault,
    >)
        ensures
            (Step { result, state: final(self)@ }) == control(old(self)@, opcode, a, b),
            final(self).program == old(self).program,
    {
        match opcode {
            Opcode::Unmount => self.leave(0, Effect::SetMemory { unit: None }),
            Opcode::Exit => {
                self.pc = self.instructions.len();
                Ok(Effect::Done)
            },
            Opcode::Jump => match (a, b) {
                (StackValue::Int(target), StackValue::Int(condition)) => {
                    if condition != 0 {
                        self.pc = #[verifier::truncate]
                        (target as usize);
                        Ok(Effect::Done)
                    } else {
                        self.leave(0, Effect::Done)
                    }
                },
                _ => Err(Fault::OperandShape),
            },
            _ => match a {
                StackValue::Int(x) => match opcode {
                    Opcode::Mount => {
                        if x < 0 {
                            Err(Fault::OperandShape)
                        } else {
                            match to_index(x) {
                                Some(unit) => self.leave(
                                    0,
                                    Effect::SetMemory { unit: Some(unit) },
                                ),
                                None => Err(Fault::UnitNotFound),
                            }
                        }
                    },
                    Opcode::Fork => {
                        let pc = #[verifier::truncate]
                        (x as usize);
                        self.leave(0, Effect::Fork { pc })
                    },
                    _ => self.leave(0, Effect::Sleep { millis: to_bits(x) }),
                },
                _ => Err(Fault::OperandShape),
            },
        }
    }

    fn run_invocation(&mut self, opcode: Opcode, a: StackValue, b: StackValue) -> (result: Result<
        Effect,
        Fault,
    >)
        ensures
            (Step { result, state: final(self)@ }) == invocation(old(self)@, opcode, a, b),
            final(self).program == old(self).program,
    {
        match opcode {
            Opcode::Invoke => self.leave(0, Effect::Invoke),
            _ => match (a, b) {
                (StackValue::Int(at), StackValue::Int(count)) => match (
                    to_index(at),
                    to_index(count),
                ) {
                    (Some(address), Some(size)) => {
                        let then = match opcode {
                            Opcode::PrepareInvoke => ReadUse::Target,
                            _ => ReadUse::TargetInvoke,
                        };
                        self.leave(0, Effect::Read { address, size, then })
                    },
                    _ => Err(Fault::MemoryOutOfRange),
                },
                _ => Err(Fault::OperandShape),
            },
        }
    }

    /// The first part of running `instruction`: takes its operands, applies
    /// the operation and returns what is left for the supervisor to do.
    /// A fault leaves the process as it was.
    pub fn execute(&mut self, instruction: ProcessInstruction) -> (result: Result<Effect, Fault>)
        ensures
            (Step { result, state: final(self)@ }) == execute_spec(old(self)@, instruction),
            final(self).program == old(self).program,
            final(self)@.stack.len() <= STACK_CAPACITY,
    {
        let saved = self.stack;
        let (a, b) = match gather(&mut self.stack, &instruction) {
            Ok(pair) => pair,
            Err(fault) => {
                self.stack.bounded();
                return Err(fault);
            },
        };
        let opcode = instruction.opcode;
        let result = match opcode {
            Opcode::Noop => self.leave(0, Effect::Done),
            Opcode::Debug => self.leave(0, Effect::Debug),
            Opcode::Add | Opcode::Sub | Opcode::Mul | Opcode::Div | Opcode::Gt | Opcode::Ls | Opcode::Gteq | Opcode::Lseq | Opcode::Eq | Opcode::Noteq => self.run_numeric(
                opcode,
                a,
                b,
            ),
            Opcode::Int | Opcode::Float => self.run_retag(opcode, a),
            Opcode::Discard | Opcode::Clone | Opcode::Push | Opcode::Swap | Opcode::Over => self.run_shuffle(
                instruction,
                a,
                b,
            ),
            Opcode::Reg | Opcode::SetReg => self.run_register(opcode, a, b),
            Opcode::Mount | Opcode::Unmount | Opcode::Jump | Opcode::Fork | Opcode::Exit | Opcode::ThreadSleep => self.run_control(
                opcode,
                a,
                b,
            ),
            Opcode::PrepareInvoke | Opcode::Invoke | Opcode::FastInvoke => self.run_invocation(
                opcode,
                a,
                b,
            ),
            _ => self.run_transfer(opcode, a, b),
        };
        if result.is_err() {
            self.stack = saved;
        }
        self.stack.bounded();
        result
    }

    /// Takes the `bytes` that the supervisor read for [`Effect::Read`]
    /// with `then` and `size`; `None` where the supervisor refused the range.
    /// A fault leaves the process as it was.
    pub fn after_read(&mut self, then: ReadUse, size: usize, bytes: Option<Vec<u8>>) -> (result: Result<
        Effect,
        Fault,
    >)
        ensures
            (Step { result, state: final(self)@ }) == after_read_spec(
                old(self)@,
                then,
                size,
                read_view(bytes),
            ),
            final(self).program == old(self).program,
            final(self)@.stack.len() <= STACK_CAPACITY,
    {
        self.stack.bounded();
        let data = match bytes {
            Some(data) => data,
            None => {
                return Err(Fault::MemoryOutOfRange);
            },
        };
        if data.len() != size {
            return Err(Fault::MemoryOutOfRange);
        }
        match then {
            ReadUse::Int => {
                if 1 <= size && size <= 8 {
                    let raw = decode(data.as_slice());
                    proof {
                        lemma_le_value_bound(data@);
                    }
                    let value = sign_extend(raw, size);
                    self.give(StackValue::Int(value))
                } else {
                    Err(Fault::OperandShape)
                }
            },
            ReadUse::Float => {
                if size == 8 {
                    self.give(StackValue::Float(decode(data.as_slice())))
                } else {
                    Err(Fault::OperandShape)
                }
            },
            ReadUse::Widen => {
                if size == 4 {
                    let raw = decode(data.as_slice());
                    proof {
                        lemma_le_value_bound(data@);
                        lemma_span_values();
                    }
                    self.leave(1, Effect::Float { task: FloatTask::Widen { bits: raw as u32 } })
                } else {
                    Err(Fault::OperandShape)
                }
            },
            ReadUse::Target => {
                self.invoke_target = data;
                Ok(Effect::Done)
            },
            ReadUse::TargetInvoke => {
                self.invoke_target = data;
                Ok(Effect::Invoke)
            },
        }
    }

    /// Takes the `answer` of the floating-point unit to `task`.
    /// A fault leaves the process as it was.
    pub fn after_float(&mut self, task: FloatTask, answer: u64) -> (result: Result<Effect, Fault>)
        ensures
            (Step { result, state: final(self)@ }) == after_float_spec(old(self)@, task, answer),
            final(self).program == old(self).program,
            final(self)@.stack.len() <= STACK_CAPACITY,
    {
        self.stack.bounded();
        match task {
            FloatTask::Gt { .. } | FloatTask::Ls { .. } | FloatTask::Gteq { .. } | FloatTask::Lseq { .. } | FloatTask::Eq { .. } | FloatTask::Noteq { .. } => self.give(
                flag(answer != 0),
            ),
            FloatTask::ToInt { .. } => self.give(StackValue::Int(from_bits(answer))),
            FloatTask::Narrow { address, .. } => self.leave(
                0,
                Effect::Write { address, size: 4, bits: answer },
            ),
            _ => self.give(StackValue::Float(answer)),
        }
    }

    /// Takes the outcome of the foreign call made for [`Effect::Invoke`].
    /// A fault leaves the process as it was.
    pub fn after_invoke(&mut self, outcome: Result<Option<StackValue>, FFIError>) -> (result: Result<
        Effect,
        Fault,
    >)
        ensures
            (Step { result, state: final(self)@ }) == after_invoke_spec(old(self)@, outcome),
            final(self).program == old(self).program,
            final(self)@.stack.len() <= STACK_CAPACITY,
    {
        self.stack.bounded();
        match outcome {
            Ok(Some(value)) => self.give(value),
            Ok(None) => self.leave(0, Effect::Done),
            Err(_) => Err(Fault::SymbolNotFound),
        }
    }

    /// A copy of the process that continues at `pc`: what `Fork` launches.
    pub fn forked(&self, pc: usize) -> (child: Process)
        ensures
            child@ == self@.with_pc(pc),
            child.program.instructions@ == self.program.instructions@,
            child.program.static_data@ == self.program.static_data@,
            child.program.static_data_meta@ == self.program.static_data_meta@,
            child.program.required_memory == self.program.required_memory,
            child.program.name@ == self.program.name@,
    {
        Process {
            program: self.program.clone(),
            instructions: self.instructions.clone(),
            pc,
            stack: self.stack,
            registers: self.registers,
            invoke_target: self.invoke_target.clone(),
        }
    }

    /// Carries out an effect that needs no answer, or a yes or no.
    fn finish<S: ProcesSupervisor>(&mut self, supervisor: &mut S, last: Result<Effect, Fault>) -> (result:
        Result<(), Fault>)
        requires
            !(last matches Ok(Effect::Read { .. })),
            !(last matches Ok(Effect::Float { .. })),
        ensures
            finishes(Step { result: last, state: old(self)@ }, result, final(self)@),
            final(self)@.stack.len() <= STACK_CAPACITY,
    {
        self.stack.bounded();
        match last {
            Err(fault) => Err(fault),
            Ok(Effect::Debug) => {
                supervisor.debug(&self.stack);
                Ok(())
            },
            Ok(Effect::Sleep { millis }) => {
                supervisor.sleep(millis);
                Ok(())
            },
            Ok(Effect::SetMemory { unit }) => {
                if supervisor.set_memory(unit) {
                    Ok(())
                } else {
                    Err(Fault::UnitNotFound)
                }
            },
            Ok(Effect::Write { address, size, bits }) => {
                if store(supervisor, address, size, bits) {
                    Ok(())
                } else {
                    Err(Fault::MemoryOutOfRange)
                }
            },
            Ok(Effect::Fork { pc }) => {
                supervisor.fork(self.forked(pc));
                Ok(())
            },
            Ok(Effect::Invoke) => {
                let symbol = self.invoke_target.clone();
                let outcome = supervisor.invoke_ffi(symbol.as_slice(), self);
                match self.after_invoke(outcome) {
                    Ok(_) => Ok(()),
                    Err(fault) => Err(fault),
                }
            },
            Ok(_) => Ok(()),
        }
    }

    /// Has floating-point work done, if that is what is left, and carries
    /// out what follows.
    fn settle<S: ProcesSupervisor>(&mut self, supervisor: &mut S, next: Result<Effect, Fault>) -> (result:
        Result<(), Fault>)
        requires
            !(next matches Ok(Effect::Read { .. })),
        ensures
            settles_float(Step { result: next, state: old(self)@ }, result, final(self)@),
            final(self)@.stack.len() <= STACK_CAPACITY,
    {
        match next {
            Ok(Effect::Float { task }) => {
                let answer = supervisor.float(task);
                let ghost step = after_float_spec(self@, task, answer);
                let last = self.after_float(task, answer);
                let result = self.finish(supervisor, last);
                assert(finishes(step, result, self@));
                result
            },
            other => self.finish(supervisor, other),
        }
    }

    /// Runs `instruction`: [`Process::execute`], then what the supervisor has
    /// to do for it.
    ///
    /// An instruction that needs no supervisor ends exactly as
    /// [`execute_spec`] says; of the others [`settles`] says what holds
    /// whatever the supervisor answers. A fault that the supervisor's
    /// answer brings leaves the operands taken.
    pub fn run_instruction<S: ProcesSupervisor>(
        &mut self,
        supervisor: &mut S,
        instruction: ProcessInstruction,
    ) -> (result: Result<(), Fault>)
        ensures
            settles(execute_spec(old(self)@, instruction), result, final(self)@),
            final(self)@.stack.len() <= STACK_CAPACITY,
    {
        match self.execute(instruction) {
            Ok(Effect::Read { address, size, then }) => {
                let bytes = fetch(supervisor, address, size);
                let ghost step = after_read_spec(self@, then, size, read_view(bytes));
                let next = self.after_read(then, size, bytes);
                let result = self.settle(supervisor, next);
                assert(settles_float(step, result, self@));
                result
            },
            other => self.settle(supervisor, other),
        }
    }

    /// Runs the instruction at the program counter, if there is one, and
    /// returns whether there was. The counter is advanced before the
    /// instruction runs, and stays advanced when it faults.
    pub fn run_next<S: ProcesSupervisor>(&mut self, supervisor: &mut S) -> (result: Result<
        bool,
        Fault,
    >)
        ensures
            old(self).pc >= old(self).instructions@.len() ==> result == Ok::<bool, Fault>(false)
                && final(self)@ == old(self)@,
            old(self).pc < old(self).instructions@.len() ==> result != Ok::<bool, Fault>(false)
                && steps(
                old(self)@,
                match result {
                    Ok(_) => Ok(()),
                    Err(fault) => Err(fault),
                },
                final(self)@,
            ),
            final(self)@.stack.len() <= STACK_CAPACITY,
    {
        if self.pc < self.instructions.len() {
            let instruction = self.instructions[self.pc];
            self.pc += 1;
            match self.run_instruction(supervisor, instruction) {
                Ok(_) => Ok(true),
                Err(fault) => Err(fault),
            }
        } else {
            self.stack.bounded();
            Ok(false)
        }
    }

    /// Runs instructions until none is left, a fault occurs, or `budget`
    /// of them have run. Returns whether none is left.
    pub fn run_until_finish<S: ProcesSupervisor>(&mut self, supervisor: &mut S, budget: u64) -> (result:
        Result<bool, Fault>)
        ensures
            match result {
                Ok(finished) => finished == (final(self).pc >= final(self).instructions@.len())
                    && exists|count: nat|
                    count <= budget && (#[trigger] reaches(old(self)@, count, final(self)@)) && (
                    !finished ==> count == budget),
                Err(fault) => exists|count: nat, last: ProcessView|
                    count < budget && (#[trigger] reaches(old(self)@, count, last)) && steps(
                        last,
                        Err(fault),
                        final(self)@,
                    ),
            },
            final(self)@.stack.len() <= STACK_CAPACITY,
    {
        let mut left = budget;
        let ghost mut count: nat = 0;
        self.stack.bounded();
        while left > 0
            invariant
                self@.stack.len() <= STACK_CAPACITY,
                count + left == budget,
                reaches(old(self)@, count, self@),
            decreases left,
        {
            let ghost last = self@;
            match self.run_next(supervisor) {
                Ok(true) => {
                    proof {
                        assert(steps(last, Ok(()), self@));
                        count = count + 1;
                        lemma_reaches_one_more(old(self)@, (count - 1) as nat, last, self@);
                    }
                },
                Ok(false) => {
                    return Ok(true);
                },
                Err(fault) => {
                    return Err(fault);
                },
            }
            left -= 1;
        }
        Ok(self.pc >= self.instructions.len())
    }
}

impl From<Program> for Process {
    /// A process that is about to run `program`, see [`Process::new`].
    fn from(program: Program) -> (process: Self)
        ensures
            process.program == program,
            process@ == Process::initial(program.instructions@),
    {
        Process::new(program)
    }
}

impl FromSpecImpl<Program> for Process {
    open spec fn obeys_from_spec() -> bool {
        false
    }

    open spec fn from_spec(program: Program) -> Self {
        arbitrary()
    }
}

/// A register file of zeros.
fn zeroed() -> (registers: ProcessRegisters)
    ensures
        registers@ == Seq::new(PROCESS_REGISTERS_COUNT as nat, |i: int| StackValue::Int(0)),
{
    let zero = StackValue::Int(0);
    let registers = [
        zero, zero, zero, zero, zero, zero,
        zero, zero, zero, zero, zero, zero,
        zero, zero, zero, zero, zero, zero,
        zero, zero, zero, zero, zero, zero,
    ];
    assert(registers@ =~= Seq::new(PROCESS_REGISTERS_COUNT as nat, |i: int| StackValue::Int(0)));
    registers
}

/// One for true, zero for false, see [`truth`].
fn flag(holds: bool) -> (value: StackValue)
    ensures
        value == truth(holds),
{
    if holds {
        StackValue::Int(1)
    } else {
        StackValue::Int(0)
    }
}

impl ProcessInstruction {
    /// How many operands the instruction pops: those of the operation that
    /// are not written inline.
    pub open spec fn popped(self) -> nat {
        if self.opcode.arity() == 0 {
            0
        } else if self.opcode.arity() == 1 {
            if self.operands.0 is Some {
                0
            } else {
                1
            }
        } else {
            (2 - self.inline_count()) as nat
        }
    }

    /// How many values the instruction puts on the stack. A foreign call
    /// puts none itself; what the foreign function returns comes on top.
    pub open spec fn results(self) -> nat {
        match self.opcode {
            Opcode::Push => self.inline_count(),
            Opcode::Swap => 2,
            Opcode::Over => 3,
            Opcode::Int | Opcode::Float | Opcode::Clone | Opcode::Reg | Opcode::ReadInt64 | Opcode::ReadInt32 | Opcode::ReadInt16 | Opcode::ReadInt8 | Opcode::ReadFloat64 | Opcode::ReadFloat32 => 1,
            _ => if self.opcode.is_numeric() {
                1
            } else {
                0
            },
        }
    }
}

impl Effect {
    /// How many values the completion of the effect pushes.
    pub open spec fn owed(self) -> nat {
        match self {
            Effect::Read { then: ReadUse::Int, .. } | Effect::Read { then: ReadUse::Float, .. } | Effect::Read { then: ReadUse::Widen, .. } => 1,
            Effect::Float { task: FloatTask::Narrow { .. } } => 0,
            Effect::Float { .. } => 1,
            _ => 0,
        }
    }
}

/// Operand sourcing: an instruction pops exactly the operands that are not
/// written inline, faults on a stack that holds fewer, and otherwise leaves
/// the stack below them as it was and puts on it, at once or when its
/// effect completes, as many values as the operation declares.
///
/// `Clone` on an empty stack is left out, which does nothing.
#[verifier::rlimit(40)]
pub proof fn lemma_operand_sourcing(pre: ProcessView, instruction: ProcessInstruction)
    requires
        pre.wf(),
        instruction.opcode == Opcode::Clone ==> pre.stack.len() > 0,
    ensures
        pre.stack.len() < instruction.popped() ==> execute_spec(pre, instruction) == pre.fails(
            Fault::StackUnderflow,
        ),
        execute_spec(pre, instruction).result matches Ok(effect) ==> {
            let post = execute_spec(pre, instruction).state;
            let kept = pre.stack.len() - instruction.popped();
            &&& kept >= 0
            &&& post.stack.len() + effect.owed() == kept + instruction.results()
            &&& post.stack.subrange(0, kept) == pre.stack.subrange(0, kept)
        },
{
    match sourced(pre.stack, instruction) {
        Some(found) => {
            let state = pre.with_stack(found.rest);
            let step = apply(state, instruction, found.first, found.second);
            let kept = pre.stack.len() - instruction.popped();
            assert(found.rest =~= pre.stack.subrange(0, kept));
            if step.result is Ok {
                lemma_apply_extends(state, instruction, found.first, found.second);
                assert(step.state.stack.subrange(0, kept) =~= pre.stack.subrange(0, kept));
            }
        },
        None => {},
    }
}

/// Once the operands are taken, an operation only adds to the stack, as many values as it declares less those its
/// effect owes.
#[verifier::rlimit(40)]
proof fn lemma_apply_extends(
    state: ProcessView,
    instruction: ProcessInstruction,
    a: StackValue,
    b: StackValue,
)
    requires
        instruction.opcode == Opcode::Clone ==> state.stack.len() > 0,
        apply(state, instruction, a, b).result is Ok,
    ensures
        ({
            let step = apply(state, instruction, a, b);
            &&& step.state.stack.len() + step.result->Ok_0.owed() == state.stack.len()
                + instruction.results()
            &&& step.state.stack.subrange(0, state.stack.len() as int) == state.stack
        }),
{
    let step = apply(state, instruction, a, b);
    assert(step.state.stack.subrange(0, state.stack.len() as int) =~= state.stack);
}

/// The completion of an effect pushes what the effect owes: after a read
/// or a floating-point answer the stack holds the values it held, and on
/// top, at once or when the next effect completes, the value owed.
pub proof fn lemma_completion_pushes(
    state: ProcessView,
    then: ReadUse,
    size: usize,
    address: usize,
    bytes: Option<Seq<u8>>,
    task: FloatTask,
    answer: u64,
)
    ensures
        after_read_spec(state, then, size, bytes).result matches Ok(next) ==> {
            let post = after_read_spec(state, then, size, bytes).state;
            &&& post.stack.len() + next.owed() == state.stack.len() + (Effect::Read {
                address,
                size,
                then,
            }).owed()
            &&& post.stack.subrange(0, state.stack.len() as int) == state.stack
        },
        after_float_spec(state, task, answer).result matches Ok(next) ==> {
            let post = after_float_spec(state, task, answer).state;
            &&& post.stack.len() + next.owed() == state.stack.len() + (Effect::Float {
                task,
            }).owed()
            &&& post.stack.subrange(0, state.stack.len() as int) == state.stack
        },
{
    let read = after_read_spec(state, then, size, bytes);
    if read.result is Ok {
        assert(read.state.stack.subrange(0, state.stack.len() as int) =~= state.stack);
    }
    let float = after_float_spec(state, task, answer);
    if float.result is Ok {
        assert(float.state.stack.subrange(0, state.stack.len() as int) =~= state.stack);
    }
}

/// The stack invariant: every part of an instruction takes a well-formed
/// state to a well-formed state, so the depth stays within the capacity.
pub proof fn lemma_depth_invariant(
    state: ProcessView,
    instruction: ProcessInstruction,
    then: ReadUse,
    size: usize,
    bytes: Option<Seq<u8>>,
    task: FloatTask,
    answer: u64,
    outcome: Result<Option<StackValue>, FFIError>,
)
    requires
        state.wf(),
    ensures
        execute_spec(state, instruction).state.wf(),
        after_read_spec(state, then, size, bytes).state.wf(),
        after_float_spec(state, task, answer).state.wf(),
        after_invoke_spec(state, outcome).state.wf(),
{
}

/// Retagging is idempotent: `Int` leaves an integer on top of the stack
/// as it is, and `Float` a float, with nothing left to do. So whatever a
/// first `Int` or `Float` produced, a second one keeps.
pub proof fn lemma_retag_idempotent(pre: ProcessView, opcode: Opcode)
    requires
        pre.wf(),
        pre.stack.len() > 0,
        opcode == Opcode::Int && pre.stack.last() is Int || opcode == Opcode::Float
            && pre.stack.last() is Float,
    ensures
        execute_spec(pre, ProcessInstruction { opcode, operands: (None, None) }) == (Step {
            result: Ok(Effect::Done),
            state: pre,
        }),
{
    let instruction = ProcessInstruction { opcode, operands: (None, None) };
    let found = sourced(pre.stack, instruction)->0;
    assert(found.rest + seq![found.first] =~= pre.stack);
}

/// A write of an integer followed by a read of the same width at the same
/// address pushes the integer's sign extension from that width.
///
/// `write` and `read` are a pair such as `WriteInt32` and `ReadInt32`, with
/// the address inline; `memory` is the content of the active memory, like
/// that of a vector of bytes, within which the access lies.
pub proof fn lemma_write_then_read(
    pre: ProcessView,
    write: Opcode,
    read: Opcode,
    at: i64,
    value: i64,
    memory: Seq<u8>,
)
    requires
        pre.wf(),
        pre.stack.len() < STACK_CAPACITY,
        write == Opcode::WriteInt64 && read == Opcode::ReadInt64 || write == Opcode::WriteInt32
            && read == Opcode::ReadInt32 || write == Opcode::WriteInt16 && read
            == Opcode::ReadInt16 || write == Opcode::WriteInt8 && read == Opcode::ReadInt8,
        0 <= at,
        at + write.width() <= memory.len() <= usize::MAX,
    ensures
        ({
            let size = write.width();
            let written = execute_spec(
                pre,
                ProcessInstruction {
                    opcode: write,
                    operands: (Some(StackValue::Int(at)), Some(StackValue::Int(value))),
                },
            );
            let stored = overwrite(memory, at as int, le_bytes(twos(value) as nat, size));
            let asked = execute_spec(
                pre,
                ProcessInstruction { opcode: read, operands: (Some(StackValue::Int(at)), None) },
            );
            let loaded = after_read_spec(
                pre,
                ReadUse::Int,
                size as usize,
                Some(stored.subrange(at as int, at + size)),
            );
            &&& written == (Step {
                result: Ok(Effect::Write { address: at as usize, size: size as usize, bits: twos(value) }),
                state: pre,
            })
            &&& asked == (Step {
                result: Ok(Effect::Read { address: at as usize, size: size as usize, then: ReadUse::Int }),
                state: pre,
            })
            &&& loaded == (Step {
                result: Ok(Effect::Done),
                state: pre.with_stack(
                    pre.stack.push(StackValue::Int(wrap_signed(value as int, size) as i64)),
                ),
            })
        }),
{
    let size = write.width();
    let data = le_bytes(twos(value) as nat, size);
    lemma_le_bytes_len(twos(value) as nat, size);
    let stored = overwrite(memory, at as int, data);
    assert(stored.subrange(at as int, at + size) =~= data);
    lemma_int_round_trip(value, size);
    assert(pre.stack + Seq::<StackValue>::empty() =~= pre.stack);
    assert(pre.with_stack(pre.stack) == pre);
    assert(pre.stack + seq![StackValue::Int(wrap_signed(value as int, size) as i64)] =~= pre.stack.push(
        StackValue::Int(wrap_signed(value as int, size) as i64),
    ));
}

/// A float written in eight bytes and read back is the same float, bit
/// for bit.
pub proof fn lemma_float64_round_trip(pre: ProcessView, at: i64, bits: u64, memory: Seq<u8>)
    requires
        pre.wf(),
        pre.stack.len() < STACK_CAPACITY,
        0 <= at,
        at + 8 <= memory.len() <= usize::MAX,
    ensures
        ({
            let written = execute_spec(
                pre,
                ProcessInstruction {
                    opcode: Opcode::WriteFloat64,
                    operands: (Some(StackValue::Int(at)), Some(StackValue::Float(bits))),
                },
            );
            let stored = overwrite(memory, at as int, le_bytes(bits as nat, 8));
            let loaded = after_read_spec(
                pre,
                ReadUse::Float,
                8,
                Some(stored.subrange(at as int, at + 8)),
            );
            &&& written == (Step {
                result: Ok(Effect::Write { address: at as usize, size: 8, bits }),
                state: pre,
            })
            &&& loaded == (Step {
                result: Ok(Effect::Done),
                state: pre.with_stack(pre.stack.push(StackValue::Float(bits))),
            })
        }),
{
    let data = le_bytes(bits as nat, 8);
    lemma_le_bytes_len(bits as nat, 8);
    let stored = overwrite(memory, at as int, data);
    assert(stored.subrange(at as int, at + 8) =~= data);
    lemma_le_round_trip(bits as nat, 8);
    lemma_span_values();
    assert(pre.stack + Seq::<StackValue>::empty() =~= pre.stack);
    assert(pre.with_stack(pre.stack) == pre);
    assert(pre.stack + seq![StackValue::Float(bits)] =~= pre.stack.push(StackValue::Float(bits)));
}

/// `Fork` leaves the parent as it is but for the operand it took, and asks
/// for the launch of a copy that differs from the parent in the program
/// counter alone: the copy continues at the target, the parent after the
/// `Fork`.
pub proof fn lemma_fork_copies(pre: ProcessView, instruction: ProcessInstruction)
    requires
        pre.wf(),
        instruction.opcode == Opcode::Fork,
    ensures
        execute_spec(pre, instruction).result matches Ok(effect) ==> {
            let parent = execute_spec(pre, instruction).state;
            let found = sourced(pre.stack, instruction)->0;
            &&& found.first matches StackValue::Int(target) && effect == (Effect::Fork {
                pc: target as usize,
            })
            &&& parent == pre.with_stack(found.rest)
            &&& effect matches Effect::Fork { pc } && parent.with_pc(pc).stack == parent.stack
                && parent.with_pc(pc).registers == parent.registers && parent.with_pc(
                pc,
            ).invoke_target == parent.invoke_target && parent.with_pc(pc).pc == pc
        },
{
    match sourced(pre.stack, instruction) {
        Some(found) => {
            assert(found.rest + Seq::<StackValue>::empty() =~= found.rest);
        },
        None => {},
    }
}

} // verus!
