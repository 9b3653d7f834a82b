//! Instructions in the form a process runs: operands already are stack values.

use vstd::prelude::*;
use vstd::std_specs::convert::FromSpecImpl;
use super::program::Instruction;
use super::program::InstructionParam;
use super::program::Opcode;
use super::stack::StackValue;

verus! {

/// The stack value that an inline operand stands for.
pub open spec fn operand_value(param: InstructionParam) -> StackValue {
    match param {
        InstructionParam::Int(x) => StackValue::Int(x),
        InstructionParam::Float(bits) => StackValue::Float(bits),
    }
}

/// The stack value in an operand slot, if the slot is filled.
pub open spec fn slot_value(slot: Option<InstructionParam>) -> Option<StackValue> {
    match slot {
        Some(param) => Some(operand_value(param)),
        None => None,
    }
}

impl From<InstructionParam> for StackValue {
    fn from(value: InstructionParam) -> (converted: Self) {
        match value {
            InstructionParam::Int(x) => StackValue::Int(x),
            InstructionParam::Float(bits) => StackValue::Float(bits),
        }
    }
}

impl FromSpecImpl<InstructionParam> for StackValue {
    open spec fn obeys_from_spec() -> bool {
        true
    }

    open spec fn from_spec(value: InstructionParam) -> Self {
        operand_value(value)
    }
}

/// An instruction of a running process.
#[derive(Clone, Copy, Debug, PartialEq, Eq)]
pub struct ProcessInstruction {
    pub opcode: Opcode,
    /// The inline operands; an empty slot is filled from the stack.
    pub operands: (Option<StackValue>, Option<StackValue>),
}

impl ProcessInstruction {
    /// The instruction that a process runs for `instruction`.
    pub open spec fn of(instruction: Instruction) -> ProcessInstruction {
        ProcessInstruction {
            opcode: instruction.0,
            operands: (slot_value(instruction.1), slot_value(instruction.2)),
        }
    }

    /// How many of the two operand slots are filled.
    pub open spec fn inline_count(self) -> nat {
        (if self.operands.0 is Some { 1nat } else { 0nat }) + (if self.operands.1 is Some { 1nat } else { 0nat })
    }
}

impl From<Instruction> for ProcessInstruction {
    fn from(value: Instruction) -> (converted: Self) {
        let first = match value.1 {
            Some(param) => Some(StackValue::from(param)),
            None => None,
        };
        let second = match value.2 {
            Some(param) => Some(StackValue::from(param)),
            None => None,
        };
        ProcessInstruction { opcode: value.0, operands: (first, second) }
    }
}

impl FromSpecImpl<Instruction> for ProcessInstruction {
    open spec fn obeys_from_spec() -> bool {
        true
    }

    open spec fn from_spec(value: Instruction) -> Self {
        ProcessInstruction::of(value)
    }
}

} // verus!
