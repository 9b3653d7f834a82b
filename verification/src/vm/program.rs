//! The program image: operations, instructions with their inline operands,
//! static data and the memory a process starts with.

use vstd::prelude::*;
use vstd::string::StringSliceAdditionalSpecFns;
use vstd::utf8::encode_utf8;
use vstd::utf8::is_ascii_chars;
use vstd::utf8::encode_utf8_decode_utf8;

verus! {

/// Two texts have the same UTF-8 encoding only if they are the same text.
pub proof fn lemma_same_bytes_same_chars(a: Seq<char>, b: Seq<char>)
    ensures
        encode_utf8(a) == encode_utf8(b) <==> a == b,
{
    encode_utf8_decode_utf8(a);
    encode_utf8_decode_utf8(b);
}

/// Whether `name` holds exactly the bytes of `word`.
pub fn spells(name: &[u8], word: &str) -> (same: bool)
    ensures
        same == (name@ == word.spec_bytes()),
{
    let bytes = word.as_bytes();
    if name.len() != bytes.len() {
        return false;
    }
    let mut i: usize = 0;
    while i < name.len()
        invariant
            i <= name@.len(),
            name@.len() == bytes@.len(),
            bytes@ == word.spec_bytes(),
            forall|k: int| 0 <= k < i ==> name@[k] == bytes@[k],
        decreases name@.len() - i,
    {
        if name[i] != bytes[i] {
            return false;
        }
        i += 1;
    }
    assert(name@ =~= bytes@);
    true
}

/// The operations of the machine.
#[derive(Clone, Copy, Debug, PartialEq, Eq, Structural)]
pub enum Opcode {
    /// Does nothing.
    Noop,
    /// Shows the stack.
    Debug,
    /// `a + b`.
    Add,
    /// `a - b`.
    Sub,
    /// `a * b`.
    Mul,
    /// `a / b`.
    Div,
    /// `a > b`.
    Gt,
    /// `a < b`.
    Ls,
    /// `a >= b`.
    Gteq,
    /// `a <= b`.
    Lseq,
    /// `a == b`.
    Eq,
    /// `a != b`.
    Noteq,
    /// Retags a value as an integer.
    Int,
    /// Retags a value as a float.
    Float,
    /// `a`: drops `a`.
    Discard,
    /// Pushes the top of the stack once more.
    Clone,
    /// Pushes its inline operands.
    Push,
    /// Exchanges the two topmost values.
    Swap,
    /// Pushes a copy of the second value over the top.
    Over,
    /// `i`: pushes register `i`.
    Reg,
    /// `i a`: writes `a` to register `i`.
    SetReg,
    /// `a v`: stores the low 64 bits of `v` at address `a`.
    WriteInt64,
    /// `a`: loads 64 bits at address `a`, sign-extended.
    ReadInt64,
    /// `a v`: stores the low 32 bits of `v` at address `a`.
    WriteInt32,
    /// `a`: loads 32 bits at address `a`, sign-extended.
    ReadInt32,
    /// `a v`: stores the low 16 bits of `v` at address `a`.
    WriteInt16,
    /// `a`: loads 16 bits at address `a`, sign-extended.
    ReadInt16,
    /// `a v`: stores the low 8 bits of `v` at address `a`.
    WriteInt8,
    /// `a`: loads 8 bits at address `a`, sign-extended.
    ReadInt8,
    /// `a v`: stores the float `v` at address `a` in 64 bits.
    WriteFloat64,
    /// `a`: loads a 64-bit float at address `a`.
    ReadFloat64,
    /// `a v`: stores the float `v` at address `a` in 32 bits.
    WriteFloat32,
    /// `a`: loads a 32-bit float at address `a`.
    ReadFloat32,
    /// `u`: makes shared unit `u` the active memory.
    Mount,
    /// Makes the private buffer the active memory.
    Unmount,
    /// `t c`: continues at `t` if `c` is not zero.
    Jump,
    /// `t`: starts a copy of the process at `t`.
    Fork,
    /// Ends the process.
    Exit,
    /// `ms`: blocks the worker for `ms` milliseconds.
    ThreadSleep,
    /// `a n`: takes the symbol name from `n` bytes of memory at `a`.
    PrepareInvoke,
    /// Calls the foreign function named last.
    Invoke,
    /// `a n`: `PrepareInvoke` and `Invoke` in one.
    FastInvoke,
}

impl Opcode {
    /// The name by which assembly text calls the operation.
    pub open spec fn mnemonic(self) -> &'static str {
        match self {
            Opcode::Noop => "Noop",
            Opcode::Debug => "Debug",
            Opcode::Add => "Add",
            Opcode::Sub => "Sub",
            Opcode::Mul => "Mul",
            Opcode::Div => "Div",
            Opcode::Gt => "Gt",
            Opcode::Ls => "Ls",
            Opcode::Gteq => "Gteq",
            Opcode::Lseq => "Lseq",
            Opcode::Eq => "Eq",
            Opcode::Noteq => "Noteq",
            Opcode::Int => "Int",
            Opcode::Float => "Float",
            Opcode::Discard => "Discard",
            Opcode::Clone => "Clone",
            Opcode::Push => "Push",
            Opcode::Swap => "Swap",
            Opcode::Over => "Over",
            Opcode::Reg => "Reg",
            Opcode::SetReg => "SetReg",
            Opcode::WriteInt64 => "WriteInt64",
            Opcode::ReadInt64 => "ReadInt64",
            Opcode::WriteInt32 => "WriteInt32",
            Opcode::ReadInt32 => "ReadInt32",
            Opcode::WriteInt16 => "WriteInt16",
            Opcode::ReadInt16 => "ReadInt16",
            Opcode::WriteInt8 => "WriteInt8",
            Opcode::ReadInt8 => "ReadInt8",
            Opcode::WriteFloat64 => "WriteFloat64",
            Opcode::ReadFloat64 => "ReadFloat64",
            Opcode::WriteFloat32 => "WriteFloat32",
            Opcode::ReadFloat32 => "ReadFloat32",
            Opcode::Mount => "Mount",
            Opcode::Unmount => "Unmount",
            Opcode::Jump => "Jump",
            Opcode::Fork => "Fork",
            Opcode::Exit => "Exit",
            Opcode::ThreadSleep => "ThreadSleep",
            Opcode::PrepareInvoke => "PrepareInvoke",
            Opcode::Invoke => "Invoke",
            Opcode::FastInvoke => "FastInvoke",
        }
    }

    /// How many operands the operation takes, each either inline or popped.
    pub open spec fn arity(self) -> nat {
        match self {
            Opcode::Noop | Opcode::Debug | Opcode::Clone | Opcode::Push | Opcode::Unmount | Opcode::Exit | Opcode::Invoke => 0,
            Opcode::Int | Opcode::Float | Opcode::Discard | Opcode::Reg | Opcode::ReadInt64 | Opcode::ReadInt32 | Opcode::ReadInt16 | Opcode::ReadInt8 | Opcode::ReadFloat64 | Opcode::ReadFloat32 | Opcode::Mount | Opcode::Fork | Opcode::ThreadSleep => 1,
            _ => 2,
        }
    }

    /// The operation's name.
    pub fn name(&self) -> (text: &'static str)
        ensures
            text@ == self.mnemonic()@,
    {
        match self {
            Opcode::Noop => "Noop",
            Opcode::Debug => "Debug",
            Opcode::Add => "Add",
            Opcode::Sub => "Sub",
            Opcode::Mul => "Mul",
            Opcode::Div => "Div",
            Opcode::Gt => "Gt",
            Opcode::Ls => "Ls",
            Opcode::Gteq => "Gteq",
            Opcode::Lseq => "Lseq",
            Opcode::Eq => "Eq",
            Opcode::Noteq => "Noteq",
            Opcode::Int => "Int",
            Opcode::Float => "Float",
            Opcode::Discard => "Discard",
            Opcode::Clone => "Clone",
            Opcode::Push => "Push",
            Opcode::Swap => "Swap",
            Opcode::Over => "Over",
            Opcode::Reg => "Reg",
            Opcode::SetReg => "SetReg",
            Opcode::WriteInt64 => "WriteInt64",
            Opcode::ReadInt64 => "ReadInt64",
            Opcode::WriteInt32 => "WriteInt32",
            Opcode::ReadInt32 => "ReadInt32",
            Opcode::WriteInt16 => "WriteInt16",
            Opcode::ReadInt16 => "ReadInt16",
            Opcode::WriteInt8 => "WriteInt8",
            Opcode::ReadInt8 => "ReadInt8",
            Opcode::WriteFloat64 => "WriteFloat64",
            Opcode::ReadFloat64 => "ReadFloat64",
            Opcode::WriteFloat32 => "WriteFloat32",
            Opcode::ReadFloat32 => "ReadFloat32",
            Opcode::Mount => "Mount",
            Opcode::Unmount => "Unmount",
            Opcode::Jump => "Jump",
            Opcode::Fork => "Fork",
            Opcode::Exit => "Exit",
            Opcode::ThreadSleep => "ThreadSleep",
            Opcode::PrepareInvoke => "PrepareInvoke",
            Opcode::Invoke => "Invoke",
            Opcode::FastInvoke => "FastInvoke",
        }
    }

    /// Number of operands, see [`Opcode::arity`].
    pub fn operands(&self) -> (n: usize)
        ensures
            n == self.arity(),
    {
        match self {
            Opcode::Noop | Opcode::Debug | Opcode::Clone | Opcode::Push | Opcode::Unmount | Opcode::Exit | Opcode::Invoke => 0,
            Opcode::Int | Opcode::Float | Opcode::Discard | Opcode::Reg | Opcode::ReadInt64 | Opcode::ReadInt32 | Opcode::ReadInt16 | Opcode::ReadInt8 | Opcode::ReadFloat64 | Opcode::ReadFloat32 | Opcode::Mount | Opcode::Fork | Opcode::ThreadSleep => 1,
            _ => 2,
        }
    }

    /// Bytes that a memory operation moves; zero for other operations.
    pub open spec fn width(self) -> nat {
        match self {
            Opcode::WriteInt64 | Opcode::ReadInt64 | Opcode::WriteFloat64 | Opcode::ReadFloat64 => 8,
            Opcode::WriteInt32 | Opcode::ReadInt32 | Opcode::WriteFloat32 | Opcode::ReadFloat32 => 4,
            Opcode::WriteInt16 | Opcode::ReadInt16 => 2,
            Opcode::WriteInt8 | Opcode::ReadInt8 => 1,
            _ => 0,
        }
    }

    /// Bytes that the operation moves, see [`Opcode::width`].
    pub fn bytes(&self) -> (n: usize)
        ensures
            n == self.width(),
    {
        match self {
            Opcode::WriteInt64 | Opcode::ReadInt64 | Opcode::WriteFloat64 | Opcode::ReadFloat64 => 8,
            Opcode::WriteInt32 | Opcode::ReadInt32 | Opcode::WriteFloat32 | Opcode::ReadFloat32 => 4,
            Opcode::WriteInt16 | Opcode::ReadInt16 => 2,
            Opcode::WriteInt8 | Opcode::ReadInt8 => 1,
            _ => 0,
        }
    }

    /// What each name spells: no two operations share a name, and all names are ASCII.
    pub proof fn lemma_mnemonics(a: Opcode, b: Opcode)
        ensures
            a.mnemonic()@ == b.mnemonic()@ ==> a == b,
            is_ascii_chars(a.mnemonic()@),
            0 < a.mnemonic()@.len() <= 13,
    {
        reveal_strlit("Noop");
        reveal_strlit("Debug");
        reveal_strlit("Add");
        reveal_strlit("Sub");
        reveal_strlit("Mul");
        reveal_strlit("Div");
        reveal_strlit("Gt");
        reveal_strlit("Ls");
        reveal_strlit("Gteq");
        reveal_strlit("Lseq");
        reveal_strlit("Eq");
        reveal_strlit("Noteq");
        reveal_strlit("Int");
        reveal_strlit("Float");
        reveal_strlit("Discard");
        reveal_strlit("Clone");
        reveal_strlit("Push");
        reveal_strlit("Swap");
        reveal_strlit("Over");
        reveal_strlit("Reg");
        reveal_strlit("SetReg");
        reveal_strlit("WriteInt64");
        reveal_strlit("ReadInt64");
        reveal_strlit("WriteInt32");
        reveal_strlit("ReadInt32");
        reveal_strlit("WriteInt16");
        reveal_strlit("ReadInt16");
        reveal_strlit("WriteInt8");
        reveal_strlit("ReadInt8");
        reveal_strlit("WriteFloat64");
        reveal_strlit("ReadFloat64");
        reveal_strlit("WriteFloat32");
        reveal_strlit("ReadFloat32");
        reveal_strlit("Mount");
        reveal_strlit("Unmount");
        reveal_strlit("Jump");
        reveal_strlit("Fork");
        reveal_strlit("Exit");
        reveal_strlit("ThreadSleep");
        reveal_strlit("PrepareInvoke");
        reveal_strlit("Invoke");
        reveal_strlit("FastInvoke");
        let s = a.mnemonic()@;
        let t = b.mnemonic()@;
        if s == t {
            assert(s.len() == t.len() && s[0] == t[0] && s[8] == t[8] && s[10] == t[10]);
        }
    }

    /// Finds the operation that `name` spells, byte for byte.
    #[verifier::rlimit(50)]
    pub fn from_bytes(name: &[u8]) -> (found: Option<Opcode>)
        ensures
            forall|op: Opcode| found == Some(op) <==> name@ == #[trigger] op.mnemonic().spec_bytes(),
    {
        let found =
        if spells(name, "Noop") {
            Some(Opcode::Noop)
        } else if spells(name, "Debug") {
            Some(Opcode::Debug)
        } else if spells(name, "Add") {
            Some(Opcode::Add)
        } else if spells(name, "Sub") {
            Some(Opcode::Sub)
        } else if spells(name, "Mul") {
            Some(Opcode::Mul)
        } else if spells(name, "Div") {
            Some(Opcode::Div)
        } else if spells(name, "Gt") {
            Some(Opcode::Gt)
        } else if spells(name, "Ls") {
            Some(Opcode::Ls)
        } else if spells(name, "Gteq") {
            Some(Opcode::Gteq)
        } else if spells(name, "Lseq") {
            Some(Opcode::Lseq)
        } else if spells(name, "Eq") {
            Some(Opcode::Eq)
        } else if spells(name, "Noteq") {
            Some(Opcode::Noteq)
        } else if spells(name, "Int") {
            Some(Opcode::Int)
        } else if spells(name, "Float") {
            Some(Opcode::Float)
        } else if spells(name, "Discard") {
            Some(Opcode::Discard)
        } else if spells(name, "Clone") {
            Some(Opcode::Clone)
        } else if spells(name, "Push") {
            Some(Opcode::Push)
        } else if spells(name, "Swap") {
            Some(Opcode::Swap)
        } else if spells(name, "Over") {
            Some(Opcode::Over)
        } else if spells(name, "Reg") {
            Some(Opcode::Reg)
        } else if spells(name, "SetReg") {
            Some(Opcode::SetReg)
        } else if spells(name, "WriteInt64") {
            Some(Opcode::WriteInt64)
        } else if spells(name, "ReadInt64") {
            Some(Opcode::ReadInt64)
        } else if spells(name, "WriteInt32") {
            Some(Opcode::WriteInt32)
        } else if spells(name, "ReadInt32") {
            Some(Opcode::ReadInt32)
        } else if spells(name, "WriteInt16") {
            Some(Opcode::WriteInt16)
        } else if spells(name, "ReadInt16") {
            Some(Opcode::ReadInt16)
        } else if spells(name, "WriteInt8") {
            Some(Opcode::WriteInt8)
        } else if spells(name, "ReadInt8") {
            Some(Opcode::ReadInt8)
        } else if spells(name, "WriteFloat64") {
            Some(Opcode::WriteFloat64)
        } else if spells(name, "ReadFloat64") {
            Some(Opcode::ReadFloat64)
        } else if spells(name, "WriteFloat32") {
            Some(Opcode::WriteFloat32)
        } else if spells(name, "ReadFloat32") {
            Some(Opcode::ReadFloat32)
        } else if spells(name, "Mount") {
            Some(Opcode::Mount)
        } else if spells(name, "Unmount") {
            Some(Opcode::Unmount)
        } else if spells(name, "Jump") {
            Some(Opcode::Jump)
        } else if spells(name, "Fork") {
            Some(Opcode::Fork)
        } else if spells(name, "Exit") {
            Some(Opcode::Exit)
        } else if spells(name, "ThreadSleep") {
            Some(Opcode::ThreadSleep)
        } else if spells(name, "PrepareInvoke") {
            Some(Opcode::PrepareInvoke)
        } else if spells(name, "Invoke") {
            Some(Opcode::Invoke)
        } else if spells(name, "FastInvoke") {
            Some(Opcode::FastInvoke)
        } else {
            None
        };
        assert forall|op: Opcode| found == Some(op) <==> name@ == #[trigger] op.mnemonic().spec_bytes() by {
            if let Some(hit) = found {
                Self::lemma_mnemonics(hit, op);
                lemma_same_bytes_same_chars(hit.mnemonic()@, op.mnemonic()@);
            }
        }
        found
    }

    /// The operation called `name`, if there is one; names are case-sensitive.
    pub open spec fn named(name: Seq<char>) -> Option<Opcode> {
        if exists|op: Opcode| #[trigger] op.mnemonic()@ == name {
            Some(choose|op: Opcode| #[trigger] op.mnemonic()@ == name)
        } else {
            None
        }
    }

    /// Finds the operation called `name`, see [`Opcode::named`].
    pub fn from_name(name: &str) -> (found: Option<Opcode>)
        ensures
            found == Self::named(name@),
            forall|op: Opcode| found == Some(op) <==> name@ == #[trigger] op.mnemonic()@,
    {
        let found = Self::from_bytes(name.as_bytes());
        assert forall|op: Opcode| found == Some(op) <==> name@ == #[trigger] op.mnemonic()@ by {
            lemma_same_bytes_same_chars(name@, op.mnemonic()@);
            assert(found == Some(op) <==> name.spec_bytes() == op.mnemonic().spec_bytes());
        }
        if let Some(hit) = found {
            assert(hit.mnemonic()@ == name@);
        }
        found
    }
}

/// An operand written into an instruction.
///
/// A `Float` holds the IEEE-754 binary64 bit pattern of the number.
#[derive(Clone, Copy, Debug, PartialEq, Eq, Structural)]
pub enum InstructionParam {
    Int(i64),
    Float(u64),
}

/// An operation with its two inline operand slots. An empty slot is filled
/// from the stack when the instruction runs.
#[derive(Clone, Copy, Debug, PartialEq, Eq)]
pub struct Instruction(pub Opcode, pub Option<InstructionParam>, pub Option<InstructionParam>);

impl Instruction {
    /// An instruction without inline operands.
    pub fn new(opcode: Opcode) -> (instruction: Self)
        ensures
            instruction == Instruction(opcode, None, None),
    {
        Instruction(opcode, None, None)
    }

    /// An instruction with the given inline operands.
    pub fn with_args(
        opcode: Opcode,
        first: Option<InstructionParam>,
        second: Option<InstructionParam>,
    ) -> (instruction: Instruction)
        ensures
            instruction == Instruction(opcode, first, second),
    {
        Instruction(opcode, first, second)
    }
}

/// Size of a process's private memory unless the program asks for more.
pub const DEFAULT_PROGRAM_MEMORY: usize = 1024;

/// An assembled program.
#[derive(Debug)]
pub struct Program {
    /// Display name.
    pub name: String,
    pub instructions: Vec<Instruction>,
    /// Bytes copied to the start of a process's private memory.
    pub static_data: Vec<u8>,
    /// Offset and length of each blob within `static_data`.
    pub static_data_meta: Vec<(usize, usize)>,
    /// Least size of the private memory.
    pub required_memory: usize,
}

impl Clone for Program {
    fn clone(&self) -> (copy: Self)
        ensures
            copy.name@ == self.name@,
            copy.instructions@ == self.instructions@,
            copy.static_data@ == self.static_data@,
            copy.static_data_meta@ == self.static_data_meta@,
            copy.required_memory == self.required_memory,
    {
        let mut static_data_meta: Vec<(usize, usize)> = Vec::new();
        let mut i: usize = 0;
        while i < self.static_data_meta.len()
            invariant
                i <= self.static_data_meta@.len(),
                static_data_meta@ == self.static_data_meta@.subrange(0, i as int),
            decreases self.static_data_meta@.len() - i,
        {
            static_data_meta.push(self.static_data_meta[i]);
            i += 1;
            assert(static_data_meta@ =~= self.static_data_meta@.subrange(0, i as int));
        }
        assert(self.static_data_meta@.subrange(0, i as int) =~= self.static_data_meta@);
        Program {
            name: self.name.clone(),
            instructions: self.instructions.clone(),
            static_data: self.static_data.clone(),
            static_data_meta,
            required_memory: self.required_memory,
        }
    }
}

impl Program {
    /// The private memory a process of this program starts with: the static
    /// data, followed by zeros up to the required size.
    pub open spec fn initial_memory(self) -> Seq<u8> {
        if self.static_data@.len() < self.required_memory {
            self.static_data@ + Seq::new(
                (self.required_memory - self.static_data@.len()) as nat,
                |i: int| 0u8,
            )
        } else {
            self.static_data@
        }
    }

    /// An empty, unnamed program.
    pub fn new() -> (program: Program)
        ensures
            program.name@ == Seq::<char>::empty(),
            program.instructions@ == Seq::<Instruction>::empty(),
            program.static_data@ == Seq::<u8>::empty(),
            program.static_data_meta@ == Seq::<(usize, usize)>::empty(),
            program.required_memory == DEFAULT_PROGRAM_MEMORY,
    {
        Program {
            name: String::new(),
            instructions: Vec::new(),
            static_data: Vec::new(),
            static_data_meta: Vec::new(),
            required_memory: DEFAULT_PROGRAM_MEMORY,
        }
    }

    /// An empty program called `name`.
    pub fn with_name(name: &str) -> (program: Program)
        ensures
            program.name@ == name@,
            program.instructions@ == Seq::<Instruction>::empty(),
            program.static_data@ == Seq::<u8>::empty(),
            program.static_data_meta@ == Seq::<(usize, usize)>::empty(),
            program.required_memory == DEFAULT_PROGRAM_MEMORY,
    {
        let mut program = Self::new();
        program.name = name.to_owned();
        program
    }

    /// Builds the private memory of a new process, see [`Program::initial_memory`].
    pub fn memory(&self) -> (memory: Vec<u8>)
        ensures
            memory@ == self.initial_memory(),
    {
        let mut memory = self.static_data.clone();
        if memory.len() < self.required_memory {
            memory.resize(self.required_memory, 0);
        }
        assert(memory@ =~= self.initial_memory());
        memory
    }
}

} // verus!
