//! Foreign functions: the shapes of a call and the errors of a lookup.

use vstd::prelude::*;

verus! {

/// Why a foreign function could not be called.
#[derive(Debug)]
pub enum FFIError {
    /// No loaded library has the symbol.
    NotFound,
    /// A library could not be loaded or searched; the text says why.
    SymbolError(String),
}

/// What a foreign function is given when it is called.
#[derive(Clone, Copy, Debug, PartialEq, Eq, Structural)]
pub enum InvokeShape {
    /// The process and its supervisor: the function drives the process itself.
    Trap,
    /// The public registers and the active memory.
    Memory,
    /// The public registers alone.
    Plain,
}

impl InvokeShape {
    /// The shape that the two flags select: the invoke-trap flag goes
    /// first, then the share-memory flag decides.
    pub open spec fn select(invoke_trap: bool, share_memory: bool) -> InvokeShape {
        if invoke_trap {
            InvokeShape::Trap
        } else if share_memory {
            InvokeShape::Memory
        } else {
            InvokeShape::Plain
        }
    }

    /// The shape of a call made with these flags, see [`InvokeShape::select`].
    pub fn of(invoke_trap: bool, share_memory: bool) -> (shape: InvokeShape)
        ensures
            shape == Self::select(invoke_trap, share_memory),
    {
        if invoke_trap {
            InvokeShape::Trap
        } else if share_memory {
            InvokeShape::Memory
        } else {
            InvokeShape::Plain
        }
    }
}

} // verus!
