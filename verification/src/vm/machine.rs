//! What a machine keeps: the count of its live workers and, for the
//! process of each worker, the private buffer, the shared units and which
//! of them is the active memory.

use vstd::prelude::*;
use std::sync::Arc;
use std::sync::RwLock;
use super::ffi::InvokeShape;
use super::instruction::ProcessInstruction;
use super::memory::Memory;
use super::memory::MemoryHandler;
use super::process::execute_spec;
use super::process::Effect;
use super::process::Process;
use super::process::ProcessView;
use super::process::Step;
use super::program::Opcode;
use super::stack::StackValue;
use super::process::PUBLIC_REGISTERS_COUNT;
use super::process::REGISTER_FLAG_INVOKE_TRAP;
use super::process::REGISTER_FLAG_SHARE_MEMORY;

verus! {

/// The unit that is mounted after a request for `unit`, when `current` was
/// mounted and there are `units` shared units: a request for a unit that
/// does not exist changes nothing.
pub open spec fn select(current: Option<usize>, units: nat, unit: Option<usize>) -> Option<usize> {
    match unit {
        Some(index) if index >= units => current,
        _ => unit,
    }
}

/// `Mount` followed by `Unmount` leaves the private buffer active, whether
/// or not the unit exists and whatever was mounted before: the two
/// instructions ask for the unit and then for none, and a supervisor that
/// goes by [`select`] ends with none mounted.
pub proof fn lemma_unmount_restores(
    pre: ProcessView,
    current: Option<usize>,
    units: nat,
    unit: i64,
)
    requires
        pre.wf(),
        0 <= unit <= usize::MAX,
    ensures
        execute_spec(
            pre,
            ProcessInstruction { opcode: Opcode::Mount, operands: (Some(StackValue::Int(unit)), None) },
        ) == (Step { result: Ok(Effect::SetMemory { unit: Some(unit as usize) }), state: pre }),
        execute_spec(pre, ProcessInstruction { opcode: Opcode::Unmount, operands: (None, None) })
            == (Step { result: Ok(Effect::SetMemory { unit: None }), state: pre }),
        select(select(current, units, Some(unit as usize)), units, None) is None,
{
    assert(pre.stack + Seq::<StackValue>::empty() =~= pre.stack);
    assert(pre.with_stack(pre.stack) == pre);
}

/// The memory side of a worker's supervisor: the process's private buffer,
/// the machine's shared units, and which of them is mounted. The worker
/// adds what takes threads and foreign libraries.
#[verifier::reject_recursive_types(M)]
pub struct MachineProcessSupervisor<M: Memory> {
    buffers: Vec<Arc<RwLock<M>>>,
    memory: M,
    external_memory: Option<usize>,
}

impl<M: Memory> MachineProcessSupervisor<M> {
    /// Index of the mounted shared unit; `None` while the private buffer is active.
    pub closed spec fn mounted(&self) -> Option<usize> {
        match self.external_memory {
            Some(index) if index < self.buffers@.len() => Some(index),
            _ => None,
        }
    }

    /// Number of shared units.
    pub closed spec fn units(&self) -> nat {
        self.buffers@.len()
    }

    /// The private buffer.
    pub closed spec fn private(&self) -> M {
        self.memory
    }

    /// The shared units, each behind its lock.
    pub closed spec fn shared(&self) -> Seq<Arc<RwLock<M>>> {
        self.buffers@
    }

    /// A supervisor over the shared units `buffers` and the private buffer
    /// `memory`, which is active.
    pub fn new(buffers: Vec<Arc<RwLock<M>>>, memory: M) -> (supervisor: Self)
        ensures
            supervisor.mounted() is None,
            supervisor.shared() == buffers@,
            supervisor.units() == buffers@.len(),
            supervisor.private() == memory,
    {
        MachineProcessSupervisor { buffers, memory, external_memory: None }
    }

    /// Makes shared unit `unit`, or with `None` the private buffer, the
    /// active memory. Returns whether there is such a unit; if not, the
    /// active memory stays what it was.
    pub fn set_memory(&mut self, unit: Option<usize>) -> (found: bool)
        ensures
            found <==> (unit matches Some(index) ==> index < old(self).units()),
            final(self).mounted() == select(old(self).mounted(), old(self).units(), unit),
            final(self).shared() == old(self).shared(),
            final(self).units() == old(self).units(),
            final(self).private() == old(self).private(),
    {
        match unit {
            Some(index) => {
                if index < self.buffers.len() {
                    self.external_memory = Some(index);
                    true
                } else {
                    false
                }
            },
            None => {
                self.external_memory = None;
                true
            },
        }
    }

    /// Access to the active memory: the mounted unit behind its lock, or
    /// the private buffer itself.
    pub fn get_memory(&mut self) -> (handler: MemoryHandler<'_, M>)
        ensures
            final(self).mounted() == old(self).mounted(),
            final(self).shared() == old(self).shared(),
            final(self).units() == old(self).units(),
            match old(self).mounted() {
                Some(index) => index < old(self).units() && handler == MemoryHandler::MemoryLock(
                    old(self).shared()[index as int],
                ) && final(self).private() == old(self).private(),
                None => handler matches MemoryHandler::MemoryRef(unit) && *unit == old(
                    self,
                ).private() && *final(unit) == final(self).private(),
            },
    {
        match self.external_memory {
            Some(index) if index < self.buffers.len() => MemoryHandler::MemoryLock(
                self.buffers[index].clone(),
            ),
            _ => MemoryHandler::MemoryRef(&mut self.memory),
        }
    }
}

/// The count of live workers: how many were started and how many of them
/// have ended.
pub struct LiveCount {
    started: u64,
    ended: u64,
}

impl LiveCount {
    #[verifier::type_invariant]
    spec fn ordered(self) -> bool {
        self.ended <= self.started
    }

    /// Workers started so far.
    pub closed spec fn started(&self) -> nat {
        self.started as nat
    }

    /// Workers that have ended so far.
    pub closed spec fn ended(&self) -> nat {
        self.ended as nat
    }

    /// A count with no worker started.
    pub fn new() -> (count: Self)
        ensures
            count.started() == 0,
            count.ended() == 0,
    {
        LiveCount { started: 0, ended: 0 }
    }

    /// Counts a worker that is about to start. Returns `false`, and counts
    /// nothing, when the count is exhausted.
    pub fn start(&mut self) -> (counted: bool)
        ensures
            counted <==> old(self).started() < u64::MAX,
            final(self).started() == old(self).started() + (if counted {
                1nat
            } else {
                0nat
            }),
            final(self).ended() == old(self).ended(),
    {
        proof {
            use_type_invariant(&*self);
        }
        if self.started == u64::MAX {
            false
        } else {
            self.started += 1;
            true
        }
    }

    /// Counts the end of a worker, if any is alive.
    pub fn end(&mut self)
        ensures
            final(self).started() == old(self).started(),
            final(self).ended() == old(self).ended() + (if old(self).ended() < old(
                self,
            ).started() {
                1nat
            } else {
                0nat
            }),
    {
        proof {
            use_type_invariant(&*self);
        }
        if self.ended < self.started {
            self.ended += 1;
        }
    }

    /// How many workers are alive: started and not yet ended.
    pub fn alive(&self) -> (alive: u64)
        ensures
            alive == self.started() - self.ended(),
    {
        proof {
            use_type_invariant(self);
        }
        self.started - self.ended
    }

    /// Whether no worker is alive: every worker that was started has
    /// ended. This is when a wait for the machine may return.
    pub fn idle(&self) -> (idle: bool)
        ensures
            idle <==> self.ended() == self.started(),
    {
        self.started == self.ended
    }
}

impl Process {
    /// The shape of a foreign call that the process would make now: its
    /// invoke-trap and share-memory flags are read at this moment.
    pub fn invoke_shape(&self) -> (shape: InvokeShape)
        ensures
            shape == InvokeShape::select(
                self@.registers[PUBLIC_REGISTERS_COUNT + REGISTER_FLAG_INVOKE_TRAP].truthy(),
                self@.registers[PUBLIC_REGISTERS_COUNT + REGISTER_FLAG_SHARE_MEMORY].truthy(),
            ),
    {
        InvokeShape::of(self.get_flag_invoke_trap(), self.get_flag_share_memory())
    }
}

} // verus!
