//! Tagged scalar values and the fixed-depth evaluation stack.

use vstd::prelude::*;

verus! {

/// Number of slots of an evaluation stack.
pub const STACK_CAPACITY: usize = 32;

/// A value on the stack or in a register.
///
/// A `Float` holds the IEEE-754 binary64 bit pattern of the number, so two
/// floats are the same value exactly when their bits are.
#[derive(Clone, Copy, Debug, PartialEq, Eq, Structural)]
pub enum StackValue {
    Int(i64),
    Float(u64),
}

impl StackValue {
    /// Smallest bit pattern of a positive float whose integer part is not zero (the number one).
    pub const FLOAT_ONE: u64 = 0x3FF0_0000_0000_0000;

    /// Bit pattern of positive infinity, the largest positive float that is a number.
    pub const FLOAT_INFINITY: u64 = 0x7FF0_0000_0000_0000;

    /// Whether the value, truncated to an integer, is not zero.
    ///
    /// A float truncates to a non-zero integer exactly when it is a number
    /// and at least one: negative floats and NaN truncate to zero.
    pub open spec fn truthy(self) -> bool {
        match self {
            StackValue::Int(x) => x != 0,
            StackValue::Float(bits) => Self::FLOAT_ONE <= bits <= Self::FLOAT_INFINITY,
        }
    }

    /// Reads the value as a flag: zero is off, anything else is on.
    pub fn is_set(&self) -> (on: bool)
        ensures
            on == self.truthy(),
    {
        match *self {
            StackValue::Int(x) => x != 0,
            StackValue::Float(bits) => Self::FLOAT_ONE <= bits && bits <= Self::FLOAT_INFINITY,
        }
    }
}

/// The evaluation stack of a process: at most [`STACK_CAPACITY`] values.
#[derive(Clone, Copy)]
pub struct Stack {
    items: [StackValue; 32],
    offset: u8,
}

impl View for Stack {
    type V = Seq<StackValue>;

    /// The values on the stack, the oldest first and the top last.
    closed spec fn view(&self) -> Seq<StackValue> {
        self.items@.subrange(0, self.offset as int)
    }
}

impl Stack {
    #[verifier::type_invariant]
    spec fn in_bounds(self) -> bool {
        self.offset <= 32
    }

    /// An empty stack.
    pub fn new() -> (stack: Self)
        ensures
            stack@ == Seq::<StackValue>::empty(),
    {
        Stack { items: [StackValue::Int(0);32], offset: 0 }
    }

    /// Number of values on the stack.
    pub fn depth(&self) -> (n: usize)
        ensures
            n == self@.len(),
            n <= STACK_CAPACITY,
    {
        proof {
            use_type_invariant(self);
        }
        self.offset as usize
    }

    /// Shows that the depth is within the capacity; does nothing when run.
    #[inline]
    pub(crate) fn bounded(&self)
        ensures
            self@.len() <= STACK_CAPACITY,
    {
        proof {
            use_type_invariant(self);
        }
    }

    /// Removes the top value and returns it; `None` on an empty stack, which stays empty.
    pub fn pop(&mut self) -> (top: Option<StackValue>)
        ensures
            old(self)@.len() == 0 ==> top is None && final(self)@ == old(self)@,
            old(self)@.len() > 0 ==> top == Some(old(self)@.last()) && final(self)@ == old(
                self,
            )@.drop_last(),
    {
        proof {
            use_type_invariant(&*self);
        }
        if self.offset == 0 {
            None
        } else {
            self.offset -= 1;
            assert(self@ =~= old(self)@.drop_last());
            Some(self.items[self.offset as usize])
        }
    }

    /// Removes the two topmost values and returns them, the top first.
    /// `None`, and no change, when the stack holds fewer than two.
    pub fn pop2(&mut self) -> (pair: Option<(StackValue, StackValue)>)
        ensures
            old(self)@.len() < 2 ==> pair is None && final(self)@ == old(self)@,
            old(self)@.len() >= 2 ==> pair == Some(
                (old(self)@[old(self)@.len() - 1], old(self)@[old(self)@.len() - 2]),
            ) && final(self)@ == old(self)@.subrange(0, old(self)@.len() - 2),
    {
        proof {
            use_type_invariant(&*self);
        }
        if self.offset < 2 {
            None
        } else {
            self.offset -= 2;
            assert(self@ =~= old(self)@.subrange(0, old(self)@.len() - 2));
            Some((self.items[(self.offset + 1) as usize], self.items[self.offset as usize]))
        }
    }

    /// The top value, which stays on the stack; `None` on an empty stack.
    pub fn peek(&mut self) -> (top: Option<StackValue>)
        ensures
            final(self)@ == old(self)@,
            old(self)@.len() == 0 ==> top is None,
            old(self)@.len() > 0 ==> top == Some(old(self)@.last()),
    {
        proof {
            use_type_invariant(&*self);
        }
        if self.offset == 0 {
            None
        } else {
            Some(self.items[(self.offset - 1) as usize])
        }
    }

    /// Puts `value` on top. The stack does not grow: the caller makes sure
    /// that a slot is free.
    pub fn push(&mut self, value: StackValue)
        requires
            old(self)@.len() < STACK_CAPACITY,
        ensures
            final(self)@ == old(self)@.push(value),
    {
        proof {
            use_type_invariant(&*self);
        }
        self.items[self.offset as usize] = value;
        self.offset += 1;
        assert(self@ =~= old(self)@.push(value));
    }

    /// The values on the stack as a vector, the oldest first.
    pub fn to_vec(&self) -> (values: Vec<StackValue>)
        ensures
            values@ == self@,
    {
        proof {
            use_type_invariant(self);
        }
        let mut values: Vec<StackValue> = Vec::new();
        let mut i: u8 = 0;
        while i < self.offset
            invariant
                i <= self.offset <= 32,
                values@ == self.items@.subrange(0, i as int),
            decreases self.offset - i,
        {
            values.push(self.items[i as usize]);
            i += 1;
            assert(values@ =~= self.items@.subrange(0, i as int));
        }
        values
    }
}

} // verus!
