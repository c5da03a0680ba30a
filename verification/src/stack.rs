//! The operand stack and the call frames that index into it.

use crate::inst::Pointer;
use vstd::prelude::*;

verus! {

/// The operand stack: signed integers, the most recently pushed one last.
#[derive(Debug)]
pub struct Stack(pub Vec<isize>);

impl View for Stack {
    type V = Seq<isize>;

    open spec fn view(&self) -> Seq<isize> {
        self.0@
    }
}

impl Stack {
    /// Puts `v` on top.
    pub fn push(&mut self, v: isize)
        ensures
            final(self)@ == old(self)@.push(v),
    {
        self.0.push(v);
    }

    /// Takes the top value off and returns it.
    pub fn pop(&mut self) -> (v: isize)
        requires
            old(self)@.len() > 0,
        ensures
            v == old(self)@.last(),
            final(self)@ == old(self)@.drop_last(),
    {
        let n = self.0.len();
        let v = self.0[n - 1];
        self.0.truncate(n - 1);
        v
    }

    /// Returns the top value and leaves the stack as it is.
    pub fn peek(&mut self) -> (v: isize)
        requires
            old(self)@.len() > 0,
        ensures
            v == old(self)@.last(),
            final(self)@ == old(self)@,
    {
        self.0[self.0.len() - 1]
    }

    /// Lends the top slot for writing. Whatever the borrower leaves there is
    /// the new top; the slots below stay as they are.
    pub fn peek_mut(&mut self) -> (top: &mut isize)
        requires
            old(self)@.len() > 0,
        ensures
            *top == old(self)@.last(),
            final(self)@ == old(self)@.drop_last().push(*final(top)),
    {
        let n = self.0.len();
        &mut self.0[n - 1]
    }
}

/// What a call leaves on the call stack.
#[derive(Debug, Clone, Copy, PartialEq, Eq, Structural)]
pub struct StackFrame {
    /// Length of the operand stack when the call began: the arguments lie
    /// just below this index, the callee's locals from it upwards.
    pub stack_offset: Pointer,
    /// Address at which the caller resumes.
    pub ip: Pointer,
}

} // verus!
