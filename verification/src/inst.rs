//! The instruction set.

use vstd::prelude::*;

verus! {

/// An absolute index, into the instruction stream or into the operand stack.
pub type Pointer = usize;

/// One resolved instruction. Every address it holds is absolute.
#[derive(Debug, Clone, Copy, PartialEq, Eq, Structural)]
pub enum Inst {
    Push(isize),
    Pop,
    Add,
    Sub,
    Incr,
    Decr,
    Mul,
    Div,
    Jump(Pointer),
    JE(Pointer),
    JNE(Pointer),
    JGT(Pointer),
    JLT(Pointer),
    JGE(Pointer),
    JLE(Pointer),
    Get(Pointer),
    /// The opcode `Set`: writes the top value into a slot of the current frame.
    Put(Pointer),
    GetArg(Pointer),
    SetArg(Pointer),
    Noop,
    Print,
    PrintC,
    PrintStack,
    Call(Pointer),
    Ret,
    CollapseRet(Pointer),
}

} // verus!
