//! The machine as mathematics: its state, and what one instruction does to it.
//!
//! Everything here is specification. The executable machine is held to it
//! step by step.

use crate::inst::{Inst, Pointer};
use crate::stack::StackFrame;
use vstd::prelude::*;

verus! {

/// The whole state of a machine.
pub struct State {
    /// Address of the next instruction to fetch.
    pub pointer: Pointer,
    /// The operand stack, top last.
    pub stack: Seq<isize>,
    /// The call stack, innermost call last.
    pub frames: Seq<StackFrame>,
}

impl State {
    /// The state in which every run starts: address 0, both stacks empty.
    pub open spec fn initial() -> State {
        State { pointer: 0, stack: Seq::empty(), frames: Seq::empty() }
    }

    /// Whether a machine can be in this state: the depth of its stack is a
    /// number that a frame can record.
    pub open spec fn well_formed(self) -> bool {
        self.stack.len() <= usize::MAX
    }
}

/// Why a machine stopped before the end of its program.
#[derive(Debug, Clone, Copy, PartialEq, Eq, Structural)]
pub enum RuntimeError {
    /// An instruction needed more operands than the stack holds.
    EmptyStack,
    /// A return or an argument access with no call in progress.
    NoCallFrame,
    /// A frame-relative address fell outside the operand stack.
    StackIndex,
    /// `Div` with a zero divisor.
    DivisionByZero,
    /// An arithmetic result that no stack slot can hold.
    Overflow,
}

/// What an instruction hands to the output sink.
pub enum Emitted {
    /// `Print`: the top value, to be written as a signed integer.
    Int(isize),
    /// `PrintC`: the low eight bits of the top value, to be written as one
    /// character.
    Char(u8),
    /// `PrintStack`: the whole stack, bottom first.
    Stack(Seq<isize>),
}

/// What one step of the machine comes to.
pub enum Outcome {
    /// There is no instruction at the pointer: the run is over.
    Halt,
    /// The instruction ran; this is the state after it and what it wrote.
    Next(State, Option<Emitted>),
    /// The instruction could not run.
    Fault(RuntimeError),
}

/// Whether a stack slot can hold `v`.
pub open spec fn fits(v: int) -> bool {
    isize::MIN <= v <= isize::MAX
}

/// Quotient of `n` by `d`, rounded toward zero.
pub open spec fn trunc_div(n: int, d: int) -> int
    recommends
        d != 0,
{
    if n >= 0 && d > 0 {
        n / d
    } else if n >= 0 {
        -(n / (-d))
    } else if d > 0 {
        -((-n) / d)
    } else {
        (-n) / (-d)
    }
}

/// The value that `Add`, `Sub`, `Mul` or `Div` leaves, where `a` was popped
/// first and `b` second.
pub open spec fn arith(inst: Inst, b: int, a: int) -> int {
    match inst {
        Inst::Add => a + b,
        Inst::Sub => b - a,
        Inst::Mul => a * b,
        Inst::Div => trunc_div(b, a),
        _ => 0,
    }
}

/// The condition under which a conditional jump is taken, on top value `v`.
pub open spec fn taken(inst: Inst, v: int) -> bool {
    match inst {
        Inst::JE(_) => v == 0,
        Inst::JNE(_) => v != 0,
        Inst::JGT(_) => v > 0,
        Inst::JLT(_) => v < 0,
        Inst::JGE(_) => v >= 0,
        Inst::JLE(_) => v <= 0,
        _ => false,
    }
}

/// Index of the bottom slot of the current frame: the offset of the innermost
/// call, or 0 at top level.
pub open spec fn frame_base(frames: Seq<StackFrame>) -> int {
    if frames.len() == 0 {
        0
    } else {
        frames.last().stack_offset as int
    }
}

/// Index of argument `i` of the call that `frame` belongs to. Argument 0 is
/// the one pushed last before the call.
pub open spec fn arg_slot(frame: StackFrame, i: Pointer) -> int {
    frame.stack_offset - 1 - i
}

/// Whether `at` is the index of a slot of `stack`.
pub open spec fn in_stack(stack: Seq<isize>, at: int) -> bool {
    0 <= at < stack.len()
}

/// An instruction that ran and wrote nothing.
pub open spec fn quiet(s: State) -> Outcome {
    Outcome::Next(s, None)
}

/// `Add`, `Sub`, `Mul`, `Div`: both operands leave, the result takes their
/// place.
pub open spec fn binary(inst: Inst, s: State) -> Outcome {
    let n = s.stack.len() as int;
    if n < 2 {
        Outcome::Fault(RuntimeError::EmptyStack)
    } else if inst == Inst::Div && s.stack[n - 1] == 0 {
        Outcome::Fault(RuntimeError::DivisionByZero)
    } else {
        let v = arith(inst, s.stack[n - 2] as int, s.stack[n - 1] as int);
        if fits(v) {
            quiet(State { stack: s.stack.take(n - 2).push(v as isize), ..s })
        } else {
            Outcome::Fault(RuntimeError::Overflow)
        }
    }
}

/// `Incr` (`by` is 1) and `Decr` (`by` is -1): the top changes in place.
pub open spec fn bump(by: int, s: State) -> Outcome {
    if s.stack.len() == 0 {
        Outcome::Fault(RuntimeError::EmptyStack)
    } else if fits(s.stack.last() + by) {
        quiet(State { stack: s.stack.drop_last().push((s.stack.last() + by) as isize), ..s })
    } else {
        Outcome::Fault(RuntimeError::Overflow)
    }
}

/// A conditional jump to `target`: the top is looked at, and leaves only if
/// the jump is taken.
pub open spec fn branch(inst: Inst, target: Pointer, s: State) -> Outcome {
    if s.stack.len() == 0 {
        Outcome::Fault(RuntimeError::EmptyStack)
    } else if taken(inst, s.stack.last() as int) {
        quiet(State { pointer: target, stack: s.stack.drop_last(), ..s })
    } else {
        quiet(s)
    }
}

/// `Get` and `GetArg`, once the slot is known: a copy of slot `at` is pushed.
pub open spec fn load(at: int, s: State) -> Outcome {
    if in_stack(s.stack, at) {
        quiet(State { stack: s.stack.push(s.stack[at]), ..s })
    } else {
        Outcome::Fault(RuntimeError::StackIndex)
    }
}

/// `Set` and `SetArg`, once the slot is known: slot `at` takes the top
/// value, which stays.
pub open spec fn store(at: int, s: State) -> Outcome {
    if s.stack.len() == 0 {
        Outcome::Fault(RuntimeError::EmptyStack)
    } else if in_stack(s.stack, at) {
        quiet(State { stack: s.stack.update(at, s.stack.last()), ..s })
    } else {
        Outcome::Fault(RuntimeError::StackIndex)
    }
}

/// `CollapseRet(p)`: the innermost call ends, the top value lands in
/// argument slot `p` of that call, and everything above that slot is gone.
pub open spec fn collapse(p: Pointer, s: State) -> Outcome {
    if s.frames.len() == 0 {
        Outcome::Fault(RuntimeError::NoCallFrame)
    } else if s.stack.len() == 0 {
        Outcome::Fault(RuntimeError::EmptyStack)
    } else {
        let frame = s.frames.last();
        let rest = s.stack.drop_last();
        let at = arg_slot(frame, p);
        if in_stack(rest, at) {
            quiet(
                State {
                    pointer: frame.ip,
                    stack: rest.take(at).push(s.stack.last()),
                    frames: s.frames.drop_last(),
                },
            )
        } else {
            Outcome::Fault(RuntimeError::StackIndex)
        }
    }
}

/// What `inst` does in state `s`, whose pointer is already past `inst`.
pub open spec fn execute(inst: Inst, s: State) -> Outcome {
    match inst {
        Inst::Noop => quiet(s),
        Inst::Push(v) => quiet(State { stack: s.stack.push(v), ..s }),
        Inst::Pop => if s.stack.len() == 0 {
            Outcome::Fault(RuntimeError::EmptyStack)
        } else {
            quiet(State { stack: s.stack.drop_last(), ..s })
        },
        Inst::Add | Inst::Sub | Inst::Mul | Inst::Div => binary(inst, s),
        Inst::Incr => bump(1, s),
        Inst::Decr => bump(-1, s),
        Inst::Jump(target) => quiet(State { pointer: target, ..s }),
        Inst::JE(target)
        | Inst::JNE(target)
        | Inst::JGT(target)
        | Inst::JLT(target)
        | Inst::JGE(target)
        | Inst::JLE(target) => branch(inst, target, s),
        Inst::Get(i) => load(frame_base(s.frames) + i, s),
        Inst::Put(i) => store(frame_base(s.frames) + i, s),
        Inst::GetArg(i) => if s.frames.len() == 0 {
            Outcome::Fault(RuntimeError::NoCallFrame)
        } else {
            load(arg_slot(s.frames.last(), i), s)
        },
        Inst::SetArg(i) => if s.frames.len() == 0 {
            Outcome::Fault(RuntimeError::NoCallFrame)
        } else {
            store(arg_slot(s.frames.last(), i), s)
        },
        Inst::Print => if s.stack.len() == 0 {
            Outcome::Fault(RuntimeError::EmptyStack)
        } else {
            Outcome::Next(s, Some(Emitted::Int(s.stack.last())))
        },
        Inst::PrintC => if s.stack.len() == 0 {
            Outcome::Fault(RuntimeError::EmptyStack)
        } else {
            Outcome::Next(s, Some(Emitted::Char(s.stack.last() as u8)))
        },
        Inst::PrintStack => Outcome::Next(s, Some(Emitted::Stack(s.stack))),
        Inst::Call(target) => quiet(
            State {
                pointer: target,
                frames: s.frames.push(
                    StackFrame { stack_offset: s.stack.len() as usize, ip: s.pointer },
                ),
                ..s
            },
        ),
        Inst::Ret => if s.frames.len() == 0 {
            Outcome::Fault(RuntimeError::NoCallFrame)
        } else {
            quiet(State { pointer: s.frames.last().ip, frames: s.frames.drop_last(), ..s })
        },
        Inst::CollapseRet(p) => collapse(p, s),
    }
}

/// `s` with its pointer at `pointer`.
pub open spec fn at(s: State, pointer: int) -> State {
    State { pointer: pointer as usize, ..s }
}

/// One step of the machine: fetch, advance the pointer, execute.
pub open spec fn step(program: Seq<Inst>, s: State) -> Outcome {
    if s.pointer < program.len() {
        execute(program[s.pointer as int], at(s, s.pointer + 1))
    } else {
        Outcome::Halt
    }
}

/// How a run stands when control comes back to the caller.
#[derive(Debug, Clone, Copy, PartialEq, Eq, Structural)]
pub enum Status {
    /// The pointer left the program: the normal end.
    Halted,
    /// An instruction could not run. The machine stands before it.
    Failed(RuntimeError),
    /// The step budget ran out first. The machine can go on.
    Paused,
}

/// A run, as far as it went.
pub struct Trace {
    /// The machine at the end.
    pub state: State,
    /// Everything written, in order.
    pub output: Seq<Emitted>,
    /// Why the run went no further.
    pub status: Status,
}

/// What one instruction wrote, as a piece of output.
pub open spec fn piece(e: Option<Emitted>) -> Seq<Emitted> {
    match e {
        Some(x) => seq![x],
        None => Seq::empty(),
    }
}

/// `t` with `head` written before its own output.
pub open spec fn after(head: Seq<Emitted>, t: Trace) -> Trace {
    Trace { output: head + t.output, ..t }
}

/// The run of `program` from `s` that executes at most `budget`
/// instructions. Seeing that the pointer has left the program costs
/// nothing; finding that an instruction cannot run costs one.
pub open spec fn run(program: Seq<Inst>, s: State, budget: nat) -> Trace
    decreases budget,
{
    match step(program, s) {
        Outcome::Halt => Trace { state: s, output: Seq::empty(), status: Status::Halted },
        Outcome::Fault(err) => if budget == 0 {
            Trace { state: s, output: Seq::empty(), status: Status::Paused }
        } else {
            Trace { state: s, output: Seq::empty(), status: Status::Failed(err) }
        },
        Outcome::Next(t, e) => if budget == 0 {
            Trace { state: s, output: Seq::empty(), status: Status::Paused }
        } else {
            after(piece(e), run(program, t, (budget - 1) as nat))
        },
    }
}

} // verus!
