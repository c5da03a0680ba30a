//! The executable machine.

use crate::inst::{Inst, Pointer};
use crate::model::{
    after, at, binary, branch, bump, collapse, frame_base, load, piece, run, step, store, Emitted,
    Outcome, RuntimeError, State, Status, Trace,
};
use crate::stack::{Stack, StackFrame};
use vstd::prelude::*;

verus! {

/// The call stack, innermost call last.
pub type CallStack = Vec<StackFrame>;

/// Something for the output sink. The machine decides what is written; the
/// caller does the writing.
#[derive(Debug, PartialEq, Eq)]
pub enum Output {
    /// Write this value as a signed integer.
    Int(isize),
    /// Write the character with this code.
    Char(u8),
    /// Write the whole stack, bottom first.
    Stack(Vec<isize>),
}

impl View for Output {
    type V = Emitted;

    open spec fn view(&self) -> Emitted {
        match self {
            Output::Int(v) => Emitted::Int(*v),
            Output::Char(c) => Emitted::Char(*c),
            Output::Stack(v) => Emitted::Stack(v@),
        }
    }
}

/// What a step that did not fail has done.
#[derive(Debug, PartialEq, Eq)]
pub enum Event {
    /// There was no instruction to fetch. The machine is as it was.
    Halted,
    /// One instruction ran, and wrote this.
    Ran(Option<Output>),
}

/// The model's view of what an instruction wrote.
pub open spec fn written(out: Option<Output>) -> Option<Emitted> {
    match out {
        Some(o) => Some(o@),
        None => None,
    }
}

/// Whether a step from `before` to `after` with result `r` is the step that
/// the model calls `outcome`. A step that fails or halts leaves the machine
/// as it was.
pub open spec fn agrees(
    before: State,
    after: State,
    r: Result<Event, RuntimeError>,
    outcome: Outcome,
) -> bool {
    match outcome {
        Outcome::Halt => r matches Ok(Event::Halted) && after == before,
        Outcome::Next(s, e) => r matches Ok(Event::Ran(out)) && written(out) == e && after == s,
        Outcome::Fault(err) => r == Err::<Event, RuntimeError>(err) && after == before,
    }
}

/// A stack machine between two instructions.
#[derive(Debug)]
pub struct Machine {
    /// Address of the next instruction.
    pub pointer: Pointer,
    /// The operand stack.
    pub stack: Stack,
    /// The calls in progress.
    pub call_stack: CallStack,
}

impl View for Machine {
    type V = State;

    open spec fn view(&self) -> State {
        State { pointer: self.pointer, stack: self.stack@, frames: self.call_stack@ }
    }
}

/// The model's view of a transcript.
pub open spec fn transcript(out: Seq<Output>) -> Seq<Emitted> {
    out.map_values(|o: Output| o@)
}

/// A finished or interrupted run.
#[derive(Debug)]
pub struct Run {
    /// The machine as the run left it.
    pub machine: Machine,
    /// Everything the run wrote, in order.
    pub output: Vec<Output>,
    /// Why the run went no further.
    pub status: Status,
}

impl View for Run {
    type V = Trace;

    open spec fn view(&self) -> Trace {
        Trace { state: self.machine@, output: transcript(self.output@), status: self.status }
    }
}

proof fn lemma_zero_quotient(d: int)
    requires
        d != 0,
    ensures
        0int / d == 0,
{
    assert(0int / d == 0) by (nonlinear_arith)
        requires
            d != 0,
    ;
}

impl Machine {
    /// A machine at address 0 with both stacks empty.
    pub fn new() -> (m: Machine)
        ensures
            m@ == State::initial(),
    {
        Machine { pointer: 0, stack: Stack(Vec::new()), call_stack: Vec::new() }
    }

    /// `Add`, `Sub`, `Mul`, `Div`.
    fn binary(&mut self, inst: Inst, next: Pointer) -> (r: Result<Event, RuntimeError>)
        requires
            inst == Inst::Add || inst == Inst::Sub || inst == Inst::Mul || inst == Inst::Div,
        ensures
            agrees(old(self)@, final(self)@, r, binary(inst, at(old(self)@, next as int))),
    {
        let n = self.stack.0.len();
        if n < 2 {
            return Err(RuntimeError::EmptyStack);
        }
        let a = self.stack.0[n - 1];
        let b = self.stack.0[n - 2];
        let value = match inst {
            Inst::Add => a.checked_add(b),
            Inst::Sub => b.checked_sub(a),
            Inst::Mul => a.checked_mul(b),
            _ => {
                if a == 0 {
                    return Err(RuntimeError::DivisionByZero);
                }
                proof {
                    lemma_zero_quotient(a as int);
                    lemma_zero_quotient(-(a as int));
                }
                b.checked_div(a)
            },
        };
        match value {
            Some(v) => {
                self.stack.0.truncate(n - 2);
                self.stack.push(v);
                self.pointer = next;
                Ok(Event::Ran(None))
            },
            None => Err(RuntimeError::Overflow),
        }
    }

    /// `Incr` and `Decr`: `by` is 1 or -1.
    fn bump(&mut self, by: isize, next: Pointer) -> (r: Result<Event, RuntimeError>)
        ensures
            agrees(old(self)@, final(self)@, r, bump(by as int, at(old(self)@, next as int))),
    {
        if self.stack.0.len() == 0 {
            return Err(RuntimeError::EmptyStack);
        }
        match self.stack.peek().checked_add(by) {
            Some(v) => {
                let top = self.stack.peek_mut();
                *top = v;
                self.pointer = next;
                Ok(Event::Ran(None))
            },
            None => Err(RuntimeError::Overflow),
        }
    }

    /// The six conditional jumps.
    fn branch(&mut self, inst: Inst, target: Pointer, next: Pointer) -> (r: Result<
        Event,
        RuntimeError,
    >)
        ensures
            agrees(old(self)@, final(self)@, r, branch(inst, target, at(old(self)@, next as int))),
    {
        if self.stack.0.len() == 0 {
            return Err(RuntimeError::EmptyStack);
        }
        let top = self.stack.peek();
        let jump = match inst {
            Inst::JE(_) => top == 0,
            Inst::JNE(_) => top != 0,
            Inst::JGT(_) => top > 0,
            Inst::JLT(_) => top < 0,
            Inst::JGE(_) => top >= 0,
            Inst::JLE(_) => top <= 0,
            _ => false,
        };
        if jump {
            self.stack.pop();
            self.pointer = target;
        } else {
            self.pointer = next;
        }
        Ok(Event::Ran(None))
    }

    /// Index of slot `i` of the current frame.
    fn local_slot(&self, i: Pointer) -> (slot: i128)
        ensures
            slot == frame_base(self@.frames) + i,
    {
        let depth = self.call_stack.len();
        if depth == 0 {
            i as i128
        } else {
            self.call_stack[depth - 1].stack_offset as i128 + i as i128
        }
    }

    /// `Get` and `GetArg`, on the slot they name.
    fn load(&mut self, slot: i128, next: Pointer) -> (r: Result<Event, RuntimeError>)
        ensures
            agrees(old(self)@, final(self)@, r, load(slot as int, at(old(self)@, next as int))),
    {
        if slot < 0 || slot >= self.stack.0.len() as i128 {
            return Err(RuntimeError::StackIndex);
        }
        let v = self.stack.0[slot as usize];
        self.stack.push(v);
        self.pointer = next;
        Ok(Event::Ran(None))
    }

    /// `Set` and `SetArg`, on the slot they name.
    fn store(&mut self, slot: i128, next: Pointer) -> (r: Result<Event, RuntimeError>)
        ensures
            agrees(old(self)@, final(self)@, r, store(slot as int, at(old(self)@, next as int))),
    {
        if self.stack.0.len() == 0 {
            return Err(RuntimeError::EmptyStack);
        }
        if slot < 0 || slot >= self.stack.0.len() as i128 {
            return Err(RuntimeError::StackIndex);
        }
        let v = self.stack.peek();
        self.stack.0[slot as usize] = v;
        self.pointer = next;
        Ok(Event::Ran(None))
    }

    /// `CollapseRet`.
    fn collapse(&mut self, p: Pointer, next: Pointer) -> (r: Result<Event, RuntimeError>)
        ensures
            agrees(old(self)@, final(self)@, r, collapse(p, at(old(self)@, next as int))),
    {
        let depth = self.call_stack.len();
        if depth == 0 {
            return Err(RuntimeError::NoCallFrame);
        }
        let n = self.stack.0.len();
        if n == 0 {
            return Err(RuntimeError::EmptyStack);
        }
        let frame = self.call_stack[depth - 1];
        let slot = frame.stack_offset as i128 - 1 - p as i128;
        if slot < 0 || slot >= (n - 1) as i128 {
            return Err(RuntimeError::StackIndex);
        }
        let slot = slot as usize;
        let v = self.stack.pop();
        self.stack.0[slot] = v;
        self.stack.0.truncate(slot + 1);
        self.call_stack.truncate(depth - 1);
        self.pointer = frame.ip;
        assert(self.stack@ =~= old(self).stack@.drop_last().take(slot as int).push(v));
        Ok(Event::Ran(None))
    }

    /// Runs the instruction at the pointer, if there is one.
    ///
    /// The result and the machine afterwards are those of [`step`] in the
    /// model: `Ok(Event::Halted)` with the machine untouched when the pointer
    /// is past the end of `program`; `Ok(Event::Ran(..))` with what was
    /// written when the instruction ran; `Err(..)` with the machine untouched
    /// when it could not run.
    pub fn step(&mut self, program: &[Inst]) -> (r: Result<Event, RuntimeError>)
        ensures
            agrees(old(self)@, final(self)@, r, step(program@, old(self)@)),
    {
        if self.pointer >= program.len() {
            return Ok(Event::Halted);
        }
        let inst = program[self.pointer];
        let next = self.pointer + 1;
        match inst {
            Inst::Noop => {
                self.pointer = next;
                Ok(Event::Ran(None))
            },
            Inst::Push(v) => {
                self.stack.push(v);
                self.pointer = next;
                Ok(Event::Ran(None))
            },
            Inst::Pop => {
                if self.stack.0.len() == 0 {
                    return Err(RuntimeError::EmptyStack);
                }
                self.stack.pop();
                self.pointer = next;
                Ok(Event::Ran(None))
            },
            Inst::Add | Inst::Sub | Inst::Mul | Inst::Div => self.binary(inst, next),
            Inst::Incr => self.bump(1, next),
            Inst::Decr => self.bump(-1, next),
            Inst::Jump(target) => {
                self.pointer = target;
                Ok(Event::Ran(None))
            },
            Inst::JE(target)
            | Inst::JNE(target)
            | Inst::JGT(target)
            | Inst::JLT(target)
            | Inst::JGE(target)
            | Inst::JLE(target) => self.branch(inst, target, next),
            Inst::Get(i) => {
                let slot = self.local_slot(i);
                self.load(slot, next)
            },
            Inst::Put(i) => {
                let slot = self.local_slot(i);
                self.store(slot, next)
            },
            Inst::GetArg(i) => {
                let depth = self.call_stack.len();
                if depth == 0 {
                    return Err(RuntimeError::NoCallFrame);
                }
                let slot = self.call_stack[depth - 1].stack_offset as i128 - 1 - i as i128;
                self.load(slot, next)
            },
            Inst::SetArg(i) => {
                let depth = self.call_stack.len();
                if depth == 0 {
                    return Err(RuntimeError::NoCallFrame);
                }
                let slot = self.call_stack[depth - 1].stack_offset as i128 - 1 - i as i128;
                self.store(slot, next)
            },
            Inst::Print => {
                if self.stack.0.len() == 0 {
                    return Err(RuntimeError::EmptyStack);
                }
                let top = self.stack.peek();
                self.pointer = next;
                Ok(Event::Ran(Some(Output::Int(top))))
            },
            Inst::PrintC => {
                if self.stack.0.len() == 0 {
                    return Err(RuntimeError::EmptyStack);
                }
                let top = self.stack.peek();
                self.pointer = next;
                Ok(Event::Ran(Some(Output::Char(#[verifier::truncate] (top as u8)))))
            },
            Inst::PrintStack => {
                let copy = self.stack.0.clone();
                self.pointer = next;
                Ok(Event::Ran(Some(Output::Stack(copy))))
            },
            Inst::Call(target) => {
                self.call_stack.push(StackFrame { stack_offset: self.stack.0.len(), ip: next });
                self.pointer = target;
                Ok(Event::Ran(None))
            },
            Inst::Ret => {
                let depth = self.call_stack.len();
                if depth == 0 {
                    return Err(RuntimeError::NoCallFrame);
                }
                self.pointer = self.call_stack[depth - 1].ip;
                self.call_stack.truncate(depth - 1);
                Ok(Event::Ran(None))
            },
            Inst::CollapseRet(p) => self.collapse(p, next),
        }
    }

    /// Runs up to `budget` instructions from where the machine stands, and
    /// returns what they wrote and why the run went no further: the run
    /// that the model calls [`run`].
    pub fn run(&mut self, program: &[Inst], budget: usize) -> (r: (Vec<Output>, Status))
        ensures
            run(program@, old(self)@, budget as nat) == (Trace {
                state: final(self)@,
                output: transcript(r.0@),
                status: r.1,
            }),
    {
        let ghost whole = run(program@, self@, budget as nat);
        let mut out: Vec<Output> = Vec::new();
        let mut left = budget;
        assert(transcript(out@) + run(program@, self@, left as nat).output =~= whole.output);
        while left > 0
            invariant
                whole == run(program@, old(self)@, budget as nat),
                whole == after(transcript(out@), run(program@, self@, left as nat)),
            decreases left,
        {
            let ghost seen = transcript(out@);
            match self.step(program) {
                Ok(Event::Halted) => {
                    assert(transcript(out@) + Seq::<Emitted>::empty() =~= transcript(out@));
                    return (out, Status::Halted);
                },
                Err(err) => {
                    assert(transcript(out@) + Seq::<Emitted>::empty() =~= transcript(out@));
                    return (out, Status::Failed(err));
                },
                Ok(Event::Ran(wrote)) => {
                    left = left - 1;
                    let ghost rest = run(program@, self@, left as nat);
                    if let Some(o) = wrote {
                        out.push(o);
                        assert(transcript(out@) =~= seen + piece(written(wrote)));
                    } else {
                        assert(transcript(out@) =~= seen + piece(written(wrote)));
                    }
                    assert((seen + piece(written(wrote))) + rest.output =~= seen + (piece(
                        written(wrote),
                    ) + rest.output));
                },
            }
        }
        assert(transcript(out@) + Seq::<Emitted>::empty() =~= transcript(out@));
        if self.pointer >= program.len() {
            (out, Status::Halted)
        } else {
            (out, Status::Paused)
        }
    }
}

/// Runs `program` from the start for up to `budget` instructions.
///
/// The result is the model's [`run`] from [`State::initial`]: the machine
/// at the end, what was written, and whether the program halted, failed or
/// was still running when the budget ran out.
pub fn interpret(program: &[Inst], budget: usize) -> (r: Run)
    ensures
        r@ == run(program@, State::initial(), budget as nat),
{
    let mut machine = Machine::new();
    let (output, status) = machine.run(program, budget);
    Run { machine, output, status }
}

} // verus!
