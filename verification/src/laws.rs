//! Laws of the machine and of the translator, proved from their models.

use crate::grammar::{
    is_call, labels, lemma_compile_call, lemma_compile_proc, lemma_procedures_sound, next_end,
    proc_of, procedures, sound, translates, Rejection, Source,
};
use crate::inst::{Inst, Pointer};
use crate::model::{
    after, arg_slot, arith, at, fits, piece, quiet, run, step, taken, Emitted, Outcome,
    RuntimeError, State, Status,
};
use crate::stack::StackFrame;
use vstd::prelude::*;

verus! {

/// A run that the budget interrupted can be taken up where it stands: a run
/// with a larger budget is the run with the smaller one, followed, if that
/// one was only paused, by a run from where it stopped with the rest of the
/// budget. A run that halted or failed is final.
pub proof fn law_run_resumes(program: Seq<Inst>, s: State, first: nat, more: nat)
    ensures
        ({
            let t = run(program, s, first);
            run(program, s, first + more) == if t.status == Status::Paused {
                after(t.output, run(program, t.state, more))
            } else {
                t
            }
        }),
    decreases first,
{
    let t = run(program, s, first);
    let whole = run(program, s, first + more);
    match step(program, s) {
        Outcome::Next(next, e) => {
            if first == 0 {
                assert(t.output + whole.output =~= whole.output);
            } else {
                law_run_resumes(program, next, (first - 1) as nat, more);
                let inner = run(program, next, (first - 1) as nat);
                if inner.status == Status::Paused {
                    let rest = run(program, inner.state, more);
                    assert(piece(e) + (inner.output + rest.output) =~= (piece(e) + inner.output)
                        + rest.output);
                }
            }
        },
        Outcome::Fault(err) => {
            if first == 0 {
                assert(t.output + whole.output =~= whole.output);
            }
        },
        Outcome::Halt => {},
    }
}

/// Whether `inst` is `Push` or one of the four arithmetic instructions.
pub open spec fn is_arithmetic(inst: Inst) -> bool {
    inst is Push || inst == Inst::Add || inst == Inst::Sub || inst == Inst::Mul || inst
        == Inst::Div
}

/// Left-to-right evaluation of `program` from position `k` on `stack`, by
/// the rules of arithmetic alone: a literal is pushed; an operator replaces
/// the two topmost values `b` (below) and `a` (on top) by `a + b`, `b - a`,
/// `a * b`, or `b / a` rounded toward zero. The evaluation fails where an
/// operand is missing, a divisor is zero, or a result fits no stack slot.
pub open spec fn evaluate(program: Seq<Inst>, k: int, stack: Seq<isize>) -> Result<
    Seq<isize>,
    RuntimeError,
>
    decreases program.len() - k,
{
    if k < 0 || k >= program.len() {
        Ok(stack)
    } else if let Inst::Push(v) = program[k] {
        evaluate(program, k + 1, stack.push(v))
    } else if stack.len() < 2 {
        Err(RuntimeError::EmptyStack)
    } else {
        let a = stack[stack.len() - 1] as int;
        let b = stack[stack.len() - 2] as int;
        if program[k] == Inst::Div && a == 0 {
            Err(RuntimeError::DivisionByZero)
        } else if fits(arith(program[k], b, a)) {
            evaluate(
                program,
                k + 1,
                stack.take(stack.len() - 2).push(arith(program[k], b, a) as isize),
            )
        } else {
            Err(RuntimeError::Overflow)
        }
    }
}

proof fn lemma_straight_line(program: Seq<Inst>, k: int, stack: Seq<isize>, budget: nat)
    requires
        forall|i: int| 0 <= i < program.len() ==> is_arithmetic(#[trigger] program[i]),
        0 <= k <= program.len() <= usize::MAX,
        budget > program.len() - k,
    ensures
        ({
            let t = run(program, State { pointer: k as usize, stack, frames: Seq::empty() }, budget);
            match evaluate(program, k, stack) {
                Ok(result) => t.status == Status::Halted && t.state.stack == result
                    && t.state.pointer == program.len() && t.output == Seq::<Emitted>::empty(),
                Err(err) => t.status == Status::Failed(err) && t.output == Seq::<Emitted>::empty(),
            }
        }),
    decreases program.len() - k,
{
    let s = State { pointer: k as usize, stack, frames: Seq::empty() };
    if k < program.len() {
        assert(is_arithmetic(program[k]));
        match step(program, s) {
            Outcome::Next(next, e) => {
                lemma_straight_line(program, k + 1, next.stack, (budget - 1) as nat);
                let rest = run(program, next, (budget - 1) as nat);
                assert(Seq::<Emitted>::empty() + rest.output =~= rest.output);
            },
            _ => {},
        }
    }
}

/// A program of `Push`, `Add`, `Sub`, `Mul` and `Div` alone runs straight
/// through, and leaves on the stack what left-to-right evaluation gives:
/// the run halts with that stack and has written nothing, or it fails
/// where, and as, the evaluation fails.
pub proof fn law_arithmetic(program: Seq<Inst>, budget: nat)
    requires
        forall|i: int| 0 <= i < program.len() ==> is_arithmetic(#[trigger] program[i]),
        program.len() <= usize::MAX,
        budget > program.len(),
    ensures
        ({
            let t = run(program, State::initial(), budget);
            match evaluate(program, 0, Seq::empty()) {
                Ok(result) => t.status == Status::Halted && t.state.stack == result
                    && t.output == Seq::<Emitted>::empty(),
                Err(err) => t.status == Status::Failed(err),
            }
        }),
{
    lemma_straight_line(program, 0, Seq::empty(), budget);
}

/// `Incr` then `Decr` leaves the stack as it was, depth and values: the
/// pair runs exactly where the stack is not empty and its top is not
/// the largest value a slot can hold.
pub proof fn law_incr_decr(program: Seq<Inst>, s: State)
    requires
        s.pointer + 1 < program.len() <= usize::MAX,
        program[s.pointer as int] == Inst::Incr,
        program[s.pointer + 1] == Inst::Decr,
    ensures
        match step(program, s) {
            Outcome::Next(t, e) => s.stack.len() > 0 && s.stack.last() < isize::MAX && e is None
                && step(program, t) == quiet(at(s, s.pointer + 2)),
            Outcome::Fault(err) => s.stack.len() == 0 || s.stack.last() == isize::MAX,
            Outcome::Halt => false,
        },
{
    match step(program, s) {
        Outcome::Next(t, e) => {
            assert(t.stack.drop_last() =~= s.stack.drop_last());
            assert(s.stack.drop_last().push(s.stack.last()) =~= s.stack);
        },
        _ => {},
    }
}

/// `Decr` then `Incr` leaves the stack as it was, depth and values: the
/// pair runs exactly where the stack is not empty and its top is not
/// the smallest value a slot can hold.
pub proof fn law_decr_incr(program: Seq<Inst>, s: State)
    requires
        s.pointer + 1 < program.len() <= usize::MAX,
        program[s.pointer as int] == Inst::Decr,
        program[s.pointer + 1] == Inst::Incr,
    ensures
        match step(program, s) {
            Outcome::Next(t, e) => s.stack.len() > 0 && s.stack.last() > isize::MIN && e is None
                && step(program, t) == quiet(at(s, s.pointer + 2)),
            Outcome::Fault(err) => s.stack.len() == 0 || s.stack.last() == isize::MIN,
            Outcome::Halt => false,
        },
{
    match step(program, s) {
        Outcome::Next(t, e) => {
            assert(t.stack.drop_last() =~= s.stack.drop_last());
            assert(s.stack.drop_last().push(s.stack.last()) =~= s.stack);
        },
        _ => {},
    }
}

/// The address that a conditional jump goes to, if `inst` is one.
pub open spec fn conditional_target(inst: Inst) -> Option<Pointer> {
    match inst {
        Inst::JE(target)
        | Inst::JNE(target)
        | Inst::JGT(target)
        | Inst::JLT(target)
        | Inst::JGE(target)
        | Inst::JLE(target) => Some(target),
        _ => None,
    }
}

/// A conditional jump on a stack that is not empty takes the top value off
/// if and only if its condition holds of that value: taken, it leaves the
/// stack one shorter and goes to its target; not taken, it leaves the
/// stack as it was and goes on to the next instruction. On an empty stack
/// it fails.
pub proof fn law_conditional_jump(program: Seq<Inst>, s: State)
    requires
        s.pointer < program.len() <= usize::MAX,
        conditional_target(program[s.pointer as int]) is Some,
    ensures
        ({
            let inst = program[s.pointer as int];
            let target = conditional_target(inst)->0;
            match step(program, s) {
                Outcome::Next(t, e) => {
                    &&& s.stack.len() > 0
                    &&& e is None
                    &&& t.frames == s.frames
                    &&& taken(inst, s.stack.last() as int) <==> t.stack.len() == s.stack.len() - 1
                    &&& taken(inst, s.stack.last() as int) ==> t.stack == s.stack.drop_last()
                        && t.pointer == target
                    &&& !taken(inst, s.stack.last() as int) ==> t.stack == s.stack && t.pointer
                        == s.pointer + 1
                },
                Outcome::Fault(err) => s.stack.len() == 0 && err == RuntimeError::EmptyStack,
                Outcome::Halt => false,
            }
        }),
{
}

/// `Call` records where it came from, and `Ret` goes back there: whatever
/// the callee has made of the operand stack by the time it reaches `Ret`
/// with the call stack as the call left it, `Ret` resumes just after the
/// `Call`, drops the call's frame and leaves the operand stack alone.
pub proof fn law_call_ret(program: Seq<Inst>, s: State, callee: State)
    requires
        s.well_formed(),
        s.pointer < program.len() <= usize::MAX,
        program[s.pointer as int] is Call,
        step(program, s) matches Outcome::Next(entered, _) && callee.frames == entered.frames,
        callee.pointer < program.len(),
        program[callee.pointer as int] == Inst::Ret,
    ensures
        step(program, s) == quiet(
            State {
                pointer: program[s.pointer as int]->Call_0,
                stack: s.stack,
                frames: s.frames.push(
                    StackFrame { stack_offset: s.stack.len() as usize, ip: (s.pointer + 1) as usize },
                ),
            },
        ),
        step(program, callee) == quiet(
            State { pointer: (s.pointer + 1) as usize, stack: callee.stack, frames: s.frames },
        ),
{
    let frame = StackFrame { stack_offset: s.stack.len() as usize, ip: (s.pointer + 1) as usize };
    assert(s.frames.push(frame).drop_last() =~= s.frames);
}

/// `Call` then `CollapseRet(p)`: where the callee reaches `CollapseRet(p)`
/// with the call stack as the call left it, the stack afterwards holds
/// exactly as many values as it held at the call, less `p`; the last of
/// them is the value that was on top, the callee's result, and those below
/// it are untouched. Control resumes just after the `Call`. This happens
/// exactly where there is a value to return and the call had more than `p`
/// arguments below it; elsewhere the instruction fails.
pub proof fn law_call_collapse(program: Seq<Inst>, s: State, callee: State, p: Pointer)
    requires
        s.well_formed(),
        s.pointer < program.len() <= usize::MAX,
        program[s.pointer as int] is Call,
        step(program, s) matches Outcome::Next(entered, _) && callee.frames == entered.frames,
        callee.pointer < program.len(),
        program[callee.pointer as int] == Inst::CollapseRet(p),
    ensures
        match step(program, callee) {
            Outcome::Next(t, e) => {
                &&& callee.stack.len() > 0
                &&& p < s.stack.len() <= callee.stack.len() - 1 + p
                &&& e is None
                &&& t.stack.len() == s.stack.len() - p
                &&& t.stack.last() == callee.stack.last()
                &&& t.stack.drop_last() == callee.stack.take(s.stack.len() - p - 1)
                &&& t.pointer == s.pointer + 1
                &&& t.frames == s.frames
            },
            Outcome::Fault(err) => callee.stack.len() == 0 || p >= s.stack.len() || s.stack.len()
                > callee.stack.len() - 1 + p,
            Outcome::Halt => false,
        },
{
    let frame = StackFrame { stack_offset: s.stack.len() as usize, ip: (s.pointer + 1) as usize };
    assert(callee.frames == s.frames.push(frame));
    assert(s.frames.push(frame).drop_last() =~= s.frames);
    match step(program, callee) {
        Outcome::Next(t, e) => {
            let slot = arg_slot(frame, p);
            let rest = callee.stack.drop_last();
            assert(t.stack == rest.take(slot).push(callee.stack.last()));
            assert(t.stack.drop_last() =~= callee.stack.take(slot));
        },
        _ => {},
    }
}

/// A procedure that is reached by falling into its `Proc` line is skipped
/// whole: in a translated program, the instruction at the `Proc` line of a
/// recorded procedure goes straight to the address just past the matching
/// `End`, the first bare `End` after that line, and touches neither stack.
pub proof fn law_guard_skips_body(
    text: Source,
    program: Seq<Inst>,
    name: Seq<char>,
    s: State,
)
    requires
        text.len() <= usize::MAX,
        translates(text, Ok::<Seq<Inst>, Rejection>(program)),
        procedures(text) matches Ok(table) && table.contains_key(name) && s.pointer == table[name].0,
    ensures
        ({
            let entry = procedures(text)->Ok_0[name];
            &&& entry.0 < entry.1 <= program.len()
            &&& proc_of(text[entry.0 as int]) == Some(name)
            &&& next_end(text, entry.0 as int) == Some(entry.1 - 1)
            &&& step(program, s) == quiet(at(s, entry.1 as int))
        }),
{
    let table = procedures(text)->Ok_0;
    lemma_procedures_sound(text);
    assert(table.contains_key(name));
    let entry = table[name];
    lemma_compile_proc(text[entry.0 as int], labels(text), table);
}

/// A procedure that is reached by `Call` starts at its first body
/// instruction: in a translated program, the instruction at a line
/// `Call <name>` goes to the address just past the `Proc` line of the
/// procedure recorded under that name, the guard being passed over, and
/// leaves a frame that holds the depth of the stack and the address just
/// after the call.
pub proof fn law_call_enters_body(text: Source, program: Seq<Inst>, s: State)
    requires
        text.len() <= usize::MAX,
        translates(text, Ok::<Seq<Inst>, Rejection>(program)),
        s.well_formed(),
        s.pointer < text.len(),
        is_call(text[s.pointer as int]),
    ensures
        ({
            let name = text[s.pointer as int][1];
            &&& procedures(text) matches Ok(table) && table.contains_key(name) && sound(
                text,
                table,
            )
            &&& step(program, s) == quiet(
                State {
                    pointer: (procedures(text)->Ok_0[name].0 + 1) as usize,
                    stack: s.stack,
                    frames: s.frames.push(
                        StackFrame {
                            stack_offset: s.stack.len() as usize,
                            ip: (s.pointer + 1) as usize,
                        },
                    ),
                },
            )
        }),
{
    let table = procedures(text)->Ok_0;
    lemma_procedures_sound(text);
    lemma_compile_call(text[s.pointer as int], labels(text), table);
}

} // verus!
