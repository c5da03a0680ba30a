//! The translator: from token lines to resolved instructions.

use crate::grammar::{
    code, compile, ignored, indexed, is_end, jump, label_of, labels, labels_upto, lemma_next_end,
    next_end, nullary, proc_of, procedures, scan, translates, unary, Line, Rejection,
    TranslateError,
};
use crate::inst::{Inst, Pointer};
use crate::lexer::{tokenize, tokens};
use crate::symbols::{Labels, Procedures};
use crate::text::{parse_index, parse_int, same};
use vstd::prelude::*;
use vstd::slice::slice_to_vec;

verus! {

/// Whether `line` carries no instruction: it is blank or a comment.
pub fn is_ignored(line: &[&str]) -> (r: bool)
    ensures
        r == ignored(line.deep_view()),
{
    line.len() == 0 || same(line[0], "--")
}

/// Copies the lines that carry an instruction, in their order. Addresses
/// are counted over what is left.
pub fn code_lines<'a>(lines: &[Vec<&'a str>]) -> (kept: Vec<Vec<&'a str>>)
    ensures
        kept.deep_view() == code(lines.deep_view()),
{
    let ghost text = lines.deep_view();
    let ghost keep = |line: Line| !ignored(line);
    let mut kept: Vec<Vec<&'a str>> = Vec::new();
    let mut i: usize = 0;
    proof {
        reveal(Seq::filter);
        assert(text.take(0) =~= Seq::<Line>::empty());
        assert(kept.deep_view() =~= text.take(0).filter(keep));
    }
    while i < lines.len()
        invariant
            text == lines.deep_view(),
            keep == (|line: Line| !ignored(line)),
            i <= lines@.len(),
            kept.deep_view() == text.take(i as int).filter(keep),
        decreases lines@.len() - i,
    {
        let line = lines[i].as_slice();
        let ghost before = kept.deep_view();
        proof {
            reveal(Seq::filter);
            assert(line.deep_view() =~= text[i as int]);
            assert(text.take(i + 1).drop_last() =~= text.take(i as int));
        }
        if !is_ignored(line) {
            let copy = slice_to_vec(line);
            assert(copy.deep_view() =~= text[i as int]);
            kept.push(copy);
            assert(kept.deep_view() =~= before.push(text[i as int]));
        }
        i += 1;
    }
    assert(text.take(i as int) =~= text);
    kept
}

/// A label and the position of the line that declares it.
pub type Label<'a> = (&'a str, Pointer);

/// The label that line `s` declares, paired with `i`, the position of `s`.
/// Only a line of exactly `label` and a name declares one.
pub fn find_label<'a>(i: Pointer, s: &'a [&'a str]) -> (r: Option<Label<'a>>)
    ensures
        match r {
            Some(found) => label_of(s.deep_view()) == Some(found.0@) && found.1 == i,
            None => label_of(s.deep_view()) is None,
        },
{
    if s.len() == 2 && same(s[0], "label") {
        Some((s[1], i))
    } else {
        None
    }
}

/// The label table of `lines`: every declared label with the position of
/// its declaration, the last one where a label is declared twice.
pub fn collect_labels<'a>(lines: &'a [Vec<&'a str>]) -> (table: Labels<'a>)
    ensures
        table@ == labels(lines.deep_view()),
{
    let mut table = Labels::new();
    let mut i: usize = 0;
    while i < lines.len()
        invariant
            i <= lines@.len(),
            table@ == labels_upto(lines.deep_view(), i as int),
        decreases lines@.len() - i,
    {
        let line = lines[i].as_slice();
        assert(line.deep_view() =~= lines.deep_view()[i as int]);
        if let Some(found) = find_label(i, line) {
            table.insert(found.0, found.1);
        }
        i += 1;
    }
    table
}

/// The procedure that `line` opens, if it is `Proc` and a name.
fn opens<'a>(line: &'a [&'a str]) -> (r: Option<&'a str>)
    ensures
        match r {
            Some(name) => proc_of(line.deep_view()) == Some(name@),
            None => proc_of(line.deep_view()) is None,
        },
{
    if line.len() == 2 && same(line[0], "Proc") {
        Some(line[1])
    } else {
        None
    }
}

/// Whether `line` is a bare `End`.
fn closes(line: &[&str]) -> (r: bool)
    ensures
        r == is_end(line.deep_view()),
{
    line.len() == 1 && same(line[0], "End")
}

/// Finds the procedures of `lines`.
///
/// The result is the table that [`procedures`] describes: each `Proc` line
/// outside a procedure, with its position and the position just past the
/// next bare `End`. A `Proc` line that no `End` follows rejects the program
/// at that line.
pub fn find_procedures<'a>(lines: &'a [Vec<&'a str>]) -> (r: Result<Procedures<'a>, Rejection>)
    ensures
        match r {
            Ok(table) => procedures(lines.deep_view()) == Ok::<
                Map<Seq<char>, (Pointer, Pointer)>,
                Pointer,
            >(table@),
            Err(rejection) => rejection.error == TranslateError::UnterminatedProcedure
                && procedures(lines.deep_view()) == Err::<
                Map<Seq<char>, (Pointer, Pointer)>,
                Pointer,
            >(rejection.line),
        },
{
    let ghost text = lines.deep_view();
    let mut ip: usize = 0;
    let mut res = Procedures::new();
    while ip < lines.len()
        invariant
            text == lines.deep_view(),
            ip <= lines@.len(),
            procedures(text) == scan(text, ip as int, res@),
        decreases lines@.len() - ip,
    {
        let line = lines[ip].as_slice();
        assert(line.deep_view() =~= text[ip as int]);
        if let Some(proc_name) = opens(line) {
            let start_ip = ip;
            while ip < lines.len() && !closes(lines[ip].as_slice())
                invariant
                    text == lines.deep_view(),
                    start_ip <= ip <= lines@.len(),
                    next_end(text, start_ip as int) == next_end(text, ip as int),
                    ip < lines@.len() ==> lines@[ip as int].deep_view() == text[ip as int],
                decreases lines@.len() - ip,
            {
                ip += 1;
                assert(ip < lines@.len() ==> lines@[ip as int].deep_view() =~= text[ip as int]);
            }
            if ip == lines.len() {
                return Err(
                    Rejection { line: start_ip, error: TranslateError::UnterminatedProcedure },
                );
            }
            proof {
                lemma_next_end(text, start_ip as int);
            }
            res.insert(proc_name, start_ip, ip + 1);
            ip += 1;
        } else {
            ip += 1;
        }
    }
    Ok(res)
}

/// The instruction for the one-token line `op`.
fn opcode(op: &str) -> (r: Option<Inst>)
    ensures
        r == nullary(op@),
{
    if same(op, "Pop") {
        Some(Inst::Pop)
    } else if same(op, "Add") {
        Some(Inst::Add)
    } else if same(op, "Sub") {
        Some(Inst::Sub)
    } else if same(op, "Mul") {
        Some(Inst::Mul)
    } else if same(op, "Div") {
        Some(Inst::Div)
    } else if same(op, "Incr") {
        Some(Inst::Incr)
    } else if same(op, "Decr") {
        Some(Inst::Decr)
    } else if same(op, "Print") {
        Some(Inst::Print)
    } else if same(op, "PrintC") {
        Some(Inst::PrintC)
    } else if same(op, "PrintStack") {
        Some(Inst::PrintStack)
    } else if same(op, "Ret") {
        Some(Inst::Ret)
    } else if same(op, "End") {
        Some(Inst::Noop)
    } else {
        None
    }
}

/// The instruction `op` with operand `i`, where `op` takes an unsigned one.
fn with_index(op: &str, i: Pointer) -> (r: Option<Inst>)
    ensures
        r == indexed(op@, i),
{
    if same(op, "Get") {
        Some(Inst::Get(i))
    } else if same(op, "Set") {
        Some(Inst::Put(i))
    } else if same(op, "GetArg") {
        Some(Inst::GetArg(i))
    } else if same(op, "SetArg") {
        Some(Inst::SetArg(i))
    } else if same(op, "CollapseRet") {
        Some(Inst::CollapseRet(i))
    } else {
        None
    }
}

/// The jump `op` to `target`, where `op` is a jump.
fn with_target(op: &str, target: Pointer) -> (r: Option<Inst>)
    ensures
        r == jump(op@, target),
{
    if same(op, "Jump") {
        Some(Inst::Jump(target))
    } else if same(op, "JE") {
        Some(Inst::JE(target))
    } else if same(op, "JNE") {
        Some(Inst::JNE(target))
    } else if same(op, "JGE") {
        Some(Inst::JGE(target))
    } else if same(op, "JLE") {
        Some(Inst::JLE(target))
    } else if same(op, "JGT") {
        Some(Inst::JGT(target))
    } else if same(op, "JLT") {
        Some(Inst::JLT(target))
    } else {
        None
    }
}

/// The instruction for the two-token line `op arg`.
fn with_operand(op: &str, arg: &str, labels: &Labels, procedures: &Procedures) -> (r: Result<
    Inst,
    TranslateError,
>)
    ensures
        r == unary(op@, arg@, labels@, procedures@),
{
    if same(op, "Push") {
        match parse_int(arg) {
            Some(v) => Ok(Inst::Push(v)),
            None => Err(TranslateError::InvalidNumber),
        }
    } else if with_index(op, 0).is_some() {
        match parse_index(arg) {
            Some(i) => Ok(with_index(op, i).unwrap()),
            None => Err(TranslateError::InvalidNumber),
        }
    } else if with_target(op, 0).is_some() {
        match labels.get(arg) {
            Some(target) => Ok(with_target(op, target).unwrap()),
            None => Err(TranslateError::UndefinedLabel),
        }
    } else if same(op, "Proc") {
        match procedures.get(arg) {
            Some(found) => Ok(Inst::Jump(found.1)),
            None => Err(TranslateError::UndefinedProcedure),
        }
    } else if same(op, "Call") {
        match procedures.get(arg) {
            Some(found) => Ok(Inst::Call(found.0 + 1)),
            None => Err(TranslateError::UndefinedProcedure),
        }
    } else {
        Err(TranslateError::InvalidInstruction)
    }
}

/// Translates one line, given the tables of the whole program.
///
/// The result is [`compile`] of the line: its instruction, or the reason why
/// it has none.
pub fn parse_instruction(s: &[&str], labels: &Labels, procedures: &Procedures) -> (r: Result<
    Inst,
    TranslateError,
>)
    ensures
        r == compile(s.deep_view(), labels@, procedures@),
{
    if s.len() == 2 && same(s[0], "label") {
        Ok(Inst::Noop)
    } else if s.len() == 1 {
        match opcode(s[0]) {
            Some(inst) => Ok(inst),
            None => Err(TranslateError::InvalidInstruction),
        }
    } else if s.len() == 2 {
        with_operand(s[0], s[1], labels, procedures)
    } else {
        Err(TranslateError::InvalidInstruction)
    }
}

/// The model's view of a translator's result.
pub open spec fn outcome(r: Result<Vec<Inst>, Rejection>) -> Result<Seq<Inst>, Rejection> {
    match r {
        Ok(program) => Ok(program@),
        Err(rejection) => Err(rejection),
    }
}

/// Translates a whole program: one instruction per line, every label and
/// procedure name replaced by its address.
///
/// The result is the one that [`translates`] describes. Nothing is
/// returned for a program of which any line is at fault.
pub fn translate(lines: &[Vec<&str>]) -> (r: Result<Vec<Inst>, Rejection>)
    ensures
        translates(lines.deep_view(), outcome(r)),
{
    let names = collect_labels(lines);
    let procs = match find_procedures(lines) {
        Ok(table) => table,
        Err(rejection) => {
            return Err(rejection);
        },
    };
    let ghost text = lines.deep_view();
    let mut program: Vec<Inst> = Vec::new();
    let mut i: usize = 0;
    while i < lines.len()
        invariant
            text == lines.deep_view(),
            i <= lines@.len(),
            program@.len() == i,
            names@ == labels(text),
            procedures(text) == Ok::<Map<Seq<char>, (Pointer, Pointer)>, Pointer>(procs@),
            forall|k: int|
                0 <= k < i ==> compile(#[trigger] text[k], names@, procs@) == Ok::<
                    Inst,
                    TranslateError,
                >(program@[k]),
        decreases lines@.len() - i,
    {
        let line = lines[i].as_slice();
        assert(line.deep_view() =~= text[i as int]);
        match parse_instruction(line, &names, &procs) {
            Ok(inst) => {
                program.push(inst);
            },
            Err(error) => {
                return Err(Rejection { line: i, error });
            },
        }
        i += 1;
    }
    Ok(program)
}

/// Translates program text: splits it into token lines, leaves out the
/// blank lines and the comments, and translates what is left.
///
/// A rejection names its line by position among the lines that are left.
pub fn assemble(source: &str) -> (r: Result<Vec<Inst>, Rejection>)
    ensures
        translates(code(tokens(source@)), outcome(r)),
{
    let lines = tokenize(source);
    let kept = code_lines(lines.as_slice());
    translate(kept.as_slice())
}

} // verus!
