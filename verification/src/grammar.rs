//! The source language as mathematics: what each line means, and which
//! instruction stream a program text stands for.
//!
//! Everything here is specification. The translator is held to it.

use crate::inst::{Inst, Pointer};
use crate::text::{index_of, int_of, Token};
use vstd::prelude::*;

verus! {

/// One source line: its tokens.
pub type Line = Seq<Token>;

/// A program text: its lines, none of them blank or a comment. The position
/// of a line is the address of the instruction it becomes.
pub type Source = Seq<Line>;

/// Why a line cannot be translated.
#[derive(Debug, Clone, Copy, PartialEq, Eq, Structural)]
pub enum TranslateError {
    /// The line has none of the forms of the language.
    InvalidInstruction,
    /// The operand is not an integer that fits.
    InvalidNumber,
    /// The line jumps to a label that no line declares.
    UndefinedLabel,
    /// The line names a procedure that no line opens.
    UndefinedProcedure,
    /// The line opens a procedure that no later `End` closes.
    UnterminatedProcedure,
}

/// A program that was turned down: the first line at fault, and why.
#[derive(Debug, Clone, Copy, PartialEq, Eq, Structural)]
pub struct Rejection {
    /// Position of the line.
    pub line: Pointer,
    /// What is wrong with it.
    pub error: TranslateError,
}

/// Whether `line` carries no instruction: it is blank, or its first token
/// is the comment marker `--`.
pub open spec fn ignored(line: Line) -> bool {
    line.len() == 0 || line[0] == "--"@
}

/// The lines of `text` that carry an instruction, in their order.
pub open spec fn code(text: Source) -> Source {
    text.filter(|line: Line| !ignored(line))
}

/// The label that `line` declares, if it is `label <name>`.
pub open spec fn label_of(line: Line) -> Option<Token> {
    if line.len() == 2 && line[0] == "label"@ {
        Some(line[1])
    } else {
        None
    }
}

/// The labels that the first `n` lines of `text` declare, each with the
/// position of its last declaration among them.
pub open spec fn labels_upto(text: Source, n: int) -> Map<Token, Pointer>
    decreases n,
{
    if n <= 0 {
        Map::empty()
    } else {
        let before = labels_upto(text, n - 1);
        match label_of(text[n - 1]) {
            Some(name) => before.insert(name, (n - 1) as usize),
            None => before,
        }
    }
}

/// The label table of `text`.
pub open spec fn labels(text: Source) -> Map<Token, Pointer> {
    labels_upto(text, text.len() as int)
}

/// The procedure that `line` opens, if it is `Proc <name>`.
pub open spec fn proc_of(line: Line) -> Option<Token> {
    if line.len() == 2 && line[0] == "Proc"@ {
        Some(line[1])
    } else {
        None
    }
}

/// Whether `line` is a bare `End`.
pub open spec fn is_end(line: Line) -> bool {
    line.len() == 1 && line[0] == "End"@
}

/// Position of the first bare `End` at or after `from`, if there is one.
pub open spec fn next_end(text: Source, from: int) -> Option<int>
    decreases text.len() - from,
{
    if from < 0 || from >= text.len() {
        None
    } else if is_end(text[from]) {
        Some(from)
    } else {
        next_end(text, from + 1)
    }
}

/// What [`next_end`] finds lies at or after `from`, is a bare `End`, and is
/// the first such line; where it finds nothing, there is none.
pub proof fn lemma_next_end(text: Source, from: int)
    requires
        0 <= from,
    ensures
        match next_end(text, from) {
            Some(e) => from <= e < text.len() && is_end(text[e]) && forall|k: int|
                from <= k < e ==> !is_end(#[trigger] text[k]),
            None => forall|k: int| from <= k < text.len() ==> !is_end(#[trigger] text[k]),
        },
    decreases text.len() - from,
{
    if from < text.len() && !is_end(text[from]) {
        lemma_next_end(text, from + 1);
    }
}

/// The procedure table that a scan of `text` from position `ip` adds to
/// `table`, or the position of a `Proc` line that no `End` follows.
///
/// A `Proc` line opens a procedure, which the next bare `End` closes; the
/// scan goes on after that `End`, so a `Proc` line inside a procedure opens
/// nothing. A procedure is recorded with the position of its `Proc` line and
/// the position just past its `End`.
pub open spec fn scan(text: Source, ip: int, table: Map<Token, (Pointer, Pointer)>) -> Result<
    Map<Token, (Pointer, Pointer)>,
    Pointer,
>
    decreases text.len() - ip,
{
    if ip < 0 || ip >= text.len() {
        Ok(table)
    } else {
        match proc_of(text[ip]) {
            Some(name) => match next_end(text, ip) {
                Some(e) => {
                    proof {
                        lemma_next_end(text, ip);
                    }
                    scan(text, e + 1, table.insert(name, (ip as usize, (e + 1) as usize)))
                },
                None => Err(ip as usize),
            },
            None => scan(text, ip + 1, table),
        }
    }
}

/// The procedure table of `text`, or the position of its first unclosed
/// `Proc` line.
pub open spec fn procedures(text: Source) -> Result<Map<Token, (Pointer, Pointer)>, Pointer> {
    scan(text, 0, Map::empty())
}

/// The instruction that a line of the one token `op` becomes.
pub open spec fn nullary(op: Token) -> Option<Inst> {
    if op == "Pop"@ {
        Some(Inst::Pop)
    } else if op == "Add"@ {
        Some(Inst::Add)
    } else if op == "Sub"@ {
        Some(Inst::Sub)
    } else if op == "Mul"@ {
        Some(Inst::Mul)
    } else if op == "Div"@ {
        Some(Inst::Div)
    } else if op == "Incr"@ {
        Some(Inst::Incr)
    } else if op == "Decr"@ {
        Some(Inst::Decr)
    } else if op == "Print"@ {
        Some(Inst::Print)
    } else if op == "PrintC"@ {
        Some(Inst::PrintC)
    } else if op == "PrintStack"@ {
        Some(Inst::PrintStack)
    } else if op == "Ret"@ {
        Some(Inst::Ret)
    } else if op == "End"@ {
        Some(Inst::Noop)
    } else {
        None
    }
}

/// The instruction with opcode `op` and unsigned operand `i`, where `op`
/// takes one.
pub open spec fn indexed(op: Token, i: Pointer) -> Option<Inst> {
    if op == "Get"@ {
        Some(Inst::Get(i))
    } else if op == "Set"@ {
        Some(Inst::Put(i))
    } else if op == "GetArg"@ {
        Some(Inst::GetArg(i))
    } else if op == "SetArg"@ {
        Some(Inst::SetArg(i))
    } else if op == "CollapseRet"@ {
        Some(Inst::CollapseRet(i))
    } else {
        None
    }
}

/// The jump with opcode `op` to address `target`, where `op` is a jump.
pub open spec fn jump(op: Token, target: Pointer) -> Option<Inst> {
    if op == "Jump"@ {
        Some(Inst::Jump(target))
    } else if op == "JE"@ {
        Some(Inst::JE(target))
    } else if op == "JNE"@ {
        Some(Inst::JNE(target))
    } else if op == "JGE"@ {
        Some(Inst::JGE(target))
    } else if op == "JLE"@ {
        Some(Inst::JLE(target))
    } else if op == "JGT"@ {
        Some(Inst::JGT(target))
    } else if op == "JLT"@ {
        Some(Inst::JLT(target))
    } else {
        None
    }
}

/// The instruction that a line of the two tokens `op` and `arg` becomes.
///
/// `Proc <name>` becomes the guard jump to the procedure's exit, and
/// `Call <name>` a call of the address just past that guard.
pub open spec fn unary(
    op: Token,
    arg: Token,
    labels: Map<Token, Pointer>,
    procs: Map<Token, (Pointer, Pointer)>,
) -> Result<Inst, TranslateError> {
    if op == "Push"@ {
        match int_of(arg) {
            Some(v) => Ok(Inst::Push(v)),
            None => Err(TranslateError::InvalidNumber),
        }
    } else if indexed(op, 0) is Some {
        match index_of(arg) {
            Some(i) => Ok(indexed(op, i)->0),
            None => Err(TranslateError::InvalidNumber),
        }
    } else if jump(op, 0) is Some {
        if labels.contains_key(arg) {
            Ok(jump(op, labels[arg])->0)
        } else {
            Err(TranslateError::UndefinedLabel)
        }
    } else if op == "Proc"@ {
        if procs.contains_key(arg) {
            Ok(Inst::Jump(procs[arg].1))
        } else {
            Err(TranslateError::UndefinedProcedure)
        }
    } else if op == "Call"@ {
        if procs.contains_key(arg) {
            Ok(Inst::Call((procs[arg].0 + 1) as usize))
        } else {
            Err(TranslateError::UndefinedProcedure)
        }
    } else {
        Err(TranslateError::InvalidInstruction)
    }
}

/// The instruction that `line` becomes, given the two symbol tables.
///
/// A label declaration, `label` and exactly one name, becomes a no-op, and
/// so does a bare `End`: both only hold an address. A line of any other
/// form than those of the language has no instruction.
pub open spec fn compile(
    line: Line,
    labels: Map<Token, Pointer>,
    procs: Map<Token, (Pointer, Pointer)>,
) -> Result<Inst, TranslateError> {
    if label_of(line) is Some {
        Ok(Inst::Noop)
    } else if line.len() == 1 {
        match nullary(line[0]) {
            Some(inst) => Ok(inst),
            None => Err(TranslateError::InvalidInstruction),
        }
    } else if line.len() == 2 {
        unary(line[0], line[1], labels, procs)
    } else {
        Err(TranslateError::InvalidInstruction)
    }
}

/// Whether `r` is the translation of `text`.
///
/// A text with an unclosed procedure is rejected at the first such `Proc`
/// line. Otherwise every line is compiled against the tables of the whole
/// text: if all compile, the result is their instructions, line by line;
/// if not, the text is rejected at the first line that does not, for that
/// line's reason.
pub open spec fn translates(text: Source, r: Result<Seq<Inst>, Rejection>) -> bool {
    match procedures(text) {
        Err(line) => r == Err::<Seq<Inst>, Rejection>(
            Rejection { line, error: TranslateError::UnterminatedProcedure },
        ),
        Ok(procs) => match r {
            Ok(program) => {
                &&& program.len() == text.len()
                &&& forall|i: int|
                    0 <= i < text.len() ==> compile(#[trigger] text[i], labels(text), procs) == Ok::<
                        Inst,
                        TranslateError,
                    >(program[i])
            },
            Err(rejection) => {
                &&& rejection.line < text.len()
                &&& compile(text[rejection.line as int], labels(text), procs) == Err::<
                    Inst,
                    TranslateError,
                >(rejection.error)
                &&& forall|i: int|
                    0 <= i < rejection.line ==> compile(#[trigger] text[i], labels(text), procs) is Ok
            },
        },
    }
}

/// Whether `entry` is a true record of a procedure `name` of `text`: it
/// holds the position of a line `Proc <name>` and the position just past the
/// first bare `End` after it.
pub open spec fn records(text: Source, name: Token, entry: (Pointer, Pointer)) -> bool {
    &&& 0 <= entry.0 < entry.1 <= text.len()
    &&& proc_of(text[entry.0 as int]) == Some(name)
    &&& next_end(text, entry.0 as int) == Some(entry.1 - 1)
}

/// Whether every entry of `table` is a true record of a procedure of `text`.
pub open spec fn sound(text: Source, table: Map<Token, (Pointer, Pointer)>) -> bool {
    forall|name: Token| #[trigger] table.contains_key(name) ==> records(text, name, table[name])
}

proof fn lemma_scan_sound(text: Source, ip: int, table: Map<Token, (Pointer, Pointer)>)
    requires
        0 <= ip,
        text.len() <= usize::MAX,
        sound(text, table),
    ensures
        scan(text, ip, table) matches Ok(found) ==> sound(text, found),
    decreases text.len() - ip,
{
    if ip < text.len() {
        match proc_of(text[ip]) {
            Some(name) => {
                lemma_next_end(text, ip);
                match next_end(text, ip) {
                    Some(e) => {
                        let entry = (ip as usize, (e + 1) as usize);
                        let grown = table.insert(name, entry);
                        assert(records(text, name, entry));
                        assert forall|other: Token| #[trigger]
                            grown.contains_key(other) implies records(text, other, grown[other]) by {
                            if other != name {
                                assert(table.contains_key(other));
                            }
                        }
                        lemma_scan_sound(text, e + 1, grown);
                    },
                    None => {},
                }
            },
            None => {
                lemma_scan_sound(text, ip + 1, table);
            },
        }
    }
}

/// Every entry of the procedure table of a text is a true record: a name
/// is bound to the position of a `Proc` line of that name and to the
/// position just past the first bare `End` that follows it.
pub proof fn lemma_procedures_sound(text: Source)
    requires
        text.len() <= usize::MAX,
    ensures
        procedures(text) matches Ok(found) ==> sound(text, found),
{
    lemma_scan_sound(text, 0, Map::empty());
}

/// `Proc` and `Call` are two different opcodes, and neither is `label`,
/// `Push`, an opcode with an unsigned operand, or a jump.
proof fn lemma_procedure_opcodes()
    ensures
        "Proc"@ != "Call"@,
        "Proc"@ != "label"@,
        "Proc"@ != "Push"@,
        indexed("Proc"@, 0) is None,
        jump("Proc"@, 0) is None,
        "Call"@ != "label"@,
        "Call"@ != "Push"@,
        indexed("Call"@, 0) is None,
        jump("Call"@, 0) is None,
{
    reveal_strlit("Proc");
    reveal_strlit("Call");
    reveal_strlit("label");
    reveal_strlit("Push");
    reveal_strlit("Get");
    reveal_strlit("Set");
    reveal_strlit("GetArg");
    reveal_strlit("SetArg");
    reveal_strlit("CollapseRet");
    reveal_strlit("Jump");
    reveal_strlit("JE");
    reveal_strlit("JNE");
    reveal_strlit("JGE");
    reveal_strlit("JLE");
    reveal_strlit("JGT");
    reveal_strlit("JLT");
    assert("Proc"@[0] == 'P' && "Proc"@[1] == 'r');
    assert("Call"@[0] == 'C');
    assert("Push"@[0] == 'P' && "Push"@[1] == 'u');
    assert("Jump"@[0] == 'J');
    assert("Get"@.len() == 3 && "Set"@.len() == 3);
    assert("GetArg"@.len() == 6 && "SetArg"@.len() == 6);
    assert("CollapseRet"@.len() == 11);
}

/// What a line `Proc <name>` compiles to: the guard jump to the exit of
/// the procedure that the table holds under `name`.
pub proof fn lemma_compile_proc(
    line: Line,
    labels: Map<Token, Pointer>,
    procs: Map<Token, (Pointer, Pointer)>,
)
    requires
        proc_of(line) is Some,
    ensures
        compile(line, labels, procs) == (if procs.contains_key(line[1]) {
            Ok::<Inst, TranslateError>(Inst::Jump(procs[line[1]].1))
        } else {
            Err::<Inst, TranslateError>(TranslateError::UndefinedProcedure)
        }),
{
    lemma_procedure_opcodes();
}

/// Whether `line` is `Call <name>` for some name.
pub open spec fn is_call(line: Line) -> bool {
    line.len() == 2 && line[0] == "Call"@
}

/// What a line `Call <name>` compiles to: a call of the address just past
/// the `Proc` line of the procedure that the table holds under `name`.
pub proof fn lemma_compile_call(
    line: Line,
    labels: Map<Token, Pointer>,
    procs: Map<Token, (Pointer, Pointer)>,
)
    requires
        is_call(line),
    ensures
        compile(line, labels, procs) == (if procs.contains_key(line[1]) {
            Ok::<Inst, TranslateError>(Inst::Call((procs[line[1]].0 + 1) as usize))
        } else {
            Err::<Inst, TranslateError>(TranslateError::UndefinedProcedure)
        }),
{
    lemma_procedure_opcodes();
}

proof fn lemma_labels_upto(text: Source, n: int, name: Token)
    requires
        0 <= n <= text.len() <= usize::MAX,
    ensures
        labels_upto(text, n).contains_key(name) <==> exists|i: int|
            0 <= i < n && label_of(#[trigger] text[i]) == Some(name),
        labels_upto(text, n).contains_key(name) ==> {
            let at = labels_upto(text, n)[name];
            &&& at < n
            &&& label_of(text[at as int]) == Some(name)
            &&& forall|j: int| at < j < n ==> label_of(#[trigger] text[j]) != Some(name)
        },
    decreases n,
{
    if n > 0 {
        lemma_labels_upto(text, n - 1, name);
        if label_of(text[n - 1]) == Some(name) {
        } else if labels_upto(text, n).contains_key(name) {
            assert(labels_upto(text, n - 1).contains_key(name));
            let i = choose|i: int| 0 <= i < n - 1 && label_of(#[trigger] text[i]) == Some(name);
            assert(0 <= i < n && label_of(text[i]) == Some(name));
        }
    }
}

/// The label table binds exactly the declared names, each to the position
/// of its last declaration.
pub proof fn lemma_labels_sound(text: Source, name: Token)
    requires
        text.len() <= usize::MAX,
    ensures
        labels(text).contains_key(name) <==> exists|i: int|
            0 <= i < text.len() && label_of(#[trigger] text[i]) == Some(name),
        labels(text).contains_key(name) ==> {
            let at = labels(text)[name];
            &&& at < text.len()
            &&& label_of(text[at as int]) == Some(name)
            &&& forall|j: int| at < j < text.len() ==> label_of(#[trigger] text[j]) != Some(name)
        },
{
    lemma_labels_upto(text, text.len() as int, name);
}

} // verus!
