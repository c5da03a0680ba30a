use stack_vm::text::{parse_index, parse_int, same};
use stack_vm::{
    assemble, code_lines, collect_labels, find_label, find_procedures, interpret, is_ignored,
    parse_instruction, tokenize, translate, Inst, Labels, Output, Procedures, Rejection,
    RuntimeError, Status, TranslateError,
};

fn tables() -> (Labels<'static>, Procedures<'static>) {
    let mut labels = Labels::new();
    labels.insert("top", 4);
    labels.insert("done", 11);
    let mut procedures = Procedures::new();
    procedures.insert("double", 2, 8);
    procedures.insert("id", 20, 23);
    (labels, procedures)
}

fn parse(line: &[&str]) -> Result<Inst, TranslateError> {
    let (labels, procedures) = tables();
    parse_instruction(line, &labels, &procedures)
}

fn lines(source: &'static str) -> Vec<Vec<&'static str>> {
    tokenize(source)
}

#[test]
fn tokenize_splits_lines_and_words() {
    assert_eq!(tokenize(""), vec![Vec::<&str>::new()]);
    assert_eq!(tokenize("Push 1"), vec![vec!["Push", "1"]]);
    assert_eq!(tokenize("Push 1\n"), vec![vec!["Push", "1"], vec![]]);
    assert_eq!(
        tokenize("  Push\t 1  \r\n\n--  note\nlabel\u{a0}x\u{3000}y"),
        vec![vec!["Push", "1"], vec![], vec!["--", "note"], vec!["label", "x", "y"]]
    );
    assert_eq!(tokenize("\n\n"), vec![Vec::<&str>::new(), vec![], vec![]]);
    assert_eq!(tokenize("a\rb"), vec![vec!["a", "b"]]);
}

#[test]
fn assemble_translates_text() {
    assert_eq!(
        assemble("-- add\nPush 3\n\n  Push 4\nAdd\n\tPrint\n"),
        Ok(vec![Inst::Push(3), Inst::Push(4), Inst::Add, Inst::Print])
    );
    assert_eq!(assemble(""), Ok(vec![]));
    assert_eq!(
        assemble("Push 1\n-- skipped\n\nPush\nPrint"),
        Err(Rejection { line: 1, error: TranslateError::InvalidInstruction })
    );
}

#[test]
fn same_compares_text() {
    assert!(same("Push", "Push"));
    assert!(same("", ""));
    assert!(!same("Push", "Pus"));
    assert!(!same("Push", "Pusah"));
    assert!(!same("push", "Push"));
    assert!(same("naïve", "naïve"));
    assert!(!same("naïve", "naive"));
}

#[test]
fn parse_int_reads_signed_decimals() {
    assert_eq!(parse_int("0"), Some(0));
    assert_eq!(parse_int("42"), Some(42));
    assert_eq!(parse_int("-42"), Some(-42));
    assert_eq!(parse_int("+42"), Some(42));
    assert_eq!(parse_int("007"), Some(7));
    assert_eq!(parse_int("-0"), Some(0));
    assert_eq!(parse_int("9223372036854775807"), "9223372036854775807".parse::<isize>().ok());
    assert_eq!(parse_int("-9223372036854775808"), "-9223372036854775808".parse::<isize>().ok());
    assert_eq!(parse_int(&isize::MAX.to_string()), Some(isize::MAX));
    assert_eq!(parse_int(&isize::MIN.to_string()), Some(isize::MIN));
}

#[test]
fn parse_int_rejects_what_is_no_integer() {
    for bad in ["", "+", "-", "--1", "+-1", "1-", "12a", "a12", "1 2", " 1", "1 ", "1_000", "0x10", "1.5", "١٢", "１２"] {
        assert_eq!(parse_int(bad), None, "{:?}", bad);
        assert_eq!(parse_int(bad), bad.parse::<isize>().ok(), "{:?}", bad);
    }
    assert_eq!(parse_int("9223372036854775808"), "9223372036854775808".parse::<isize>().ok());
    assert_eq!(parse_int("-9223372036854775809"), "-9223372036854775809".parse::<isize>().ok());
    assert_eq!(parse_int("99999999999999999999999999999999999999999999"), None);
    assert_eq!(parse_int("-99999999999999999999999999999999999999999999"), None);
    assert_eq!(parse_int("00000000000000000000000000000000000000000001"), Some(1));
}

#[test]
fn parse_index_reads_unsigned_decimals() {
    assert_eq!(parse_index("0"), Some(0));
    assert_eq!(parse_index("17"), Some(17));
    assert_eq!(parse_index("+17"), Some(17));
    assert_eq!(parse_index(&usize::MAX.to_string()), Some(usize::MAX));
    for bad in ["", "+", "-", "-1", "-0", "1a", "18446744073709551616", "99999999999999999999999999"] {
        assert_eq!(parse_index(bad), bad.parse::<usize>().ok(), "{:?}", bad);
    }
    assert_eq!(parse_index("-1"), None);
    assert_eq!(parse_index("-0"), None);
}

#[test]
fn tables_keep_the_last_binding() {
    let mut labels = Labels::new();
    assert_eq!(labels.get("a"), None);
    labels.insert("a", 1);
    labels.insert("b", 2);
    labels.insert("a", 3);
    assert_eq!(labels.get("a"), Some(3));
    assert_eq!(labels.get("b"), Some(2));
    assert_eq!(labels.get("c"), None);
    let mut procedures = Procedures::new();
    assert_eq!(procedures.get("f"), None);
    procedures.insert("f", 0, 4);
    procedures.insert("f", 5, 7);
    assert_eq!(procedures.get("f"), Some((5, 7)));
}

#[test]
fn ignored_lines_are_blank_or_comments() {
    assert!(is_ignored(&[]));
    assert!(is_ignored(&["--"]));
    assert!(is_ignored(&["--", "Push", "1"]));
    assert!(!is_ignored(&["Push", "--"]));
    assert!(!is_ignored(&["--x"]));
    assert!(!is_ignored(&["-"]));
    let text = lines("Push 1\n\n-- a comment\n   \nPrint\n--\nlabel x");
    assert_eq!(code_lines(&text), vec![vec!["Push", "1"], vec!["Print"], vec!["label", "x"]]);
    assert_eq!(code_lines(&[]), Vec::<Vec<&str>>::new());
}

#[test]
fn find_label_wants_exactly_a_name() {
    assert_eq!(find_label(5, &["label", "loop"]), Some(("loop", 5)));
    assert_eq!(find_label(0, &["label", "label"]), Some(("label", 0)));
    assert_eq!(find_label(5, &["label"]), None);
    assert_eq!(find_label(5, &["label", "a", "b"]), None);
    assert_eq!(find_label(5, &["Label", "a"]), None);
    assert_eq!(find_label(5, &["Jump", "a"]), None);
    assert_eq!(find_label(5, &[]), None);
}

#[test]
fn collect_labels_records_positions() {
    let text = lines("label a\nPush 1\nlabel b\nlabel a\nlabel\nlabel c d");
    let labels = collect_labels(&text);
    assert_eq!(labels.get("a"), Some(3));
    assert_eq!(labels.get("b"), Some(2));
    assert_eq!(labels.get("c"), None);
    assert_eq!(labels.get("d"), None);
}

#[test]
fn find_procedures_pairs_proc_with_the_next_end() {
    let text = lines("Push 1\nProc f\nPush 2\nEnd\nProc g\nEnd\nEnd\nPrint");
    let procedures = find_procedures(&text).unwrap();
    assert_eq!(procedures.get("f"), Some((1, 4)));
    assert_eq!(procedures.get("g"), Some((4, 6)));
    assert_eq!(procedures.get("h"), None);
    assert!(find_procedures(&[]).unwrap().get("f").is_none());
}

#[test]
fn find_procedures_does_not_nest() {
    let text = lines("Proc outer\nProc inner\nEnd\nEnd");
    let procedures = find_procedures(&text).unwrap();
    assert_eq!(procedures.get("outer"), Some((0, 3)));
    assert_eq!(procedures.get("inner"), None);
}

#[test]
fn find_procedures_keeps_the_last_of_a_name() {
    let text = lines("Proc f\nEnd\nProc f\nNoise\nEnd");
    assert_eq!(find_procedures(&text).unwrap().get("f"), Some((2, 5)));
}

#[test]
fn find_procedures_rejects_an_unclosed_proc() {
    let text = lines("Push 1\nProc f\nPush 2\nEnd x\nend");
    assert_eq!(
        find_procedures(&text).err(),
        Some(Rejection { line: 1, error: TranslateError::UnterminatedProcedure })
    );
    let text = lines("Proc f\nEnd\nProc g");
    assert_eq!(
        find_procedures(&text).err(),
        Some(Rejection { line: 2, error: TranslateError::UnterminatedProcedure })
    );
}

#[test]
fn parse_instruction_without_operand() {
    assert_eq!(parse(&["Pop"]), Ok(Inst::Pop));
    assert_eq!(parse(&["Add"]), Ok(Inst::Add));
    assert_eq!(parse(&["Sub"]), Ok(Inst::Sub));
    assert_eq!(parse(&["Mul"]), Ok(Inst::Mul));
    assert_eq!(parse(&["Div"]), Ok(Inst::Div));
    assert_eq!(parse(&["Incr"]), Ok(Inst::Incr));
    assert_eq!(parse(&["Decr"]), Ok(Inst::Decr));
    assert_eq!(parse(&["Print"]), Ok(Inst::Print));
    assert_eq!(parse(&["PrintC"]), Ok(Inst::PrintC));
    assert_eq!(parse(&["PrintStack"]), Ok(Inst::PrintStack));
    assert_eq!(parse(&["Ret"]), Ok(Inst::Ret));
    assert_eq!(parse(&["End"]), Ok(Inst::Noop));
}

#[test]
fn parse_instruction_with_number() {
    assert_eq!(parse(&["Push", "3"]), Ok(Inst::Push(3)));
    assert_eq!(parse(&["Push", "-3"]), Ok(Inst::Push(-3)));
    assert_eq!(parse(&["Get", "2"]), Ok(Inst::Get(2)));
    assert_eq!(parse(&["Set", "0"]), Ok(Inst::Put(0)));
    assert_eq!(parse(&["GetArg", "1"]), Ok(Inst::GetArg(1)));
    assert_eq!(parse(&["SetArg", "4"]), Ok(Inst::SetArg(4)));
    assert_eq!(parse(&["CollapseRet", "1"]), Ok(Inst::CollapseRet(1)));
    assert_eq!(parse(&["Push", "x"]), Err(TranslateError::InvalidNumber));
    assert_eq!(parse(&["Push", "99999999999999999999"]), Err(TranslateError::InvalidNumber));
    assert_eq!(parse(&["Get", "-1"]), Err(TranslateError::InvalidNumber));
    assert_eq!(parse(&["Set", "top"]), Err(TranslateError::InvalidNumber));
    assert_eq!(parse(&["CollapseRet", ""]), Err(TranslateError::InvalidNumber));
}

#[test]
fn parse_instruction_with_label() {
    assert_eq!(parse(&["Jump", "top"]), Ok(Inst::Jump(4)));
    assert_eq!(parse(&["JE", "done"]), Ok(Inst::JE(11)));
    assert_eq!(parse(&["JNE", "top"]), Ok(Inst::JNE(4)));
    assert_eq!(parse(&["JGE", "top"]), Ok(Inst::JGE(4)));
    assert_eq!(parse(&["JLE", "top"]), Ok(Inst::JLE(4)));
    assert_eq!(parse(&["JGT", "top"]), Ok(Inst::JGT(4)));
    assert_eq!(parse(&["JLT", "top"]), Ok(Inst::JLT(4)));
    assert_eq!(parse(&["Jump", "nowhere"]), Err(TranslateError::UndefinedLabel));
    assert_eq!(parse(&["JLT", "double"]), Err(TranslateError::UndefinedLabel));
    assert_eq!(parse(&["Jump", "4"]), Err(TranslateError::UndefinedLabel));
}

#[test]
fn parse_instruction_with_procedure() {
    assert_eq!(parse(&["Proc", "double"]), Ok(Inst::Jump(8)));
    assert_eq!(parse(&["Call", "double"]), Ok(Inst::Call(3)));
    assert_eq!(parse(&["Call", "id"]), Ok(Inst::Call(21)));
    assert_eq!(parse(&["Proc", "top"]), Err(TranslateError::UndefinedProcedure));
    assert_eq!(parse(&["Call", "missing"]), Err(TranslateError::UndefinedProcedure));
}

#[test]
fn parse_instruction_label_declaration_is_a_noop() {
    assert_eq!(parse(&["label", "anything"]), Ok(Inst::Noop));
    assert_eq!(parse(&["label", "top"]), Ok(Inst::Noop));
    assert_eq!(parse(&["label", "label"]), Ok(Inst::Noop));
    assert_eq!(parse(&["label", "3"]), Ok(Inst::Noop));
}

#[test]
fn parse_instruction_label_needs_exactly_one_name() {
    assert_eq!(parse(&["label"]), Err(TranslateError::InvalidInstruction));
    assert_eq!(parse(&["label", "a", "b"]), Err(TranslateError::InvalidInstruction));
    assert_eq!(parse(&["label", "a", "b", "c"]), Err(TranslateError::InvalidInstruction));
    assert_eq!(parse(&["Label", "a"]), Err(TranslateError::InvalidInstruction));
}

#[test]
fn translate_rejects_a_malformed_label_line() {
    assert_eq!(
        translate(&lines("Push 1\nlabel\nPrint")),
        Err(Rejection { line: 1, error: TranslateError::InvalidInstruction })
    );
    assert_eq!(
        translate(&lines("label a b\nJump a")),
        Err(Rejection { line: 0, error: TranslateError::InvalidInstruction })
    );
    assert_eq!(
        translate(&lines("label a\nJump a")),
        Ok(vec![Inst::Noop, Inst::Jump(0)])
    );
}

#[test]
fn parse_instruction_rejects_other_forms() {
    for bad in [
        vec![],
        vec!["Nope"],
        vec!["push", "1"],
        vec!["Push"],
        vec!["Push", "1", "2"],
        vec!["Pop", "1"],
        vec!["End", "x"],
        vec!["Jump"],
        vec!["Call"],
        vec!["Proc"],
        vec!["Proc", "double", "x"],
        vec!["--", "comment"],
        vec!["Noop"],
        vec!["Put", "1"],
    ] {
        assert_eq!(parse(&bad), Err(TranslateError::InvalidInstruction), "{:?}", bad);
    }
}

#[test]
fn translate_keeps_one_instruction_per_line() {
    let text = lines("Push 2\nlabel again\nDecr\nJGT again\nProc f\nPush 9\nEnd\nCall f\nJump again");
    assert_eq!(
        translate(&text),
        Ok(vec![
            Inst::Push(2),
            Inst::Noop,
            Inst::Decr,
            Inst::JGT(1),
            Inst::Jump(7),
            Inst::Push(9),
            Inst::Noop,
            Inst::Call(5),
            Inst::Jump(1),
        ])
    );
    assert_eq!(translate(&[]), Ok(vec![]));
}

#[test]
fn translate_resolves_forward_references() {
    let text = lines("Jump end\nCall late\nlabel end\nProc late\nEnd");
    assert_eq!(
        translate(&text),
        Ok(vec![Inst::Jump(2), Inst::Call(4), Inst::Noop, Inst::Jump(5), Inst::Noop])
    );
}

#[test]
fn translate_rejects_at_the_first_bad_line() {
    let text = lines("Push 1\nJump nowhere\nFrobnicate\nPush x");
    assert_eq!(translate(&text), Err(Rejection { line: 1, error: TranslateError::UndefinedLabel }));
    let text = lines("Push 1\nPush x\nJump nowhere");
    assert_eq!(translate(&text), Err(Rejection { line: 1, error: TranslateError::InvalidNumber }));
    let text = lines("Frobnicate");
    assert_eq!(
        translate(&text),
        Err(Rejection { line: 0, error: TranslateError::InvalidInstruction })
    );
    let text = lines("Push 1\nCall f");
    assert_eq!(
        translate(&text),
        Err(Rejection { line: 1, error: TranslateError::UndefinedProcedure })
    );
    let text = lines("Frobnicate\nProc f\nPush 1");
    assert_eq!(
        translate(&text),
        Err(Rejection { line: 1, error: TranslateError::UnterminatedProcedure })
    );
    let text = lines("Push 1\n\nPrint");
    assert_eq!(
        translate(&text),
        Err(Rejection { line: 1, error: TranslateError::InvalidInstruction })
    );
}

#[test]
fn nested_proc_line_is_not_a_procedure() {
    let text = lines("Proc outer\nProc inner\nEnd\nCall inner");
    assert_eq!(
        translate(&text),
        Err(Rejection { line: 1, error: TranslateError::UndefinedProcedure })
    );
}

fn run_source(source: &'static str) -> (Vec<Output>, Status, Vec<isize>) {
    let text = code_lines(&lines(source));
    let program = translate(&text).unwrap();
    let run = interpret(&program, 10_000);
    (run.output, run.status, run.machine.stack.0)
}

#[test]
fn program_add_prints_seven() {
    let (output, status, stack) = run_source("Push 3\nPush 4\nAdd\nPrint");
    assert_eq!(output, vec![Output::Int(7)]);
    assert_eq!(status, Status::Halted);
    assert_eq!(stack, vec![7]);
}

#[test]
fn program_div_prints_three() {
    let (output, status, _) = run_source("Push 10\nPush 3\nDiv\nPrint");
    assert_eq!(output, vec![Output::Int(3)]);
    assert_eq!(status, Status::Halted);
}

#[test]
fn program_double_prints_ten() {
    let source = "\
-- doubles its one argument
Proc double
    GetArg 0
    GetArg 0
    Add
    CollapseRet 0
End

Push 5
Call double
Print";
    let (output, status, stack) = run_source(source);
    assert_eq!(output, vec![Output::Int(10)]);
    assert_eq!(status, Status::Halted);
    assert_eq!(stack.len(), 1);
    assert_eq!(stack, vec![10]);
}

#[test]
fn program_double_cannot_collapse_below_its_only_argument() {
    let source = "\
Proc double
    GetArg 0
    GetArg 0
    Add
    CollapseRet 1
End
Push 5
Call double
Print";
    let (output, status, stack) = run_source(source);
    assert!(output.is_empty());
    assert_eq!(status, Status::Failed(RuntimeError::StackIndex));
    assert_eq!(stack, vec![5, 10]);
}

#[test]
fn program_double_with_a_spare_argument_collapses_over_it() {
    let source = "\
Proc double
    GetArg 0
    GetArg 0
    Add
    CollapseRet 1
End
Push 0
Push 5
Call double
Print";
    let (output, status, stack) = run_source(source);
    assert_eq!(output, vec![Output::Int(10)]);
    assert_eq!(status, Status::Halted);
    assert_eq!(stack, vec![10]);
}

#[test]
fn program_pop_on_empty_stack_fails_without_output() {
    let (output, status, _) = run_source("Pop\nPush 1\nPrint");
    assert!(output.is_empty());
    assert_eq!(status, Status::Failed(RuntimeError::EmptyStack));
}

#[test]
fn program_falls_through_a_procedure_without_running_it() {
    let (output, status, stack) = run_source("Push 1\nProc noisy\nPush 99\nPrint\nRet\nEnd\nPrint");
    assert_eq!(output, vec![Output::Int(1)]);
    assert_eq!(status, Status::Halted);
    assert_eq!(stack, vec![1]);
}

#[test]
fn program_call_runs_the_body_from_its_first_instruction() {
    let (output, status, stack) =
        run_source("Proc noisy\nPush 99\nPrint\nRet\nEnd\nPush 1\nCall noisy\nPrint\nPop\nPop\nPrintStack");
    assert_eq!(output, vec![Output::Int(99), Output::Int(99), Output::Stack(vec![])]);
    assert_eq!(status, Status::Halted);
    assert!(stack.is_empty());
}

#[test]
fn program_with_two_arguments_and_locals() {
    let source = "\
Proc sub
    Push 0
    GetArg 1
    GetArg 0
    Sub
    Set 0
    Pop
    CollapseRet 1
End
Push 7
Push 30
Push 8
Call sub
PrintStack";
    let (output, status, stack) = run_source(source);
    assert_eq!(output, vec![Output::Stack(vec![7, 22])]);
    assert_eq!(status, Status::Halted);
    assert_eq!(stack, vec![7, 22]);
}

#[test]
fn program_countdown_with_labels() {
    let source = "\
Push 3
label loop
Print
Decr
Get 0
JGT loop
Pop
Push 72
PrintC";
    let (output, status, stack) = run_source(source);
    assert_eq!(
        output,
        vec![Output::Int(3), Output::Int(2), Output::Int(1), Output::Char(72)]
    );
    assert_eq!(status, Status::Halted);
    assert_eq!(stack, vec![0, 72]);
}

#[test]
fn program_recursion_uses_one_frame_per_call() {
    let source = "\
Proc sum
    GetArg 0
    JE base
    Decr
    Call sum
    GetArg 0
    Add
    CollapseRet 0
    label base
    Push 0
    CollapseRet 0
End
Push 4
Call sum
Print";
    let (output, status, stack) = run_source(source);
    assert_eq!(output, vec![Output::Int(10)]);
    assert_eq!(status, Status::Halted);
    assert_eq!(stack, vec![10]);
}
