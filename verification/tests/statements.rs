use akkhara::exec::{
    call_check, catch_matches, class_methods, exec_step, while_continue, Body, ExecAction,
    ExecEvent, ExecState, Operand, Part, Phase, MAX_WHILE_ITERATIONS,
};
use akkhara::lexer::lex;
use akkhara::parser::{parse, CondAtom, CondChain, Expr, IfBranch, Stmt};

fn parse_src(src: &str) -> Result<Vec<Stmt>, String> {
    let tokens = lex(src).expect("lexes");
    parse(&tokens)
}

/// Feeds the events to a statement in turn and collects the actions.
fn run_steps(stmt: &Stmt, events: Vec<ExecEvent>) -> (ExecState, Vec<ExecAction>) {
    let mut state = ExecState::new();
    let mut actions = Vec::new();
    for ev in events {
        let (next, action) = exec_step(stmt, &state, ev);
        state = next;
        actions.push(action);
    }
    (state, actions)
}

fn print_stmt(text: &str) -> Stmt {
    Stmt::Print { value: Expr::StrLit(text.to_string()), line: 1 }
}

fn func_def(name: &str) -> Stmt {
    Stmt::FuncDef { name: name.to_string(), params: vec![], body: vec![], line: 1 }
}

fn bool_chain(b: bool) -> CondChain {
    CondChain {
        first: CondAtom { lhs: Expr::BoolLit(b), op: None, rhs: None, type_check: None, line: 1 },
        rest: vec![],
    }
}

fn try_stmt(catch_err: Option<&str>, catch_var: Option<&str>, finally: bool) -> Stmt {
    Stmt::TryCatch {
        try_body: vec![print_stmt("a")],
        catch_err: catch_err.map(|s| s.to_string()),
        catch_var: catch_var.map(|s| s.to_string()),
        catch_body: catch_err.map(|_| vec![print_stmt("b")]),
        finally_body: if finally { Some(vec![print_stmt("c")]) } else { None },
        line: 1,
    }
}

// --- parsing the "စမ်းရန်" statement ------------------------------------

#[test]
fn parse_try_with_catch() {
    let src = "စမ်းရန်\n    x ကို ဖော်ပြပါ။\nE031 ကို ဖမ်းပါ။\n    \"caught\" ကို ဖော်ပြပါ။\nပြီး။";
    let stmts = parse_src(src).unwrap();
    assert_eq!(stmts.len(), 1);
    match &stmts[0] {
        Stmt::TryCatch { try_body, catch_err, catch_var, catch_body, finally_body, line } => {
            assert_eq!(try_body.len(), 1);
            assert_eq!(catch_err.as_deref(), Some("E031"));
            assert!(catch_var.is_none());
            assert_eq!(catch_body.as_ref().map(|b| b.len()), Some(1));
            assert!(finally_body.is_none());
            assert_eq!(*line, 1);
        }
        other => panic!("unexpected {:?}", other),
    }
}

#[test]
fn parse_try_with_catch_variable_and_finally() {
    let src = "စမ်းရန်\n    x ကို ဖော်ပြပါ။\nE ကို err အဖြစ် ဖမ်းပါ။\n    err ကို ဖော်ပြပါ။\nနောက်ဆုံး။\n    \"done\" ကို ဖော်ပြပါ။\n    \"again\" ကို ဖော်ပြပါ။\nပြီး။";
    let stmts = parse_src(src).unwrap();
    match &stmts[0] {
        Stmt::TryCatch { try_body, catch_err, catch_var, catch_body, finally_body, .. } => {
            assert_eq!(try_body.len(), 1);
            assert_eq!(catch_err.as_deref(), Some("E"));
            assert_eq!(catch_var.as_deref(), Some("err"));
            assert_eq!(catch_body.as_ref().map(|b| b.len()), Some(1));
            assert_eq!(finally_body.as_ref().map(|b| b.len()), Some(2));
        }
        other => panic!("unexpected {:?}", other),
    }
}

#[test]
fn parse_try_with_finally_only() {
    let src = "စမ်းရန်\n    x ကို ဖော်ပြပါ။\nနောက်ဆုံး။\n    \"done\" ကို ဖော်ပြပါ။\nပြီး။";
    let stmts = parse_src(src).unwrap();
    match &stmts[0] {
        Stmt::TryCatch { catch_err, catch_body, finally_body, .. } => {
            assert!(catch_err.is_none());
            assert!(catch_body.is_none());
            assert_eq!(finally_body.as_ref().map(|b| b.len()), Some(1));
        }
        other => panic!("unexpected {:?}", other),
    }
}

#[test]
fn parse_try_catch_without_code_is_refused() {
    let src = "စမ်းရန်\n    x ကို ဖော်ပြပါ။\nဖမ်းပါ။\n    x ကို ဖော်ပြပါ။\nပြီး။";
    let err = parse_src(src).unwrap_err();
    assert!(err.starts_with("E001"), "{}", err);
}

// --- the checks -----------------------------------------------------------

#[test]
fn class_methods_lists_every_method() {
    let body = vec![func_def("a"), func_def("b")];
    assert_eq!(class_methods("Cat", &body, 4), Ok(vec![0, 1]));
}

#[test]
fn class_methods_refuses_a_non_method() {
    let body = vec![func_def("a"), print_stmt("x")];
    let err = class_methods("Cat", &body, 4).unwrap_err();
    assert_eq!(
        err,
        "E027 လိုင်း 4 တွင် \"Cat\" class အတွင်း method (function) များသာ ပါဝင်နိုင်ပါသည်။"
    );
}

#[test]
fn class_methods_refuses_an_empty_class() {
    let err = class_methods("Cat", &[], 2).unwrap_err();
    assert_eq!(err, "E028 လိုင်း 2 တွင် \"Cat\" class သည် constructor method အနည်းဆုံး တစ်ခု လိုအပ်ပါသည်။");
}

#[test]
fn while_continue_decides() {
    assert_eq!(while_continue(0, true, false, 1), Ok(true));
    assert_eq!(while_continue(0, false, false, 1), Ok(false));
    assert_eq!(while_continue(7, false, true, 1), Ok(true));
    assert_eq!(while_continue(7, true, true, 1), Ok(false));
    assert_eq!(while_continue(MAX_WHILE_ITERATIONS - 1, true, false, 1), Ok(true));
    let err = while_continue(MAX_WHILE_ITERATIONS, true, false, 9).unwrap_err();
    assert!(err.starts_with("E046 လိုင်း 9 ၏ while loop"), "{}", err);
    assert_eq!(while_continue(MAX_WHILE_ITERATIONS, false, false, 9), Ok(false));
}

#[test]
fn call_check_decides() {
    assert_eq!(call_check("f", Some(0), false, 3), Ok(()));
    assert_eq!(call_check("f", Some(1), true, 3), Ok(()));
    assert_eq!(
        call_check("f", None, false, 3),
        Err("E031 လိုင်း 3 တွင် \"f\" ဆိုသော function ကို ရှာမတွေ့ပါ။".to_string())
    );
    assert_eq!(
        call_check("f", Some(1), false, 3),
        Err("E033 လိုင်း 3 တွင် \"f\" function သည် argument 1 ခု လိုအပ်ပါသည်၊ 0 ခု ပေးထားပါသည်။".to_string())
    );
}

#[test]
fn catch_matches_codes() {
    assert!(catch_matches("E", "E046 anything"));
    assert!(catch_matches("E", ""));
    assert!(catch_matches("E031", "E031 လိုင်း 3 တွင်"));
    assert!(!catch_matches("E031", "E033 လိုင်း 3 တွင်"));
    assert!(!catch_matches("E03", "E031 လိုင်း 3 တွင်"));
}

// --- running statements step by step ------------------------------------

#[test]
fn math_assign_undeclared_starts_at_zero() {
    let stmt = Stmt::MathAssign {
        target: Expr::Ident("n".to_string()),
        op: '+',
        amount: Expr::NumLit("1".to_string()),
        line: 1,
    };
    let (state, actions) = run_steps(
        &stmt,
        vec![ExecEvent::Start, ExecEvent::Performed, ExecEvent::Declared(false), ExecEvent::Performed],
    );
    assert_eq!(
        actions,
        vec![
            ExecAction::Eval(Part::Amount),
            ExecAction::LookupVar,
            ExecAction::Combine(Operand::Zero),
            ExecAction::Done,
        ]
    );
    assert_eq!(state.phase, Phase::Finished);
    let (_, actions) = run_steps(
        &stmt,
        vec![ExecEvent::Start, ExecEvent::Performed, ExecEvent::Declared(true)],
    );
    assert_eq!(actions[2], ExecAction::Combine(Operand::Current));
}

#[test]
fn math_assign_to_other_target_evaluates_it() {
    let stmt = Stmt::MathAssign {
        target: Expr::Index(Box::new(Expr::Ident("xs".to_string())), vec![Expr::NumLit("0".to_string())]),
        op: '*',
        amount: Expr::NumLit("2".to_string()),
        line: 1,
    };
    let (_, actions) = run_steps(
        &stmt,
        vec![ExecEvent::Start, ExecEvent::Performed, ExecEvent::Performed, ExecEvent::Performed],
    );
    assert_eq!(
        actions,
        vec![
            ExecAction::Eval(Part::Amount),
            ExecAction::Eval(Part::Target),
            ExecAction::Combine(Operand::Target),
            ExecAction::Done,
        ]
    );
}

#[test]
fn var_decl_binds_and_fails_on_evaluation_error() {
    let stmt = Stmt::VarDecl { name: "x".to_string(), value: Expr::BoolLit(true), line: 1 };
    let (_, actions) = run_steps(&stmt, vec![ExecEvent::Start, ExecEvent::Performed, ExecEvent::Performed]);
    assert_eq!(actions, vec![ExecAction::Eval(Part::Value), ExecAction::Bind, ExecAction::Done]);
    let (state, actions) =
        run_steps(&stmt, vec![ExecEvent::Start, ExecEvent::Failed("E999 bad".to_string())]);
    assert_eq!(actions[1], ExecAction::Fail("E999 bad".to_string()));
    assert_eq!(state.phase, Phase::Finished);
    let (next, action) = exec_step(&stmt, &state, ExecEvent::Performed);
    assert_eq!(action, ExecAction::Done);
    assert_eq!(next.phase, Phase::Finished);
}

#[test]
fn input_and_print_actions() {
    let ask = Stmt::InputAssign { name: "a".to_string(), value: Expr::StrLit("?".to_string()), line: 1 };
    let (_, actions) = run_steps(&ask, vec![ExecEvent::Start, ExecEvent::Performed]);
    assert_eq!(actions[1], ExecAction::Prompt(true));
    let (_, actions) = run_steps(&print_stmt("hi"), vec![ExecEvent::Start, ExecEvent::Performed]);
    assert_eq!(actions[1], ExecAction::Print);
}

#[test]
fn if_runs_first_true_branch_only() {
    let stmt = Stmt::If {
        branches: vec![
            IfBranch { cond: Some(bool_chain(false)), negate: false, body: vec![print_stmt("one")] },
            IfBranch { cond: Some(bool_chain(false)), negate: true, body: vec![print_stmt("two")] },
            IfBranch { cond: None, negate: false, body: vec![print_stmt("three")] },
        ],
        line: 1,
    };
    let (_, actions) = run_steps(
        &stmt,
        vec![ExecEvent::Start, ExecEvent::Cond(false), ExecEvent::Cond(false), ExecEvent::Performed],
    );
    assert_eq!(
        actions,
        vec![
            ExecAction::EvalCond(0),
            ExecAction::EvalCond(1),
            ExecAction::RunBody(Body::Branch(1)),
            ExecAction::Done,
        ]
    );
    let (_, actions) = run_steps(
        &stmt,
        vec![ExecEvent::Start, ExecEvent::Cond(false), ExecEvent::Cond(true)],
    );
    assert_eq!(actions[2], ExecAction::RunBody(Body::Branch(2)));
}

#[test]
fn if_without_taken_branch_does_nothing() {
    let stmt = Stmt::If {
        branches: vec![IfBranch { cond: Some(bool_chain(true)), negate: false, body: vec![] }],
        line: 1,
    };
    let (_, actions) = run_steps(&stmt, vec![ExecEvent::Start, ExecEvent::Cond(false)]);
    assert_eq!(actions, vec![ExecAction::EvalCond(0), ExecAction::Done]);
}

#[test]
fn while_counts_rounds_and_stops() {
    let stmt = Stmt::While { cond: bool_chain(true), negate: false, body: vec![], line: 5 };
    let (state, actions) = run_steps(
        &stmt,
        vec![
            ExecEvent::Start,
            ExecEvent::Cond(true),
            ExecEvent::Performed,
            ExecEvent::Cond(true),
            ExecEvent::Performed,
            ExecEvent::Cond(false),
        ],
    );
    assert_eq!(
        actions,
        vec![
            ExecAction::EvalCond(0),
            ExecAction::RunBody(Body::Loop),
            ExecAction::EvalCond(0),
            ExecAction::RunBody(Body::Loop),
            ExecAction::EvalCond(0),
            ExecAction::Done,
        ]
    );
    assert_eq!(state.iterations, 2);
}

#[test]
fn while_fails_past_the_limit() {
    let stmt = Stmt::While { cond: bool_chain(true), negate: false, body: vec![], line: 5 };
    let state = ExecState { phase: Phase::Cond, branch: 0, iterations: MAX_WHILE_ITERATIONS, pending: None };
    let (_, action) = exec_step(&stmt, &state, ExecEvent::Cond(true));
    match action {
        ExecAction::Fail(m) => assert!(m.starts_with("E046 လိုင်း 5 "), "{}", m),
        other => panic!("unexpected {:?}", other),
    }
}

#[test]
fn call_without_argument() {
    let stmt = Stmt::FuncCall { name: "f".to_string(), arg: None, line: 2 };
    let (_, actions) = run_steps(
        &stmt,
        vec![ExecEvent::Start, ExecEvent::Function(Some(0)), ExecEvent::Performed],
    );
    assert_eq!(
        actions,
        vec![ExecAction::LookupFunction, ExecAction::RunBody(Body::Function), ExecAction::Done]
    );
    let (_, actions) = run_steps(&stmt, vec![ExecEvent::Start, ExecEvent::Function(None)]);
    assert_eq!(
        actions[1],
        ExecAction::Fail("E031 လိုင်း 2 တွင် \"f\" ဆိုသော function ကို ရှာမတွေ့ပါ။".to_string())
    );
    let (_, actions) = run_steps(&stmt, vec![ExecEvent::Start, ExecEvent::Function(Some(1))]);
    match &actions[1] {
        ExecAction::Fail(m) => assert!(m.starts_with("E033"), "{}", m),
        other => panic!("unexpected {:?}", other),
    }
}

#[test]
fn call_with_argument_binds_it() {
    let stmt = Stmt::FuncCall { name: "f".to_string(), arg: Some(Expr::NumLit("1".to_string())), line: 2 };
    let (_, actions) = run_steps(
        &stmt,
        vec![
            ExecEvent::Start,
            ExecEvent::Function(Some(1)),
            ExecEvent::Performed,
            ExecEvent::Performed,
            ExecEvent::Performed,
        ],
    );
    assert_eq!(
        actions,
        vec![
            ExecAction::LookupFunction,
            ExecAction::Eval(Part::Arg),
            ExecAction::BindParam,
            ExecAction::RunBody(Body::Function),
            ExecAction::Done,
        ]
    );
}

#[test]
fn class_definition_steps() {
    let good = Stmt::ClassDef { name: "Cat".to_string(), body: vec![func_def("new")], line: 1 };
    let (_, actions) = run_steps(&good, vec![ExecEvent::Start, ExecEvent::Performed]);
    assert_eq!(actions, vec![ExecAction::DefineClass(vec![0]), ExecAction::Done]);
    let bad = Stmt::ClassDef { name: "Cat".to_string(), body: vec![], line: 1 };
    let (_, actions) = run_steps(&bad, vec![ExecEvent::Start]);
    match &actions[0] {
        ExecAction::Fail(m) => assert!(m.starts_with("E028"), "{}", m),
        other => panic!("unexpected {:?}", other),
    }
}

#[test]
fn field_set_needs_a_constructor() {
    let stmt = Stmt::SelfFieldSet { field: "age".to_string(), value: Expr::NumLit("3".to_string()), line: 7 };
    let (_, actions) = run_steps(
        &stmt,
        vec![ExecEvent::Start, ExecEvent::Performed, ExecEvent::Constructing(false)],
    );
    assert_eq!(actions[1], ExecAction::CheckConstructing);
    assert_eq!(
        actions[2],
        ExecAction::Fail("E035 လိုင်း 7 တွင် \"တန်ဖိုး\" ကို class constructor အတွင်းမှာသာ သုံးနိုင်ပါသည်။".to_string())
    );
    let (_, actions) = run_steps(
        &stmt,
        vec![ExecEvent::Start, ExecEvent::Performed, ExecEvent::Constructing(true), ExecEvent::Performed],
    );
    assert_eq!(actions[2], ExecAction::SetField);
    assert_eq!(actions[3], ExecAction::Done);
}

#[test]
fn try_catches_matching_code_and_runs_finally() {
    let stmt = try_stmt(Some("E031"), Some("err"), true);
    let (_, actions) = run_steps(
        &stmt,
        vec![
            ExecEvent::Start,
            ExecEvent::Failed("E031 လိုင်း 3 တွင် ...".to_string()),
            ExecEvent::Performed,
            ExecEvent::Performed,
            ExecEvent::Performed,
        ],
    );
    assert_eq!(
        actions,
        vec![
            ExecAction::RunBody(Body::Try),
            ExecAction::BindCatchVar("E031".to_string()),
            ExecAction::RunBody(Body::Catch),
            ExecAction::RunBody(Body::Finally),
            ExecAction::Done,
        ]
    );
}

#[test]
fn try_catch_all_without_variable() {
    let stmt = try_stmt(Some("E"), None, false);
    let (_, actions) = run_steps(
        &stmt,
        vec![ExecEvent::Start, ExecEvent::Failed("E046 x".to_string()), ExecEvent::Performed],
    );
    assert_eq!(
        actions,
        vec![ExecAction::RunBody(Body::Try), ExecAction::RunBody(Body::Catch), ExecAction::Done]
    );
}

#[test]
fn try_uncaught_error_comes_out_after_finally() {
    let stmt = try_stmt(Some("E031"), None, true);
    let (_, actions) = run_steps(
        &stmt,
        vec![ExecEvent::Start, ExecEvent::Failed("E046 x".to_string()), ExecEvent::Performed],
    );
    assert_eq!(
        actions,
        vec![
            ExecAction::RunBody(Body::Try),
            ExecAction::RunBody(Body::Finally),
            ExecAction::Fail("E046 x".to_string()),
        ]
    );
    let stmt = try_stmt(Some("E031"), None, false);
    let (_, actions) = run_steps(&stmt, vec![ExecEvent::Start, ExecEvent::Failed("E046 x".to_string())]);
    assert_eq!(actions[1], ExecAction::Fail("E046 x".to_string()));
}

#[test]
fn try_success_runs_finally_then_ends() {
    let stmt = try_stmt(Some("E"), None, true);
    let (_, actions) = run_steps(
        &stmt,
        vec![ExecEvent::Start, ExecEvent::Performed, ExecEvent::Performed],
    );
    assert_eq!(
        actions,
        vec![ExecAction::RunBody(Body::Try), ExecAction::RunBody(Body::Finally), ExecAction::Done]
    );
}

#[test]
fn try_error_in_catch_body_comes_out_after_finally() {
    let stmt = try_stmt(Some("E"), None, true);
    let (_, actions) = run_steps(
        &stmt,
        vec![
            ExecEvent::Start,
            ExecEvent::Failed("E031 a".to_string()),
            ExecEvent::Failed("E033 b".to_string()),
            ExecEvent::Performed,
        ],
    );
    assert_eq!(
        actions,
        vec![
            ExecAction::RunBody(Body::Try),
            ExecAction::RunBody(Body::Catch),
            ExecAction::RunBody(Body::Finally),
            ExecAction::Fail("E033 b".to_string()),
        ]
    );
}
