use akkhara::lexer::lex;
use akkhara::parser::{is_type_keyword, parse, try_parse, Expr, Stmt};

fn parse_src(src: &str) -> Result<Vec<Stmt>, String> {
    let tokens = lex(src).expect("lexes");
    parse(&tokens)
}

#[test]
fn parse_var_decl_and_print() {
    let stmts = parse_src("x သည် 5 ဖြစ်၏။\nx ကို ဖော်ပြပါ။").unwrap();
    assert_eq!(stmts.len(), 2);
    match &stmts[0] {
        Stmt::VarDecl { name, value, line } => {
            assert_eq!(name, "x");
            assert!(matches!(value, Expr::NumLit(n) if n == "5"));
            assert_eq!(*line, 1);
        }
        other => panic!("unexpected {:?}", other),
    }
    match &stmts[1] {
        Stmt::Print { value, line } => {
            assert!(matches!(value, Expr::Ident(n) if n == "x"));
            assert_eq!(*line, 2);
        }
        other => panic!("unexpected {:?}", other),
    }
}

#[test]
fn parse_arithmetic_left_to_right() {
    // Operators apply from left to right, with no precedence between them.
    let stmts = parse_src("y သည် 1 + 2 * 3 ဖြစ်၏။").unwrap();
    match &stmts[0] {
        Stmt::VarDecl { value: Expr::Binary(l, op, r, _), .. } => {
            assert_eq!(*op, '*');
            assert!(matches!(**l, Expr::Binary(_, '+', _, _)));
            assert!(matches!(**r, Expr::NumLit(ref n) if n == "3"));
        }
        other => panic!("unexpected {:?}", other),
    }
}

#[test]
fn parse_list_literal_over_lines() {
    let stmts = parse_src("xs မှာ [1,\n 2,\n 3] ဖြစ်၏။").unwrap();
    assert_eq!(stmts.len(), 1);
    match &stmts[0] {
        Stmt::VarDecl { value: Expr::ListLit(items), line, .. } => {
            assert_eq!(items.len(), 3);
            assert_eq!(*line, 1);
        }
        other => panic!("unexpected {:?}", other),
    }
}

#[test]
fn parse_missing_period_is_reported() {
    assert_eq!(
        parse_src("x ကို ဖော်ပြပါ").unwrap_err(),
        "E002 လိုင်း 1 ၏စာကြောင်းအဆုံးတွင် '။' မရှိပါ။"
    );
}

#[test]
fn parse_unknown_statement_is_a_syntax_error() {
    assert_eq!(
        parse_src("\nhello world။").unwrap_err(),
        "E001 လိုင်း 2 သည် ရေးသားပုံစည်းမျဉ်းမမှန်ကန်ပါ။"
    );
}

#[test]
fn parse_if_else_block() {
    let src = "အကယ်၍ (x > 1) ဖြစ်လျှင် \"big\" ကို ဖော်ပြပါ။ မဟုတ်လျှင် \"small\" ကို ဖော်ပြပါ။ ပြီး။";
    let stmts = parse_src(src).unwrap();
    assert_eq!(stmts.len(), 1);
    match &stmts[0] {
        Stmt::If { branches, .. } => {
            assert_eq!(branches.len(), 2);
            assert!(branches[0].cond.is_some());
            assert!(!branches[0].negate);
            assert!(branches[1].cond.is_none());
            assert_eq!(branches[0].body.len(), 1);
            assert_eq!(branches[1].body.len(), 1);
        }
        other => panic!("unexpected {:?}", other),
    }
}

#[test]
fn parse_condition_without_parentheses_is_refused() {
    let src = "အကယ်၍ x > 1 ဖြစ်လျှင် x ကို ဖော်ပြပါ။ ပြီး။";
    assert_eq!(
        parse_src(src).unwrap_err(),
        "လိုင်း 1 တွင် condition ရေးသားပုံ မှားနေပါသည်။ အသုံးပြုပုံ — (<value> <တန်ဖိုးနှိုင်းယှဉ်ခြင်း> <value>) (နှင့်|သို့) (...) ဖြစ်လျှင်"
    );
}

#[test]
fn parse_for_loop_over_list() {
    let src = "n သည် [1, 2] ထဲမှ တစ်ခုစီ n ကို ဖော်ပြပါ။ ပြီး။";
    let stmts = parse_src(src).unwrap();
    match &stmts[0] {
        Stmt::ForLoop { var_name, body, .. } => {
            assert_eq!(var_name, "n");
            assert_eq!(body.len(), 1);
        }
        other => panic!("unexpected {:?}", other),
    }
}

#[test]
fn parse_empty_program() {
    assert!(parse_src("").unwrap().is_empty());
}

#[test]
fn try_parse_refuses_keyword_as_name() {
    // A variable named like the keyword "ဖြစ်၏" would make a slice start
    // after its end.
    let tokens = lex("ဖြစ်၏ သည် 1 ဖြစ်၏။").unwrap();
    assert!(try_parse(&tokens).is_none());
    let fine = lex("x သည် 1 ဖြစ်၏။").unwrap();
    assert!(matches!(try_parse(&fine), Some(Ok(v)) if v.len() == 1));
}

#[test]
fn parse_trailing_comma_and_empty_list() {
    let stmts = parse_src("a မှာ [1,] ဖြစ်၏။\nb မှာ [] ဖြစ်၏။").unwrap();
    assert!(matches!(&stmts[0], Stmt::VarDecl { value: Expr::ListLit(v), .. } if v.len() == 1));
    assert!(matches!(&stmts[1], Stmt::VarDecl { value: Expr::ListLit(v), .. } if v.is_empty()));
}

#[test]
fn parse_set_and_dict_literals() {
    let stmts = parse_src("s မှာ {1, 2, 2} ဖြစ်၏။\nd မှာ {\n \"a\" သည် 1 ဖြစ်၏။\n \"b\" သည် 2 ဖြစ်၏။\n} ဖြစ်၏။").unwrap();
    assert_eq!(stmts.len(), 2);
    assert!(matches!(&stmts[0], Stmt::VarDecl { value: Expr::SetLit(v), .. } if v.len() == 3));
    assert!(matches!(&stmts[1], Stmt::VarDecl { value: Expr::DictLit(v), line, .. } if v.len() == 2 && *line == 2));
}

#[test]
fn parse_unbalanced_brackets() {
    assert_eq!(
        parse_src("x သည် (1 + 2] ဖြစ်၏။").unwrap_err(),
        "လိုင်း 1 တွင် ကွင်းများ ({}/[]/()) မှန်ကန်စွာ မတွဲထားပါ။"
    );
}

#[test]
fn parse_errors_name_their_line() {
    for src in ["x ကို ဖော်ပြပါ", "\n\nfoo။", "x သည် ဖြစ်၏။", "x သည် (1 + 2] ဖြစ်၏။"] {
        let e = parse_src(src).unwrap_err();
        let rest = e.strip_prefix("E001 ").or(e.strip_prefix("E002 ")).unwrap_or(&e);
        assert!(rest.starts_with("လိုင်း "), "{}", e);
    }
}

#[test]
fn parse_one_statement_per_period_numbered_by_first_line() {
    let src = "a သည် 1 ဖြစ်၏။ b သည် 2 ဖြစ်၏။\n\nc မှာ [1,\n2] ဖြစ်၏။\nd ကို ဖော်ပြပါ။";
    let stmts = parse_src(src).unwrap();
    let lines: Vec<usize> = stmts
        .iter()
        .map(|s| match s {
            Stmt::VarDecl { line, .. } | Stmt::Print { line, .. } => *line,
            other => panic!("unexpected {:?}", other),
        })
        .collect();
    assert_eq!(lines, vec![1, 1, 3, 5]);
}

#[test]
fn parse_syntax_error_codes() {
    // A statement that matches no form carries E001; one missing its `။`, E002.
    assert!(parse_src("x။").unwrap_err().starts_with("E001 "));
    assert!(parse_src("x ကို ဖော်ပြပါ").unwrap_err().starts_with("E002 "));
}

#[test]
fn type_keywords() {
    for k in ["စာသား", "ကိန်းပြည့်", "ဒဿမ", "ဒဿမကိန်း", "မှန်/မှား", "စာရင်း", "အစု", "အုပ်စု", "အဘိဓာန်", "ဇယား"] {
        assert!(is_type_keyword(k), "{}", k);
    }
    assert!(!is_type_keyword("x"));
    let stmts = parse_src("x ကို ဒဿမ သို့ ပြောင်းပါ။").unwrap();
    assert!(matches!(&stmts[0], Stmt::ConvertStmt { target_type, .. } if target_type == "ဒဿမ"));
}

#[test]
fn parse_splits_after_a_period() {
    let a = "x သည် [1, 2] ဖြစ်၏။";
    let b = "x ကို ဖော်ပြပါ။ y သည် 3 ဖြစ်၏။";
    let whole = parse_src(&format!("{} {}", a, b)).unwrap();
    let left = parse_src(a).unwrap();
    let right = parse_src(b).unwrap();
    assert_eq!(whole.len(), left.len() + right.len());
    let mut joined = left;
    joined.extend(right);
    assert_eq!(format!("{:?}", whole), format!("{:?}", joined));
    // The first fault wins.
    assert_eq!(
        parse_src(&format!("{} foo။", a)).unwrap_err(),
        "E001 လိုင်း 1 သည် ရေးသားပုံစည်းမျဉ်းမမှန်ကန်ပါ။"
    );
}

#[test]
fn parse_same_statement_without_period() {
    for body in ["x သည် 1 ဖြစ်၏", "x ကို ဖော်ပြပါ", "f ကို လုပ်ပါ", "x ကို 2 တိုးပါ"] {
        assert!(parse_src(&format!("{}။", body)).is_ok(), "{}", body);
        assert_eq!(
            parse_src(body).unwrap_err(),
            "E002 လိုင်း 1 ၏စာကြောင်းအဆုံးတွင် '။' မရှိပါ။",
            "{}",
            body
        );
    }
}

#[test]
fn parse_else_branch_comes_last() {
    let src = "အကယ်၍ (x > 1) ဖြစ်လျှင် 1 ကို ဖော်ပြပါ။ သို့မဟုတ် (x > 0) ဖြစ်လျှင် 2 ကို ဖော်ပြပါ။ မဟုတ်လျှင် 3 ကို ဖော်ပြပါ။ ပြီး။";
    match &parse_src(src).unwrap()[0] {
        Stmt::If { branches, .. } => {
            assert_eq!(branches.len(), 3);
            assert!(branches[0].cond.is_some() && branches[1].cond.is_some());
            assert!(branches[2].cond.is_none());
        }
        other => panic!("unexpected {:?}", other),
    }
}
