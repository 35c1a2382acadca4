use akkhara::lexer::{lex, Tok, Token};

fn toks(src: &str) -> Vec<Token> {
    match lex(src) {
        Ok(t) => t,
        Err(e) => panic!("unexpected lex error: {}", e),
    }
}

fn ident(t: &Tok, s: &str) -> bool {
    matches!(t, Tok::Ident(x) if x == s)
}

#[test]
fn lex_var_decl_splits_keywords() {
    let t = toks("x သည် 5 ဖြစ်၏။");
    assert_eq!(t.len(), 5);
    assert!(ident(&t[0].tok, "x"));
    assert!(ident(&t[1].tok, "သည်"));
    assert!(matches!(&t[2].tok, Tok::Num(n) if n == "5"));
    assert!(ident(&t[3].tok, "ဖြစ်၏"));
    assert!(matches!(t[4].tok, Tok::End));
    assert!(t.iter().all(|k| k.line == 1));
}

#[test]
fn lex_fused_suffix_is_split_off() {
    // "ကို" fused onto the name is a token of its own.
    let t = toks("xကို ဖော်ပြပါ။");
    assert_eq!(t.len(), 4);
    assert!(ident(&t[0].tok, "x"));
    assert!(ident(&t[1].tok, "ကို"));
    assert!(ident(&t[2].tok, "ဖော်ပြပါ"));
    assert!(matches!(t[3].tok, Tok::End));
}

#[test]
fn lex_myanmar_digits_become_ascii() {
    let a = toks("၁၂.၅");
    let b = toks("12.5");
    assert_eq!(a.len(), 1);
    assert!(matches!(&a[0].tok, Tok::Num(n) if n == "12.5"));
    assert_eq!(a[0].tok, b[0].tok);
}

#[test]
fn lex_point_without_digit_is_not_part_of_number() {
    let t = toks("7.x");
    assert!(matches!(&t[0].tok, Tok::Num(n) if n == "7"));
    assert!(ident(&t[1].tok, ".x"));
}

#[test]
fn lex_strings_and_lines() {
    let t = toks("\"a\nb\" ကို ဖော်ပြပါ။\ny");
    assert!(matches!(&t[0].tok, Tok::Str(s) if s == "a\nb"));
    assert_eq!(t[0].line, 1);
    assert_eq!(t[1].line, 2);
    let last = t.last().unwrap();
    assert!(ident(&last.tok, "y"));
    assert_eq!(last.line, 3);
    for w in t.windows(2) {
        assert!(w[0].line <= w[1].line);
    }
}

#[test]
fn lex_unclosed_string_is_an_error() {
    match lex("x သည် \"abc") {
        Err(e) => assert_eq!(e, "E003 လိုင်း 1 တွင် string တန်ဖိုးအတွက် ပိတ် '\"' မရှိပါ။"),
        Ok(_) => panic!("expected an error"),
    }
    match lex("\n\n\"") {
        Err(e) => assert_eq!(e, "E003 လိုင်း 3 တွင် string တန်ဖိုးအတွက် ပိတ် '\"' မရှိပါ။"),
        Ok(_) => panic!("expected an error"),
    }
}

#[test]
fn lex_comparisons_and_brackets() {
    let t = toks("a <= b != c == d > [1, 2] ( ) { } % =");
    let kinds: Vec<String> = t.iter().map(|k| format!("{:?}", k.tok)).collect();
    assert_eq!(
        kinds,
        vec![
            "Ident(\"a\")", "Cmp(\"<=\")", "Ident(\"b\")", "Cmp(\"!=\")", "Ident(\"c\")",
            "Cmp(\"==\")", "Ident(\"d\")", "Cmp(\">\")", "LBracket", "Num(\"1\")", "Comma",
            "Num(\"2\")", "RBracket", "LParen", "RParen", "LBrace", "RBrace", "Op('%')",
        ]
    );
}

#[test]
fn lex_comments_and_bom_are_ignored() {
    let a = toks("\u{feff}# note\nx ကို ဖော်ပြပါ။ # trailing");
    let b = toks("\nx ကို ဖော်ပြပါ။");
    assert_eq!(a.len(), b.len());
    for (x, y) in a.iter().zip(b.iter()) {
        assert_eq!(x.tok, y.tok);
        assert_eq!(x.line, y.line);
    }
    assert_eq!(a[0].line, 2);
}

#[test]
fn lex_empty_source() {
    assert!(toks("").is_empty());
    assert!(toks("   \n\t ").is_empty());
}

#[test]
fn lex_word_split_keeps_its_text() {
    let word = "ကိန်းပြည့်သို့ပြောင်းပါ။";
    let t = toks(word);
    assert_eq!(t.len(), 4);
    assert!(ident(&t[0].tok, "ကိန်းပြည့်"));
    assert!(ident(&t[1].tok, "သို့"));
    assert!(ident(&t[2].tok, "ပြောင်းပါ"));
    assert!(matches!(t[3].tok, Tok::End));
    let mut back = String::new();
    for k in &t {
        match &k.tok {
            Tok::Ident(s) => back.push_str(s),
            Tok::End => back.push('။'),
            _ => {}
        }
    }
    assert_eq!(back, word);
}

#[test]
fn lex_type_names_are_not_split_off() {
    // A name may end in a type name such as "စာရင်း".
    let t = toks("လူစာရင်း");
    assert_eq!(t.len(), 1);
    assert!(ident(&t[0].tok, "လူစာရင်း"));
}

#[test]
fn lex_tokens_keep_their_shape() {
    let t = toks("ab#c\n\"q r\" 1.5.x 2. abc,def");
    for k in &t {
        match &k.tok {
            Tok::Ident(s) => assert!(!s.chars().any(|c| c.is_whitespace() || ",\"#+-*/%[](){}<>=!".contains(c))),
            Tok::Str(s) => assert!(!s.contains('"')),
            Tok::Num(n) => assert!(n.chars().last().unwrap().is_ascii_digit()),
            _ => {}
        }
    }
    assert!(matches!(&t[0].tok, Tok::Ident(s) if s == "ab"));
    assert!(t.iter().any(|k| matches!(&k.tok, Tok::Num(n) if n == "1.5")));
    assert!(t.iter().any(|k| matches!(&k.tok, Tok::Num(n) if n == "2")));
}
