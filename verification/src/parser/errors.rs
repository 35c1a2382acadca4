//! Every message the parser gives begins with "လိုင်း <N>", the line it is
//! about, after its error code where it has one. Each kind of parse goes
//! with a proof that its errors do.
use vstd::prelude::*;

use crate::lexer::{Tok, Token};
use crate::parser::ast::{CondAtomM, ExprM, IfBranchM, LogicalOp};
use crate::parser::block::{
    catch_header_spec, p_try, for_source_spec, p_block, p_chunks, p_class_def, p_for_loop, p_func_def,
    p_if_from, p_stmt, p_while, param_names_spec, params_spec, step_clause_spec,
};
use crate::parser::cond::{chain_from, cond_atom_spec, cond_chain_spec, group_op};
use crate::parser::expr::{
    has_end_token, p_dict_entries, p_expr, p_expr_at, p_expr_loop, p_parts, p_primary_at,
    p_term_at, p_term_loop,
};
use crate::parser::messages::{
    class_body_not_method_msg, class_missing_constructor_msg, class_missing_name_msg,
    class_missing_period_msg, convert_missing_type_msg, convert_missing_value_msg,
    decl_missing_assign_msg, decl_missing_value_msg, dict_entry_msg, fn_missing_particle_msg,
    fn_missing_value_msg, func_bad_param_msg, func_call_bad_name_msg, func_call_missing_arg_msg,
    func_call_missing_by_msg, func_call_missing_particle_msg, func_missing_by_msg,
    func_missing_name_msg, generic_syntax_msg, if_condition_syntax_msg, if_missing_condition_msg,
    if_missing_then_msg, math_missing_value_msg, mismatched_bracket_msg, missing_period_msg,
    self_missing_assign_msg, self_missing_value_msg, unclosed_bracket_msg,
    while_condition_syntax_msg, while_missing_condition_msg, while_missing_then_msg,
};
use crate::parser::scan::{
    Delim, KW_ASSIGN, KW_BY, KW_CLASS_DEF, KW_ELIF, KW_ELSE, KW_FOR, KW_FUNC_DEF, KW_IF, KW_IS,
    KW_LOOP_EACH, KW_LOOP_END, KW_LOOP_FROM, KW_NEW, KW_THEN_NEG, KW_THEN_POS, KW_WHILE,
    KW_WHILE_NEG, KW_WHILE_POS, KW_TRY, KW_CATCH, KW_FINALLY, close_from, find_close_spec, find_first_at_block_level_spec,
    find_kw_spec, has_end_spec, ident_is, is_close_spec, is_open_spec, open_char_of, partner_of,
    split_statements_spec, split_top_level_spec,
};
use crate::parser::parse_spec;
use crate::parser::stmt::{FaultM, simple_stmt_spec};
use crate::text::{decimal, has_prefix};

verus! {

/// "လိုင်း <N>": how a message about line `l` begins.
pub open spec fn line_prefix(l: nat) -> Seq<char> {
    "လိုင်း "@ + decimal(l)
}

/// The codes that a parser message may carry before its line.
pub open spec fn parse_code(c: Seq<char>) -> bool {
    c == Seq::<char>::empty() || c == "E001 "@ || c == "E002 "@
}

/// `m` begins with "လိုင်း <l>", after an error code where it has one.
pub open spec fn names_line_at(m: Seq<char>, l: nat) -> bool {
    exists|c: Seq<char>| parse_code(c) && #[trigger] has_prefix(m, c + line_prefix(l))
}

/// `m` begins with "လိုင်း <N>" for some line `N`, after its error code
/// (`E001` or `E002`) where it has one.
pub open spec fn names_line(m: Seq<char>) -> bool {
    exists|l: nat| #[trigger] names_line_at(m, l)
}

/// A failed result's message names its line.
pub open spec fn err_names_line<T>(r: Result<T, Seq<char>>) -> bool {
    r matches Err(m) ==> names_line(m)
}

proof fn lemma_names_line_base(c: Seq<char>, l: nat)
    requires
        parse_code(c),
    ensures
        names_line(c + line_prefix(l)),
{
    let p = c + line_prefix(l);
    assert(p.subrange(0, p.len() as int) =~= p);
    assert(has_prefix(p, c + line_prefix(l)));
    assert(names_line_at(p, l));
}

/// Text added at the end keeps a message's beginning.
pub broadcast proof fn lemma_names_line_extend(m: Seq<char>, x: Seq<char>)
    requires
        names_line(m),
    ensures
        #[trigger] names_line(m + x),
{
    let l = choose|l: nat| #[trigger] names_line_at(m, l);
    let c = choose|c: Seq<char>| parse_code(c) && #[trigger] has_prefix(m, c + line_prefix(l));
    let p = c + line_prefix(l);
    assert((m + x).subrange(0, p.len() as int) =~= m.subrange(0, p.len() as int));
    assert(has_prefix(m + x, c + line_prefix(l)));
    assert(names_line_at(m + x, l));
}

/// Each of the parser's messages names its line.
pub proof fn lemma_messages_name_line()
    ensures
        forall|l: nat| names_line(#[trigger] missing_period_msg(l)),
        forall|l: nat| names_line(#[trigger] generic_syntax_msg(l)),
        forall|l: nat, c: char| names_line(#[trigger] unclosed_bracket_msg(l, c)),
        forall|l: nat| names_line(#[trigger] mismatched_bracket_msg(l)),
        forall|l: nat| names_line(#[trigger] dict_entry_msg(l)),
        forall|l: nat, f: Seq<char>| names_line(#[trigger] fn_missing_particle_msg(l, f)),
        forall|l: nat, f: Seq<char>| names_line(#[trigger] fn_missing_value_msg(l, f)),
        forall|l: nat| names_line(#[trigger] convert_missing_value_msg(l)),
        forall|l: nat| names_line(#[trigger] convert_missing_type_msg(l)),
        forall|l: nat, f: Seq<char>| names_line(#[trigger] math_missing_value_msg(l, f)),
        forall|l: nat| names_line(#[trigger] if_missing_condition_msg(l)),
        forall|l: nat| names_line(#[trigger] if_condition_syntax_msg(l)),
        forall|l: nat| names_line(#[trigger] if_missing_then_msg(l)),
        forall|l: nat| names_line(#[trigger] while_missing_condition_msg(l)),
        forall|l: nat| names_line(#[trigger] while_condition_syntax_msg(l)),
        forall|l: nat| names_line(#[trigger] while_missing_then_msg(l)),
        forall|l: nat| names_line(#[trigger] func_missing_name_msg(l)),
        forall|l: nat| names_line(#[trigger] func_bad_param_msg(l)),
        forall|l: nat| names_line(#[trigger] func_missing_by_msg(l)),
        forall|l: nat| names_line(#[trigger] func_call_bad_name_msg(l)),
        forall|l: nat| names_line(#[trigger] func_call_missing_particle_msg(l)),
        forall|l: nat| names_line(#[trigger] func_call_missing_by_msg(l)),
        forall|l: nat| names_line(#[trigger] func_call_missing_arg_msg(l)),
        forall|l: nat| names_line(#[trigger] class_missing_name_msg(l)),
        forall|l: nat| names_line(#[trigger] class_missing_period_msg(l)),
        forall|l: nat| names_line(#[trigger] class_body_not_method_msg(l)),
        forall|l: nat, n: Seq<char>| names_line(#[trigger] class_missing_constructor_msg(l, n)),
        forall|l: nat, f: Seq<char>| names_line(#[trigger] self_missing_assign_msg(l, f)),
        forall|l: nat, f: Seq<char>| names_line(#[trigger] self_missing_value_msg(l, f)),
        forall|l: nat| names_line(#[trigger] decl_missing_assign_msg(l)),
        forall|l: nat, n: Seq<char>| names_line(#[trigger] decl_missing_value_msg(l, n)),
{
    broadcast use lemma_names_line_extend;

    assert forall|l: nat| names_line(#[trigger] missing_period_msg(l)) by {
        lemma_names_line_base("E002 "@, l);
        assert("E002 "@ + line_prefix(l) =~= "E002 လိုင်း "@ + decimal(l)) by {
            reveal_strlit("E002 ");
            reveal_strlit("လိုင်း ");
            reveal_strlit("E002 လိုင်း ");
        }
    }
    assert forall|l: nat| names_line(#[trigger] generic_syntax_msg(l)) by {
        lemma_names_line_base("E001 "@, l);
        assert("E001 "@ + line_prefix(l) =~= "E001 လိုင်း "@ + decimal(l)) by {
            reveal_strlit("E001 ");
            reveal_strlit("လိုင်း ");
            reveal_strlit("E001 လိုင်း ");
        }
    }
    assert forall|l: nat, c: char| names_line(#[trigger] unclosed_bracket_msg(l, c)) by {
        lemma_names_line_base(Seq::empty(), l);
    }
    assert forall|l: nat| names_line(#[trigger] mismatched_bracket_msg(l)) by {
        lemma_names_line_base(Seq::empty(), l);
    }
    assert forall|l: nat| names_line(#[trigger] dict_entry_msg(l)) by {
        lemma_names_line_base(Seq::empty(), l);
    }
    assert forall|l: nat, f: Seq<char>| names_line(#[trigger] fn_missing_particle_msg(l, f)) by {
        lemma_names_line_base(Seq::empty(), l);
    }
    assert forall|l: nat, f: Seq<char>| names_line(#[trigger] fn_missing_value_msg(l, f)) by {
        lemma_names_line_base(Seq::empty(), l);
    }
    assert forall|l: nat| names_line(#[trigger] convert_missing_value_msg(l)) by {
        lemma_names_line_base(Seq::empty(), l);
    }
    assert forall|l: nat| names_line(#[trigger] convert_missing_type_msg(l)) by {
        lemma_names_line_base(Seq::empty(), l);
    }
    assert forall|l: nat, f: Seq<char>| names_line(#[trigger] math_missing_value_msg(l, f)) by {
        lemma_names_line_base(Seq::empty(), l);
    }
    assert forall|l: nat| names_line(#[trigger] if_missing_condition_msg(l)) by {
        lemma_names_line_base(Seq::empty(), l);
    }
    assert forall|l: nat| names_line(#[trigger] if_condition_syntax_msg(l)) by {
        lemma_names_line_base(Seq::empty(), l);
    }
    assert forall|l: nat| names_line(#[trigger] if_missing_then_msg(l)) by {
        lemma_names_line_base(Seq::empty(), l);
    }
    assert forall|l: nat| names_line(#[trigger] while_missing_condition_msg(l)) by {
        lemma_names_line_base(Seq::empty(), l);
    }
    assert forall|l: nat| names_line(#[trigger] while_condition_syntax_msg(l)) by {
        lemma_names_line_base(Seq::empty(), l);
    }
    assert forall|l: nat| names_line(#[trigger] while_missing_then_msg(l)) by {
        lemma_names_line_base(Seq::empty(), l);
    }
    assert forall|l: nat| names_line(#[trigger] func_missing_name_msg(l)) by {
        lemma_names_line_base(Seq::empty(), l);
    }
    assert forall|l: nat| names_line(#[trigger] func_bad_param_msg(l)) by {
        lemma_names_line_base(Seq::empty(), l);
    }
    assert forall|l: nat| names_line(#[trigger] func_missing_by_msg(l)) by {
        lemma_names_line_base(Seq::empty(), l);
    }
    assert forall|l: nat| names_line(#[trigger] func_call_bad_name_msg(l)) by {
        lemma_names_line_base(Seq::empty(), l);
    }
    assert forall|l: nat| names_line(#[trigger] func_call_missing_particle_msg(l)) by {
        lemma_names_line_base(Seq::empty(), l);
    }
    assert forall|l: nat| names_line(#[trigger] func_call_missing_by_msg(l)) by {
        lemma_names_line_base(Seq::empty(), l);
    }
    assert forall|l: nat| names_line(#[trigger] func_call_missing_arg_msg(l)) by {
        lemma_names_line_base(Seq::empty(), l);
    }
    assert forall|l: nat| names_line(#[trigger] class_missing_name_msg(l)) by {
        lemma_names_line_base(Seq::empty(), l);
    }
    assert forall|l: nat| names_line(#[trigger] class_missing_period_msg(l)) by {
        lemma_names_line_base(Seq::empty(), l);
    }
    assert forall|l: nat| names_line(#[trigger] class_body_not_method_msg(l)) by {
        lemma_names_line_base(Seq::empty(), l);
    }
    assert forall|l: nat, n: Seq<char>| names_line(#[trigger] class_missing_constructor_msg(l, n)) by {
        lemma_names_line_base(Seq::empty(), l);
    }
    assert forall|l: nat, f: Seq<char>| names_line(#[trigger] self_missing_assign_msg(l, f)) by {
        lemma_names_line_base(Seq::empty(), l);
    }
    assert forall|l: nat, f: Seq<char>| names_line(#[trigger] self_missing_value_msg(l, f)) by {
        lemma_names_line_base(Seq::empty(), l);
    }
    assert forall|l: nat| names_line(#[trigger] decl_missing_assign_msg(l)) by {
        lemma_names_line_base(Seq::empty(), l);
    }
    assert forall|l: nat, n: Seq<char>| names_line(#[trigger] decl_missing_value_msg(l, n)) by {
        lemma_names_line_base(Seq::empty(), l);
    }
}

proof fn lemma_close_from(t: Seq<Token>, i: int, stack: Seq<char>, open: char, line: nat)
    ensures
        err_names_line(close_from(t, i, stack, open, line)),
    decreases t.len() - i,
{
    lemma_messages_name_line();
    if 0 <= i < t.len() {
        let tok = t[i].tok;
        if is_open_spec(tok) {
            lemma_close_from(t, i + 1, stack.push(open_char_of(tok)), open, line);
        } else if is_close_spec(tok) {
            if stack.len() > 0 && stack.last() == partner_of(tok) && stack.len() != 1 {
                lemma_close_from(t, i + 1, stack.drop_last(), open, line);
            }
        } else {
            lemma_close_from(t, i + 1, stack, open, line);
        }
    }
}

/// Finding the bracket that closes another fails only with a message that
/// names its line.
pub proof fn lemma_find_close_errors(t: Seq<Token>, open_idx: int, line: nat)
    ensures
        err_names_line(find_close_spec(t, open_idx, line)),
{
    let c = open_char_of(t[open_idx].tok);
    lemma_close_from(t, open_idx + 1, seq![c], c, line);
}

proof fn lemma_p_expr(t: Seq<Token>, line: nat)
    ensures
        err_names_line(p_expr(t, line)),
    decreases t.len(), t.len() + 1, 3int,
{
    lemma_messages_name_line();
    if t.len() > 0 {
        lemma_p_expr_at(t, 0, line);
    }
}

proof fn lemma_p_expr_at(t: Seq<Token>, pos: int, line: nat)
    ensures
        err_names_line(p_expr_at(t, pos, line)),
    decreases t.len(), t.len() - pos, 2int,
{
    lemma_p_term_at(t, pos, line);
    match p_term_at(t, pos, line) {
        Ok((e, i)) => if pos < i <= t.len() {
            lemma_p_expr_loop(t, e, i, line);
        },
        Err(_) => {},
    }
}

proof fn lemma_p_expr_loop(t: Seq<Token>, e: ExprM, i: int, line: nat)
    ensures
        err_names_line(p_expr_loop(t, e, i, line)),
    decreases t.len(), t.len() - i, 2int,
{
    if 0 <= i < t.len() && t[i].tok is Op {
        let c = t[i].tok->Op_0;
        lemma_p_term_at(t, i + 1, line);
        match p_term_at(t, i + 1, line) {
            Ok((r, ni)) => {
                let e2 = ExprM::Binary(Box::new(e), c, Box::new(r), t[i].line as nat);
                if i + 1 < ni <= t.len() {
                    lemma_p_expr_loop(t, e2, ni, line);
                }
            },
            Err(_) => {},
        }
    }
}

proof fn lemma_p_term_at(t: Seq<Token>, pos: int, line: nat)
    ensures
        err_names_line(p_term_at(t, pos, line)),
    decreases t.len(), t.len() - pos, 1int,
{
    lemma_p_primary_at(t, pos, line);
    match p_primary_at(t, pos, line) {
        Ok((e, i)) => if pos < i <= t.len() {
            lemma_p_term_loop(t, e, i, line);
        },
        Err(_) => {},
    }
}

proof fn lemma_p_term_loop(t: Seq<Token>, e: ExprM, i: int, line: nat)
    ensures
        err_names_line(p_term_loop(t, e, i, line)),
    decreases t.len(), t.len() - i, 1int,
{
    lemma_messages_name_line();
    if 0 <= i < t.len() && t[i].tok is LBracket {
        lemma_find_close_errors(t, i, t[i].line as nat);
        match find_close_spec(t, i, t[i].line as nat) {
            Ok(c) => if i < c < t.len() {
                let inner = t.subrange(i + 1, c);
                if inner.len() != 0 {
                    let parts = split_top_level_spec(inner, Delim::Comma);
                    lemma_p_parts(inner, parts, line);
                    match p_parts(inner, parts, line) {
                        Ok(idx) => lemma_p_term_loop(t, ExprM::Index(Box::new(e), idx), c + 1, line),
                        Err(_) => {},
                    }
                }
            },
            Err(_) => {},
        }
    }
}

proof fn lemma_p_parts(inner: Seq<Token>, parts: Seq<(usize, usize)>, line: nat)
    ensures
        err_names_line(p_parts(inner, parts, line)),
    decreases inner.len(), inner.len() + 2, parts.len(),
{
    lemma_messages_name_line();
    if parts.len() > 0 {
        let (a, b) = parts[0];
        if a <= b <= inner.len() {
            lemma_p_expr(inner.subrange(a as int, b as int), line);
            lemma_p_parts(inner, parts.drop_first(), line);
        }
    }
}

proof fn lemma_p_dict_entries(inner: Seq<Token>, entries: Seq<(usize, usize)>, line: nat)
    ensures
        err_names_line(p_dict_entries(inner, entries, line)),
    decreases inner.len(), inner.len() + 2, entries.len(),
{
    lemma_messages_name_line();
    if entries.len() > 0 {
        let (a, b) = entries[0];
        if a <= b <= inner.len() {
            let e = inner.subrange(a as int, b as int);
            match find_kw_spec(e, KW_IS@) {
                None => {},
                Some(is_idx) => if !(is_idx + 1 != e.len() || is_idx < 0) {
                    let body = e.subrange(0, is_idx);
                    match find_kw_spec(body, KW_ASSIGN@) {
                        None => {},
                        Some(ai) => if 0 <= ai < body.len() {
                            lemma_p_expr(body.subrange(0, ai), line);
                            lemma_p_expr(body.subrange(ai + 1, body.len() as int), line);
                            lemma_p_dict_entries(inner, entries.drop_first(), line);
                        },
                    }
                },
            }
        }
    }
}

proof fn lemma_p_primary_at(t: Seq<Token>, pos: int, line: nat)
    ensures
        err_names_line(p_primary_at(t, pos, line)),
    decreases t.len(), t.len() - pos, 0int,
{
    lemma_messages_name_line();
    if 0 <= pos < t.len() {
        let n = t.len();
        match t[pos].tok {
            Tok::Op(c) => if c == '-' {
                lemma_p_term_at(t, pos + 1, line);
            },
            Tok::Ident(s) => {
                let next = if pos + 1 < n && ident_is(t[pos + 1].tok, KW_NEW@) {
                    pos + 2
                } else {
                    pos + 1
                };
                if next < n && t[next].tok is LParen {
                    lemma_find_close_errors(t, next, t[next].line as nat);
                    match find_close_spec(t, next, t[next].line as nat) {
                        Ok(close) => if next < close < n {
                            let inner = t.subrange(next + 1, close);
                            lemma_p_parts(inner, split_top_level_spec(inner, Delim::Comma), line);
                        },
                        Err(_) => {},
                    }
                }
            },
            Tok::LBracket | Tok::LParen => {
                lemma_find_close_errors(t, pos, t[pos].line as nat);
                match find_close_spec(t, pos, t[pos].line as nat) {
                    Ok(close) => if pos < close < n {
                        let inner = t.subrange(pos + 1, close);
                        lemma_p_parts(inner, split_top_level_spec(inner, Delim::Comma), line);
                    },
                    Err(_) => {},
                }
            },
            Tok::LBrace => {
                lemma_find_close_errors(t, pos, t[pos].line as nat);
                match find_close_spec(t, pos, t[pos].line as nat) {
                    Ok(close) => if pos < close < n {
                        let inner = t.subrange(pos + 1, close);
                        if has_end_token(inner) {
                            lemma_p_dict_entries(inner, split_top_level_spec(inner, Delim::End), line);
                        } else {
                            lemma_p_parts(inner, split_top_level_spec(inner, Delim::Comma), line);
                        }
                    },
                    Err(_) => {},
                }
            },
            _ => {},
        }
    }
}

/// Expressions and terms fail only with messages that name their line.
pub proof fn lemma_expr_errors()
    ensures
        forall|t: Seq<Token>, line: nat| err_names_line(#[trigger] p_expr(t, line)),
        forall|t: Seq<Token>, pos: int, line: nat| err_names_line(#[trigger] p_term_at(t, pos, line)),
{
    assert forall|t: Seq<Token>, line: nat| err_names_line(#[trigger] p_expr(t, line)) by {
        lemma_p_expr(t, line);
    }
    assert forall|t: Seq<Token>, pos: int, line: nat| err_names_line(#[trigger] p_term_at(t, pos, line)) by {
        lemma_p_term_at(t, pos, line);
    }
}

proof fn lemma_chain_from(
    t: Seq<Token>,
    idx: int,
    first: Option<CondAtomM>,
    rest: Seq<(LogicalOp, CondAtomM)>,
    pending: Option<LogicalOp>,
    line: nat,
    is_while: bool,
)
    ensures
        err_names_line(chain_from(t, idx, first, rest, pending, line, is_while)),
    decreases t.len() - idx,
{
    lemma_messages_name_line();
    lemma_expr_errors();
    if 0 <= idx < t.len() && t[idx].tok is LParen {
        lemma_find_close_errors(t, idx, line);
        match find_close_spec(t, idx, line) {
            Err(_) => {},
            Ok(close) => if !(close <= idx || close >= t.len()) {
                let group = t.subrange(idx + 1, close);
                match group_op(group) {
                    Some(op) => if !(pending is Some || first is None) {
                        lemma_chain_from(t, close + 1, first, rest, Some(op), line, is_while);
                    },
                    None => if !(first is Some && pending is None) {
                        match cond_atom_spec(group, line) {
                            Err(_) => {},
                            Ok(atom) => if first is None {
                                lemma_chain_from(t, close + 1, Some(atom), rest, None, line, is_while);
                            } else {
                                lemma_chain_from(
                                    t,
                                    close + 1,
                                    first,
                                    rest.push((pending->0, atom)),
                                    None,
                                    line,
                                    is_while,
                                );
                            },
                        }
                    },
                }
            },
        }
    }
}

/// Conditions fail only with messages that name their line.
pub proof fn lemma_cond_errors()
    ensures
        forall|t: Seq<Token>, line: nat, is_while: bool|
            err_names_line(#[trigger] cond_chain_spec(t, line, is_while)),
{
    lemma_messages_name_line();
    assert forall|t: Seq<Token>, line: nat, is_while: bool|
        err_names_line(#[trigger] cond_chain_spec(t, line, is_while)) by {
        lemma_chain_from(t, 0, None, Seq::empty(), None, line, is_while);
    }
}

/// The fault of a result, where it is a message, names its line.
pub open spec fn fault_names_line<T>(r: Result<T, FaultM>) -> bool {
    r matches Err(FaultM::Msg(m)) ==> names_line(m)
}

/// Statements that are not blocks fail only with messages that name
/// their line.
pub proof fn lemma_simple_stmt_errors(body: Seq<Token>, end_present: bool, line: nat)
    ensures
        fault_names_line(simple_stmt_spec(body, end_present, line)),
{
    reveal(simple_stmt_spec);
    lemma_messages_name_line();
    lemma_expr_errors();
}

proof fn lemma_param_names(nt: Seq<Token>, parts: Seq<(usize, usize)>, line: nat)
    ensures
        err_names_line(param_names_spec(nt, parts, line)),
    decreases parts.len(),
{
    lemma_messages_name_line();
    if parts.len() > 0 {
        lemma_param_names(nt, parts.drop_first(), line);
    }
}

proof fn lemma_helpers_errors(t: Seq<Token>, line: nat)
    ensures
        err_names_line(params_spec(t, line)),
        forall|step: Option<(ExprM, char)>| err_names_line(#[trigger] for_source_spec(t, step, line)),
{
    lemma_messages_name_line();
    lemma_expr_errors();
    if t.len() > 0 && ident_is(t[0].tok, KW_FOR@) && t.drop_first().len() > 0 {
        let nt = t.drop_first();
        lemma_param_names(nt, split_top_level_spec(nt, Delim::Comma), line);
    }
}

proof fn lemma_p_chunks(t: Seq<Token>, chunks: Seq<(usize, usize)>)
    ensures
        fault_names_line(p_chunks(t, chunks)),
    decreases t.len(), 1int, chunks.len(),
{
    if chunks.len() > 0 {
        let (a, b) = chunks[0];
        if a < b <= t.len() {
            lemma_p_stmt(t.subrange(a as int, b as int), t[a as int].line as nat);
            lemma_p_chunks(t, chunks.drop_first());
        }
    }
}

proof fn lemma_p_block(t: Seq<Token>)
    ensures
        fault_names_line(p_block(t)),
    decreases t.len(), 2int, 0int,
{
    lemma_p_chunks(t, split_statements_spec(t));
}

proof fn lemma_p_stmt(t: Seq<Token>, line: nat)
    ensures
        fault_names_line(p_stmt(t, line)),
    decreases t.len(), 0int, 0int,
{
    let end_present = has_end_spec(t);
    let body = if end_present {
        t.drop_last()
    } else {
        t
    };
    if end_present && body.len() > 0 && ident_is(body.last().tok, KW_LOOP_END@) {
        let b = body.drop_last();
        if b.len() > 0 && ident_is(b[0].tok, KW_IF@) {
            lemma_p_if_from(b.drop_first(), 0, Seq::empty(), line);
        } else if b.len() > 0 && ident_is(b[0].tok, KW_WHILE@) {
            lemma_p_while(b.drop_first(), line);
        } else if b.len() > 0 && ident_is(b[0].tok, KW_FUNC_DEF@) {
            lemma_p_func_def(b.drop_first(), line);
        } else if b.len() > 0 && ident_is(b[0].tok, KW_CLASS_DEF@) {
            lemma_p_class_def(b.drop_first(), line);
        } else if b.len() > 0 && ident_is(b[0].tok, KW_TRY@) {
            lemma_p_try(b.drop_first(), line);
        } else {
            lemma_p_for_loop(b, line);
        }
    } else {
        lemma_simple_stmt_errors(body, end_present, line);
    }
}

proof fn lemma_p_if_from(inner: Seq<Token>, cursor: int, branches: Seq<IfBranchM>, line: nat)
    ensures
        fault_names_line(p_if_from(inner, cursor, branches, line)),
    decreases inner.len(), 3int, inner.len() - cursor,
{
    lemma_messages_name_line();
    lemma_cond_errors();
    let n = inner.len();
    if branches.len() > 0 && cursor >= n {
    } else if branches.len() > 0 && 0 <= cursor && ident_is(inner[cursor].tok, KW_ELSE@) {
        if cursor + 1 <= n {
            lemma_p_block(inner.subrange(cursor + 1, n as int));
        }
    } else if branches.len() > 0 && !(0 <= cursor && ident_is(inner[cursor].tok, KW_ELIF@)) {
    } else if branches.len() == 0 && cursor >= n {
    } else {
        let c = if branches.len() > 0 {
            cursor + 1
        } else {
            cursor
        };
        match find_first_at_block_level_spec(inner.subrange(c, n as int), KW_THEN_POS@, KW_THEN_NEG@) {
            None => {},
            Some((rel, which)) => {
                let term = c + rel;
                match cond_chain_spec(inner.subrange(c, term), line, false) {
                    Err(_) => {},
                    Ok(cond) => {
                        let c2 = term + 1;
                        let body_end = match find_first_at_block_level_spec(
                            inner.subrange(c2, n as int),
                            KW_ELIF@,
                            KW_ELSE@,
                        ) {
                            Some((r2, _)) => c2 + r2,
                            None => n as int,
                        };
                        if 0 <= cursor < c2 <= body_end <= n {
                            lemma_p_block(inner.subrange(c2, body_end));
                            match p_block(inner.subrange(c2, body_end)) {
                                Err(_) => {},
                                Ok(body) => lemma_p_if_from(
                                    inner,
                                    body_end,
                                    branches.push(
                                        IfBranchM { cond: Some(cond), negate: which == 1, body },
                                    ),
                                    line,
                                ),
                            }
                        }
                    },
                }
            },
        }
    }
}

proof fn lemma_p_while(inner: Seq<Token>, line: nat)
    ensures
        fault_names_line(p_while(inner, line)),
    decreases inner.len(), 3int, 0int,
{
    lemma_messages_name_line();
    lemma_cond_errors();
    if inner.len() > 0 {
        match find_first_at_block_level_spec(inner, KW_WHILE_POS@, KW_WHILE_NEG@) {
            None => {},
            Some((ti, which)) => if 0 <= ti < inner.len() {
                lemma_p_block(inner.subrange(ti + 1, inner.len() as int));
            },
        }
    }
}

proof fn lemma_p_func_def(inner: Seq<Token>, line: nat)
    ensures
        fault_names_line(p_func_def(inner, line)),
    decreases inner.len(), 3int, 0int,
{
    lemma_messages_name_line();
    if !(inner.len() == 0 || inner[0].tok !is Ident) {
        let rest = inner.drop_first();
        if rest.len() > 0 && ident_is(rest[0].tok, KW_ASSIGN@) {
            lemma_p_block(rest.drop_first());
        } else {
            match find_kw_spec(rest, KW_BY@) {
                None => {},
                Some(bi) => if 0 <= bi < rest.len() {
                    lemma_helpers_errors(rest.subrange(0, bi), line);
                    lemma_p_block(rest.subrange(bi + 1, rest.len() as int));
                },
            }
        }
    }
}

proof fn lemma_p_class_def(inner: Seq<Token>, line: nat)
    ensures
        fault_names_line(p_class_def(inner, line)),
    decreases inner.len(), 3int, 0int,
{
    lemma_messages_name_line();
    if !(inner.len() == 0 || inner[0].tok !is Ident) && !(inner.len() < 2 || !(inner[1].tok is End
        || ident_is(inner[1].tok, KW_ASSIGN@))) {
        lemma_p_block(inner.subrange(2, inner.len() as int));
    }
}

proof fn lemma_p_try(inner: Seq<Token>, line: nat)
    ensures
        fault_names_line(p_try(inner, line)),
    decreases inner.len(), 3int, 0int,
{
    lemma_messages_name_line();
    let n = inner.len();
    match find_first_at_block_level_spec(inner, KW_CATCH@, KW_FINALLY@) {
        None => lemma_p_block(inner),
        Some((k, which)) => if 0 <= k && k + 1 < n && inner[k + 1].tok is End {
            if which == 1 {
                lemma_p_block(inner.subrange(0, k));
                lemma_p_block(inner.subrange(k + 2, n as int));
            } else {
                match catch_header_spec(inner, k) {
                    None => {},
                    Some((hs, code, var)) => {
                        let rest = inner.subrange(k + 2, n as int);
                        lemma_p_block(inner.subrange(0, hs));
                        lemma_p_block(rest);
                        match find_first_at_block_level_spec(rest, KW_FINALLY@, KW_FINALLY@) {
                            None => {},
                            Some((f, _)) => if 0 <= f && f + 1 < rest.len() {
                                lemma_p_block(rest.subrange(0, f));
                                lemma_p_block(rest.subrange(f + 2, rest.len() as int));
                            },
                        }
                    },
                }
            }
        },
    }
}

proof fn lemma_p_for_loop(inner: Seq<Token>, line: nat)
    ensures
        fault_names_line(p_for_loop(inner, line)),
    decreases inner.len(), 3int, 0int,
{
    lemma_messages_name_line();
    if !(inner.len() < 2 || inner[0].tok !is Ident || !ident_is(inner[1].tok, KW_ASSIGN@)) {
        match find_kw_spec(inner, KW_LOOP_FROM@) {
            None => {},
            Some(htm) => if htm >= 2 {
                let st = inner.subrange(2, htm);
                let tcs = htm + 1;
                if !(st.len() == 0 || tcs >= inner.len() || !ident_is(inner[tcs].tok, KW_LOOP_EACH@)) {
                    let (step, cursor) = step_clause_spec(inner, tcs + 1, line);
                    if 0 <= cursor <= inner.len() {
                        lemma_p_block(inner.subrange(cursor, inner.len() as int));
                        lemma_helpers_errors(st, line);
                    }
                }
            },
        }
    }
}

/// Every message that parsing gives begins with "လိုင်း <N>", naming the
/// line of the statement (or bracket) it is about, after its error code
/// (`E001` for a statement that matches no form, `E002` for a missing `။`)
/// where it carries one.
pub proof fn law_parse_errors_name_line(t: Seq<Token>)
    ensures
        parse_spec(t) matches Err(FaultM::Msg(m)) ==> names_line(m),
{
    lemma_p_block(t);
}

} // verus!
