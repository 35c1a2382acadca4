//! Conditions of if/elif and while: parenthesised groups joined by the
//! logical-operator groups "(နှင့်)" and "(သို့)".
use vstd::prelude::*;
use vstd::slice::slice_subrange;

use crate::lexer::{Tok, Token};
use crate::parser::ast::{CondAtom, CondAtomM, CondChain, CondChainM, LogicalOp, atom_m, atoms_m, chain_m};
use crate::parser::expr::{p_expr, parse_expr};
use crate::parser::messages::{
    if_condition_syntax_err, if_condition_syntax_msg, if_missing_condition_err,
    if_missing_condition_msg, while_condition_syntax_err, while_condition_syntax_msg,
    while_missing_condition_err, while_missing_condition_msg,
};
use crate::parser::scan::{
    KW_AND, KW_ASSIGN, KW_OR, find_close, find_close_spec, find_kw_spec, find_kw_top_level,
    ident_eq, ident_is,
};
use crate::text::str_eq;

verus! {

pub const TC_STR: &'static str = "စာသား";
pub const TC_NUM: &'static str = "ကိန်း";
pub const TC_FLOAT: &'static str = "ဒဿမကိန်း";
pub const TC_BOOL: &'static str = "မှန်/မှား";

/// The type named after "သည်" in a type-check condition. The bool name
/// "မှန်/မှား" arrives as three tokens, since the lexer reads its `/` as an
/// operator.
pub open spec fn typecheck_name_spec(t: Seq<Token>) -> Option<Seq<char>> {
    if t.len() == 3 && t[0].tok is Ident && t[1].tok == Tok::Op('/') && t[2].tok is Ident
        && t[0].tok->Ident_0@ == "မှန်"@ && t[2].tok->Ident_0@ == "မှား"@ {
        Some(TC_BOOL@)
    } else if t.len() == 1 && t[0].tok is Ident && (t[0].tok->Ident_0@ == TC_STR@
        || t[0].tok->Ident_0@ == TC_NUM@ || t[0].tok->Ident_0@ == TC_FLOAT@) {
        Some(t[0].tok->Ident_0@)
    } else {
        None
    }
}

pub(crate) fn parse_typecheck_name(tokens: &[Token]) -> (r: Option<String>)
    ensures
        match (r, typecheck_name_spec(tokens@)) {
            (Some(s), Some(m)) => s@ == m,
            (None, None) => true,
            _ => false,
        },
{
    if tokens.len() == 3 {
        match (&tokens[0].tok, &tokens[1].tok, &tokens[2].tok) {
            (Tok::Ident(a), Tok::Op(c), Tok::Ident(b)) => {
                if *c == '/' && str_eq(a.as_str(), "မှန်") && str_eq(b.as_str(), "မှား") {
                    return Some(String::from_str(TC_BOOL));
                }
            },
            _ => {},
        }
    }
    if tokens.len() == 1 {
        match &tokens[0].tok {
            Tok::Ident(s) => {
                if str_eq(s.as_str(), TC_STR) || str_eq(s.as_str(), TC_NUM) || str_eq(
                    s.as_str(),
                    TC_FLOAT,
                ) {
                    return Some(s.clone());
                }
            },
            _ => {},
        }
    }
    None
}

/// The first index from `i` on that holds a comparison operator.
pub open spec fn first_comparison_from(t: Seq<Token>, i: int) -> Option<int>
    decreases t.len() - i,
{
    if i < 0 || i >= t.len() {
        None
    } else if t[i].tok is Cmp {
        Some(i)
    } else {
        first_comparison_from(t, i + 1)
    }
}

/// A comparison condition whose operator stands at `idx`.
pub open spec fn comparison_atom_spec(t: Seq<Token>, idx: int, line: nat) -> Result<CondAtomM, Seq<char>> {
    if idx <= 0 || idx + 1 >= t.len() {
        Err(if_condition_syntax_msg(line))
    } else {
        match p_expr(t.subrange(0, idx), line) {
            Ok(lhs) => match p_expr(t.subrange(idx + 1, t.len() as int), line) {
                Ok(rhs) => Ok(
                    CondAtomM {
                        lhs,
                        op: Some(t[idx].tok->Cmp_0@),
                        rhs: Some(rhs),
                        type_check: None,
                        line,
                    },
                ),
                Err(m) => Err(m),
            },
            Err(m) => Err(m),
        }
    }
}

/// One condition group's inner tokens. Checked in this order: a type check
/// "<expr> သည် <type>", a comparison "<expr> <op> <expr>", a bare
/// boolean-valued expression.
pub open spec fn cond_atom_spec(t: Seq<Token>, line: nat) -> Result<CondAtomM, Seq<char>> {
    match find_kw_spec(t, KW_ASSIGN@) {
        Some(is_idx) => if is_idx <= 0 || is_idx >= t.len() {
            Err(if_condition_syntax_msg(line))
        } else {
            match p_expr(t.subrange(0, is_idx), line) {
                Ok(lhs) => match typecheck_name_spec(t.subrange(is_idx + 1, t.len() as int)) {
                    Some(tn) => Ok(
                        CondAtomM { lhs, op: None, rhs: None, type_check: Some(tn), line },
                    ),
                    None => Err(if_condition_syntax_msg(line)),
                },
                Err(m) => Err(m),
            }
        },
        None => match first_comparison_from(t, 0) {
            Some(idx) => comparison_atom_spec(t, idx, line),
            None => match p_expr(t, line) {
                Ok(lhs) => Ok(CondAtomM { lhs, op: None, rhs: None, type_check: None, line }),
                Err(m) => Err(m),
            },
        },
    }
}

pub open spec fn atom_res(r: Result<CondAtom, String>, s: Result<CondAtomM, Seq<char>>) -> bool {
    match (r, s) {
        (Ok(a), Ok(m)) => atom_m(a) == m,
        (Err(e), Err(m)) => e@ == m,
        _ => false,
    }
}

fn find_comparison(tokens: &[Token]) -> (r: Option<usize>)
    ensures
        r matches Some(k) ==> first_comparison_from(tokens@, 0) == Some(k as int) && k < tokens@.len()
            && tokens@[k as int].tok is Cmp,
        r is None ==> first_comparison_from(tokens@, 0) is None,
{
    let mut k: usize = 0;
    while k < tokens.len()
        invariant
            k <= tokens@.len(),
            first_comparison_from(tokens@, 0) == first_comparison_from(tokens@, k as int),
        decreases tokens@.len() - k,
    {
        match &tokens[k].tok {
            Tok::Cmp(_) => return Some(k),
            _ => {},
        }
        k += 1;
    }
    None
}

fn parse_comparison(tokens: &[Token], k: usize, line: usize) -> (r: Result<CondAtom, String>)
    requires
        k < tokens@.len(),
        tokens@[k as int].tok is Cmp,
    ensures
        atom_res(r, comparison_atom_spec(tokens@, k as int, line as nat)),
{
    let n = tokens.len();
    if k == 0 || k + 1 >= n {
        return Err(if_condition_syntax_err(line));
    }
    let op = match &tokens[k].tok {
        Tok::Cmp(op) => op.clone(),
        _ => String::new(),
    };
    let lhs = match parse_expr(slice_subrange(tokens, 0, k), line) {
        Ok(e) => e,
        Err(m) => return Err(m),
    };
    let rhs = match parse_expr(slice_subrange(tokens, k + 1, n), line) {
        Ok(e) => e,
        Err(m) => return Err(m),
    };
    Ok(CondAtom { lhs, op: Some(op), rhs: Some(rhs), type_check: None, line })
}

pub(crate) fn parse_cond_atom(tokens: &[Token], line: usize) -> (r: Result<CondAtom, String>)
    ensures
        atom_res(r, cond_atom_spec(tokens@, line as nat)),
{
    let n = tokens.len();
    if let Some(is_idx) = find_kw_top_level(tokens, KW_ASSIGN) {
        if is_idx == 0 {
            return Err(if_condition_syntax_err(line));
        }
        let lhs = match parse_expr(slice_subrange(tokens, 0, is_idx), line) {
            Ok(e) => e,
            Err(m) => return Err(m),
        };
        let type_tokens = slice_subrange(tokens, is_idx + 1, n);
        let tn = match parse_typecheck_name(type_tokens) {
            Some(s) => s,
            None => return Err(if_condition_syntax_err(line)),
        };
        return Ok(CondAtom { lhs, op: None, rhs: None, type_check: Some(tn), line });
    }
    if let Some(k) = find_comparison(tokens) {
        return parse_comparison(tokens, k, line);
    }
    let lhs = match parse_expr(tokens, line) {
        Ok(e) => e,
        Err(m) => return Err(m),
    };
    Ok(CondAtom { lhs, op: None, rhs: None, type_check: None, line })
}

pub open spec fn missing_condition_msg(line: nat, is_while: bool) -> Seq<char> {
    if is_while {
        while_missing_condition_msg(line)
    } else {
        if_missing_condition_msg(line)
    }
}

pub open spec fn condition_syntax_msg(line: nat, is_while: bool) -> Seq<char> {
    if is_while {
        while_condition_syntax_msg(line)
    } else {
        if_condition_syntax_msg(line)
    }
}

/// The logical operator that a group stands for, if it is one: a group made
/// of the single identifier "နှင့်" (and) or "သို့" (or).
pub open spec fn group_op(g: Seq<Token>) -> Option<LogicalOp> {
    if g.len() == 1 && ident_is(g[0].tok, KW_AND@) {
        Some(LogicalOp::And)
    } else if g.len() == 1 && ident_is(g[0].tok, KW_OR@) {
        Some(LogicalOp::Or)
    } else {
        None
    }
}

/// Reads the groups of a condition chain from `idx` on. `first` is the
/// first condition read so far, `rest` the later ones with the operators
/// before them, and `pending` an operator read but not yet followed by a
/// condition.
pub open spec fn chain_from(
    t: Seq<Token>,
    idx: int,
    first: Option<CondAtomM>,
    rest: Seq<(LogicalOp, CondAtomM)>,
    pending: Option<LogicalOp>,
    line: nat,
    is_while: bool,
) -> Result<CondChainM, Seq<char>>
    decreases t.len() - idx,
{
    if idx < 0 || idx >= t.len() {
        if pending is Some || first is None {
            Err(condition_syntax_msg(line, is_while))
        } else {
            Ok(CondChainM { first: first->0, rest })
        }
    } else if t[idx].tok !is LParen {
        Err(condition_syntax_msg(line, is_while))
    } else {
        match find_close_spec(t, idx, line) {
            Err(m) => Err(m),
            Ok(close) => if close <= idx || close >= t.len() {
                Err(condition_syntax_msg(line, is_while))
            } else {
                let group = t.subrange(idx + 1, close);
                match group_op(group) {
                    Some(op) => if pending is Some || first is None {
                        Err(condition_syntax_msg(line, is_while))
                    } else {
                        chain_from(t, close + 1, first, rest, Some(op), line, is_while)
                    },
                    None => if first is Some && pending is None {
                        Err(condition_syntax_msg(line, is_while))
                    } else {
                        match cond_atom_spec(group, line) {
                            Err(m) => Err(m),
                            Ok(atom) => if first is None {
                                chain_from(t, close + 1, Some(atom), rest, None, line, is_while)
                            } else {
                                chain_from(
                                    t,
                                    close + 1,
                                    first,
                                    rest.push((pending->0, atom)),
                                    None,
                                    line,
                                    is_while,
                                )
                            },
                        }
                    },
                }
            },
        }
    }
}

/// A sequence of parenthesised conditions and parenthesised logical
/// operators, e.g. "(x == 10) (နှင့်) (y == 20)". `is_while` selects the
/// wording of the messages (if/elif or while).
pub open spec fn cond_chain_spec(t: Seq<Token>, line: nat, is_while: bool) -> Result<CondChainM, Seq<char>> {
    if t.len() == 0 {
        Err(missing_condition_msg(line, is_while))
    } else {
        chain_from(t, 0, None, Seq::empty(), None, line, is_while)
    }
}

pub open spec fn chain_res(r: Result<CondChain, String>, s: Result<CondChainM, Seq<char>>) -> bool {
    match (r, s) {
        (Ok(c), Ok(m)) => chain_m(c) == m,
        (Err(e), Err(m)) => e@ == m,
        _ => false,
    }
}

fn missing_condition_err(line: usize, is_while: bool) -> (r: String)
    ensures
        r@ == missing_condition_msg(line as nat, is_while),
{
    if is_while {
        while_missing_condition_err(line)
    } else {
        if_missing_condition_err(line)
    }
}

fn condition_syntax_err(line: usize, is_while: bool) -> (r: String)
    ensures
        r@ == condition_syntax_msg(line as nat, is_while),
{
    if is_while {
        while_condition_syntax_err(line)
    } else {
        if_condition_syntax_err(line)
    }
}

fn group_logical_op(g: &[Token]) -> (r: Option<LogicalOp>)
    ensures
        r == group_op(g@),
{
    if g.len() == 1 && ident_eq(&g[0].tok, KW_AND) {
        Some(LogicalOp::And)
    } else if g.len() == 1 && ident_eq(&g[0].tok, KW_OR) {
        Some(LogicalOp::Or)
    } else {
        None
    }
}

pub(crate) fn parse_cond_chain(tokens: &[Token], line: usize, is_while: bool) -> (r: Result<CondChain, String>)
    ensures
        chain_res(r, cond_chain_spec(tokens@, line as nat, is_while)),
{
    if tokens.len() == 0 {
        return Err(missing_condition_err(line, is_while));
    }
    let n = tokens.len();
    let mut idx: usize = 0;
    let mut first: Option<CondAtom> = None;
    let mut rest: Vec<(LogicalOp, CondAtom)> = Vec::new();
    let mut pending: Option<LogicalOp> = None;
    proof {
        assert(atoms_m(rest@) =~= Seq::<(LogicalOp, CondAtomM)>::empty());
    }
    while idx < n
        invariant
            n == tokens@.len(),
            idx <= n,
            cond_chain_spec(tokens@, line as nat, is_while) == chain_from(
                tokens@,
                idx as int,
                match first {
                    Some(a) => Some(atom_m(a)),
                    None => None,
                },
                atoms_m(rest@),
                pending,
                line as nat,
                is_while,
            ),
        decreases n - idx,
    {
        match &tokens[idx].tok {
            Tok::LParen => {},
            _ => return Err(condition_syntax_err(line, is_while)),
        }
        let close = match find_close(tokens, idx, line) {
            Ok(c) => c,
            Err(m) => return Err(m),
        };
        let group = slice_subrange(tokens, idx + 1, close);
        match group_logical_op(group) {
            Some(op) => {
                if pending.is_some() || first.is_none() {
                    return Err(condition_syntax_err(line, is_while));
                }
                pending = Some(op);
            },
            None => {
                if first.is_some() && pending.is_none() {
                    return Err(condition_syntax_err(line, is_while));
                }
                let atom = match parse_cond_atom(group, line) {
                    Ok(a) => a,
                    Err(m) => return Err(m),
                };
                if first.is_none() {
                    first = Some(atom);
                } else {
                    let ghost before = rest@;
                    let op = match pending {
                        Some(op) => op,
                        None => LogicalOp::And,
                    };
                    rest.push((op, atom));
                    proof {
                        assert(atoms_m(rest@) =~= atoms_m(before).push((op, atom_m(atom))));
                    }
                }
                pending = None;
            },
        }
        idx = close + 1;
    }
    if pending.is_some() {
        return Err(condition_syntax_err(line, is_while));
    }
    match first {
        Some(f) => Ok(CondChain { first: f, rest }),
        None => Err(condition_syntax_err(line, is_while)),
    }
}

} // verus!
