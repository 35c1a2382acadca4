//! Statements and blocks: splitting a token run into statements, and the
//! block statements (for-loop, if/elif/else, while, function and class
//! definitions) whose bodies hold statements again.
use vstd::prelude::*;
use vstd::slice::slice_subrange;

use crate::lexer::{Tok, Token};
use crate::parser::ast::{
    Expr, ExprM, ForSource, ForSourceM, IfBranch, IfBranchM, Stmt, StmtM, branches_m, expr_m, lemma_branches_m_push, lemma_stmts_m_push, source_m, stmt_m,
    stmts_m, strings_m,
};
use crate::parser::cond::{cond_chain_spec, parse_cond_chain};
use crate::parser::expr::{p_expr, p_term_at, parse_expr, parse_term_at};
use crate::parser::messages::{
    missing_period_msg,
    class_body_not_method_err, class_body_not_method_msg, class_missing_constructor_err,
    class_missing_constructor_msg, class_missing_name_err, class_missing_name_msg,
    class_missing_period_err, class_missing_period_msg, func_bad_param_err, func_bad_param_msg,
    func_missing_by_err, func_missing_by_msg, func_missing_name_err, func_missing_name_msg,
    generic_syntax_err, generic_syntax_msg, if_missing_condition_err, if_missing_condition_msg,
    if_missing_then_err, if_missing_then_msg, while_missing_condition_err,
    while_missing_condition_msg, while_missing_then_err, while_missing_then_msg,
};
use crate::parser::scan::{
    Delim, KW_ASSIGN, KW_BY, KW_CALL, KW_CALL_WITH, KW_CLASS_DEF, KW_CONVERT, KW_ELIF, KW_ELSE,
    KW_FOR, KW_FUNC_DEF, KW_IF, KW_INPUT, KW_IS, KW_LOOP_EACH, KW_LOOP_END, KW_LOOP_FROM, KW_PRINT,
    KW_THEN_NEG, KW_THEN_POS, KW_WHILE, KW_WHILE_NEG, KW_WHILE_POS, find_first_at_block_level,
    find_first_at_block_level_spec, find_kw, find_kw_spec, has_end, has_end_spec, ident_eq,
    ident_is, ranges_nonempty_within, ranges_within, split_statements, split_statements_spec,
    split_top_level, split_top_level_spec,
};
use crate::parser::scan::{KW_CATCH, KW_CATCH_AS, KW_FINALLY, KW_PARTICLE, KW_TRY, depth_after, lemma_split_statements_concat, shift_ranges};
use crate::parser::parse_spec;
use crate::parser::stmt::{
    Fault, FaultM, call_spec, call_with_spec, convert_spec, decl_spec, fault_m, first_math_from,
    input_spec, loop_fn_op, loop_fn_spec, math_fn_spec, math_spec, msg, parse_simple_stmt, print_spec,
    self_field_spec, simple_stmt_spec, stmt_res,
};

verus! {

// ---------------------------------------------------------------------
// Helpers outside the recursion
// ---------------------------------------------------------------------

/// The parameter names of a function header "အတွက် <p1>, <p2>, ...": each
/// comma-separated part must be a single identifier.
pub open spec fn param_names_spec(nt: Seq<Token>, parts: Seq<(usize, usize)>, line: nat) -> Result<
    Seq<Seq<char>>,
    Seq<char>,
>
    decreases parts.len(),
{
    if parts.len() == 0 {
        Ok(Seq::empty())
    } else {
        let p = nt.subrange(parts[0].0 as int, parts[0].1 as int);
        if p.len() != 1 || p[0].tok !is Ident {
            Err(func_bad_param_msg(line))
        } else {
            match param_names_spec(nt, parts.drop_first(), line) {
                Ok(rest) => Ok(seq![p[0].tok->Ident_0@] + rest),
                Err(m) => Err(m),
            }
        }
    }
}

/// The parameters of a function header (the tokens before "ဖြင့်").
pub open spec fn params_spec(header: Seq<Token>, line: nat) -> Result<Seq<Seq<char>>, Seq<char>> {
    if header.len() == 0 {
        Ok(Seq::empty())
    } else if ident_is(header[0].tok, KW_FOR@) {
        let nt = header.drop_first();
        if nt.len() == 0 {
            Err(func_bad_param_msg(line))
        } else {
            param_names_spec(nt, split_top_level_spec(nt, Delim::Comma), line)
        }
    } else {
        Err(func_bad_param_msg(line))
    }
}

fn parse_params(header: &[Token], line: usize) -> (r: Result<Vec<String>, String>)
    ensures
        match (r, params_spec(header@, line as nat)) {
            (Ok(v), Ok(m)) => strings_m(v@) == m,
            (Err(e), Err(m)) => e@ == m,
            _ => false,
        },
{
    let mut names: Vec<String> = Vec::new();
    if header.len() == 0 {
        proof {
            assert(strings_m(names@) =~= Seq::<Seq<char>>::empty());
        }
        return Ok(names);
    }
    if !ident_eq(&header[0].tok, KW_FOR) {
        return Err(func_bad_param_err(line));
    }
    let name_tokens = slice_subrange(header, 1, header.len());
    proof {
        assert(name_tokens@ =~= header@.drop_first());
    }
    if name_tokens.len() == 0 {
        return Err(func_bad_param_err(line));
    }
    let parts = split_top_level(name_tokens, Delim::Comma);
    let np = parts.len();
    let mut k: usize = 0;
    proof {
        assert(parts@.skip(0) =~= parts@);
        assert(strings_m(names@) =~= Seq::<Seq<char>>::empty());
        match param_names_spec(name_tokens@, parts@, line as nat) {
            Ok(xs) => assert(Seq::<Seq<char>>::empty() + xs =~= xs),
            Err(_) => {},
        }
    }
    while k < np
        invariant
            np == parts@.len(),
            k <= np,
            ranges_within(parts@, name_tokens@.len() as int),
            params_spec(header@, line as nat) == match param_names_spec(
                name_tokens@,
                parts@.skip(k as int),
                line as nat,
            ) {
                Ok(xs) => Ok(strings_m(names@) + xs),
                Err(m) => Err(m),
            },
        decreases np - k,
    {
        let (a, b) = parts[k];
        let ghost rest = parts@.skip(k as int);
        proof {
            assert(rest[0] == parts@[k as int]);
            assert(rest.drop_first() =~= parts@.skip(k + 1));
        }
        let p = slice_subrange(name_tokens, a, b);
        if p.len() != 1 {
            return Err(func_bad_param_err(line));
        }
        match &p[0].tok {
            Tok::Ident(s) => {
                let ghost before = names@;
                names.push(s.clone());
                proof {
                    assert(strings_m(names@) =~= strings_m(before).push(s@));
                    match param_names_spec(name_tokens@, parts@.skip(k + 1), line as nat) {
                        Ok(xs) => assert(strings_m(before) + (seq![s@] + xs) =~= strings_m(names@)
                            + xs),
                        Err(_) => {},
                    }
                }
            },
            _ => return Err(func_bad_param_err(line)),
        }
        k += 1;
    }
    proof {
        assert(parts@.skip(np as int) =~= Seq::<(usize, usize)>::empty());
        assert(strings_m(names@) + Seq::<Seq<char>>::empty() =~= strings_m(names@));
    }
    Ok(names)
}

/// An optional step clause right after "တစ်ခုစီ" at `cursor`: a number (or
/// negated number) followed by a step keyword such as "တိုးခြင်းဖြင့်". Gives
/// the step and its operator, if there is one, and where the body starts.
pub open spec fn step_clause_spec(inner: Seq<Token>, cursor: int, line: nat) -> (
    Option<(ExprM, char)>,
    int,
) {
    if cursor < inner.len() && (inner[cursor].tok is Num || inner[cursor].tok == Tok::Op('-')) {
        match p_term_at(inner, cursor, line) {
            Ok((step, next)) => if 0 <= next < inner.len() && inner[next].tok is Ident
                && loop_fn_spec(inner[next].tok->Ident_0@) is Some {
                (Some((step, loop_fn_spec(inner[next].tok->Ident_0@)->0)), next + 1)
            } else {
                (None, cursor)
            },
            Err(_) => (None, cursor),
        }
    } else {
        (None, cursor)
    }
}

fn parse_step_clause(inner: &[Token], cursor: usize, line: usize) -> (r: (Option<(Expr, char)>, usize))
    requires
        cursor <= inner@.len(),
    ensures
        step_clause_spec(inner@, cursor as int, line as nat) == (
            match r.0 {
                Some((e, c)) => Some((expr_m(e), c)),
                None => None,
            },
            r.1 as int,
        ),
        cursor <= r.1 <= inner@.len(),
{
    let n = inner.len();
    if cursor < n && (match &inner[cursor].tok {
        Tok::Num(_) => true,
        Tok::Op(c) => *c == '-',
        _ => false,
    }) {
        match parse_term_at(inner, cursor, line) {
            Ok((step_expr, next)) => {
                if next < n {
                    match &inner[next].tok {
                        Tok::Ident(s) => match loop_fn_op(s.as_str()) {
                            Some(op) => return (Some((step_expr, op)), next + 1),
                            None => {},
                        },
                        _ => {},
                    }
                }
            },
            Err(_) => {},
        }
    }
    (None, cursor)
}

/// What a for-loop runs over: with a step clause, "<end>" or
/// "<start>, <end>" is a range; without one, the whole source is one expression.
pub open spec fn for_source_spec(st: Seq<Token>, step: Option<(ExprM, char)>, line: nat) -> Result<
    ForSourceM,
    Seq<char>,
> {
    match step {
        Some((s, op)) => {
            let parts = split_top_level_spec(st, Delim::Comma);
            if parts.len() == 1 {
                match p_expr(st.subrange(parts[0].0 as int, parts[0].1 as int), line) {
                    Ok(end) => Ok(ForSourceM::Range { start: None, end, step: s, op }),
                    Err(m) => Err(m),
                }
            } else if parts.len() == 2 {
                match p_expr(st.subrange(parts[0].0 as int, parts[0].1 as int), line) {
                    Ok(start) => match p_expr(
                        st.subrange(parts[1].0 as int, parts[1].1 as int),
                        line,
                    ) {
                        Ok(end) => Ok(ForSourceM::Range { start: Some(start), end, step: s, op }),
                        Err(m) => Err(m),
                    },
                    Err(m) => Err(m),
                }
            } else {
                Err(generic_syntax_msg(line))
            }
        },
        None => match p_expr(st, line) {
            Ok(e) => Ok(ForSourceM::Auto(e)),
            Err(m) => Err(m),
        },
    }
}

fn parse_for_source(st: &[Token], step: Option<(Expr, char)>, line: usize) -> (r: Result<ForSource, String>)
    ensures
        match (
            r,
            for_source_spec(
                st@,
                match step {
                    Some((e, c)) => Some((expr_m(e), c)),
                    None => None,
                },
                line as nat,
            ),
        ) {
            (Ok(s), Ok(m)) => source_m(s) == m,
            (Err(e), Err(m)) => e@ == m,
            _ => false,
        },
{
    match step {
        Some((s, op)) => {
            let parts = split_top_level(st, Delim::Comma);
            if parts.len() == 1 {
                let (a, b) = parts[0];
                let end = match parse_expr(slice_subrange(st, a, b), line) {
                    Ok(e) => e,
                    Err(m) => return Err(m),
                };
                Ok(ForSource::Range { start: None, end, step: s, op })
            } else if parts.len() == 2 {
                let (a, b) = parts[0];
                let start = match parse_expr(slice_subrange(st, a, b), line) {
                    Ok(e) => e,
                    Err(m) => return Err(m),
                };
                let (c, d) = parts[1];
                let end = match parse_expr(slice_subrange(st, c, d), line) {
                    Ok(e) => e,
                    Err(m) => return Err(m),
                };
                Ok(ForSource::Range { start: Some(start), end, step: s, op })
            } else {
                Err(generic_syntax_err(line))
            }
        },
        None => {
            let e = match parse_expr(st, line) {
                Ok(e) => e,
                Err(m) => return Err(m),
            };
            Ok(ForSource::Auto(e))
        },
    }
}

/// Some statement of `body` is not a function definition.
pub open spec fn has_non_method(body: Seq<StmtM>) -> bool {
    exists|k: int| 0 <= k < body.len() && (#[trigger] body[k]) !is FuncDef
}

fn find_non_method(body: &Vec<Stmt>) -> (r: bool)
    ensures
        r == has_non_method(stmts_m(body@)),
{
    let mut k: usize = 0;
    proof {
        lemma_stmts_m_index(body@);
    }
    while k < body.len()
        invariant
            k <= body@.len(),
            stmts_m(body@).len() == body@.len(),
            forall|q: int| 0 <= q < body@.len() ==> stmts_m(body@)[q] == stmt_m(#[trigger] body@[q]),
            forall|q: int| 0 <= q < k ==> (#[trigger] stmts_m(body@)[q]) is FuncDef,
        decreases body@.len() - k,
    {
        match &body[k] {
            Stmt::FuncDef { .. } => {},
            _ => {
                proof {
                    assert(stmts_m(body@)[k as int] !is FuncDef);
                }
                return true;
            },
        }
        k += 1;
    }
    false
}

pub proof fn lemma_stmts_m_index(s: Seq<Stmt>)
    ensures
        stmts_m(s).len() == s.len(),
        forall|q: int| 0 <= q < s.len() ==> stmts_m(s)[q] == stmt_m(#[trigger] s[q]),
    decreases s.len(),
{
    if s.len() > 0 {
        lemma_stmts_m_index(s.drop_last());
        assert forall|q: int| 0 <= q < s.len() implies stmts_m(s)[q] == stmt_m(#[trigger] s[q]) by {
            if q < s.len() - 1 {
                assert(s.drop_last()[q] == s[q]);
            }
        }
    }
}


// ---------------------------------------------------------------------
// The recursion: statements, blocks and block statements
// ---------------------------------------------------------------------

/// The statements of the chunks (index ranges) of `t`, in order; the first
/// chunk that fails gives the fault. A chunk's line is its first token's.
pub open spec fn p_chunks(t: Seq<Token>, chunks: Seq<(usize, usize)>) -> Result<Seq<StmtM>, FaultM>
    decreases t.len(), 1int, chunks.len(),
{
    if chunks.len() == 0 {
        Ok(Seq::empty())
    } else {
        let (a, b) = chunks[0];
        if a < b <= t.len() {
            match p_stmt(t.subrange(a as int, b as int), t[a as int].line as nat) {
                Err(f) => Err(f),
                Ok(x) => match p_chunks(t, chunks.drop_first()) {
                    Ok(xs) => Ok(seq![x] + xs),
                    Err(f) => Err(f),
                },
            }
        } else {
            Err(FaultM::Panic)
        }
    }
}

/// The statements of a token run.
pub open spec fn p_block(t: Seq<Token>) -> Result<Seq<StmtM>, FaultM>
    decreases t.len(), 2int, 0int,
{
    p_chunks(t, split_statements_spec(t))
}

/// One statement's tokens. A statement that ends in "ပြီး။" is a block:
/// if/else, while, function or class by its first keyword, a for-loop
/// otherwise.
pub open spec fn p_stmt(t: Seq<Token>, line: nat) -> Result<StmtM, FaultM>
    decreases t.len(), 0int, 0int,
{
    let end_present = has_end_spec(t);
    let body = if end_present {
        t.drop_last()
    } else {
        t
    };
    if end_present && body.len() > 0 && ident_is(body.last().tok, KW_LOOP_END@) {
        let b = body.drop_last();
        if b.len() > 0 && ident_is(b[0].tok, KW_IF@) {
            match p_if_from(b.drop_first(), 0, Seq::empty(), line) {
                Ok(bs) => Ok(StmtM::If { branches: bs, line }),
                Err(f) => Err(f),
            }
        } else if b.len() > 0 && ident_is(b[0].tok, KW_WHILE@) {
            p_while(b.drop_first(), line)
        } else if b.len() > 0 && ident_is(b[0].tok, KW_FUNC_DEF@) {
            p_func_def(b.drop_first(), line)
        } else if b.len() > 0 && ident_is(b[0].tok, KW_CLASS_DEF@) {
            p_class_def(b.drop_first(), line)
        } else if b.len() > 0 && ident_is(b[0].tok, KW_TRY@) {
            p_try(b.drop_first(), line)
        } else {
            p_for_loop(b, line)
        }
    } else {
        simple_stmt_spec(body, end_present, line)
    }
}

/// The branches of an if/elif/else chain from `cursor` on, after the
/// `branches` read so far. Each condition ends at "ဖြစ်လျှင်" (run when
/// true) or "မဖြစ်လျှင်" (run when false); a body runs to the next
/// "သို့မဟုတ်" (elif) or "မဟုတ်လျှင်" (else) at the same level. The else
/// branch, if any, is the last.
pub open spec fn p_if_from(inner: Seq<Token>, cursor: int, branches: Seq<IfBranchM>, line: nat) -> Result<
    Seq<IfBranchM>,
    FaultM,
>
    decreases inner.len(), 3int, inner.len() - cursor,
{
    let n = inner.len();
    if branches.len() > 0 && cursor >= n {
        Ok(branches)
    } else if branches.len() > 0 && 0 <= cursor && ident_is(inner[cursor].tok, KW_ELSE@) {
        if cursor + 1 <= n {
            match p_block(inner.subrange(cursor + 1, n as int)) {
                Err(f) => Err(f),
                Ok(body) => Ok(branches.push(IfBranchM { cond: None, negate: false, body })),
            }
        } else {
            Err(FaultM::Panic)
        }
    } else if branches.len() > 0 && !(0 <= cursor && ident_is(inner[cursor].tok, KW_ELIF@)) {
        Err(FaultM::Msg(generic_syntax_msg(line)))
    } else if branches.len() == 0 && cursor >= n {
        Err(FaultM::Msg(if_missing_condition_msg(line)))
    } else {
        let c = if branches.len() > 0 {
            cursor + 1
        } else {
            cursor
        };
        match find_first_at_block_level_spec(inner.subrange(c, n as int), KW_THEN_POS@, KW_THEN_NEG@) {
            None => Err(FaultM::Msg(if_missing_then_msg(line))),
            Some((rel, which)) => {
                let term = c + rel;
                match cond_chain_spec(inner.subrange(c, term), line, false) {
                    Err(m) => Err(FaultM::Msg(m)),
                    Ok(cond) => {
                        let c2 = term + 1;
                        let body_end = match find_first_at_block_level_spec(
                            inner.subrange(c2, n as int),
                            KW_ELIF@,
                            KW_ELSE@,
                        ) {
                            Some((r2, _)) => c2 + r2,
                            None => n as int,
                        };
                        if 0 <= cursor < c2 <= body_end <= n {
                            match p_block(inner.subrange(c2, body_end)) {
                                Err(f) => Err(f),
                                Ok(body) => p_if_from(
                                    inner,
                                    body_end,
                                    branches.push(
                                        IfBranchM { cond: Some(cond), negate: which == 1, body },
                                    ),
                                    line,
                                ),
                            }
                        } else {
                            Err(FaultM::Panic)
                        }
                    },
                }
            },
        }
    }
}

/// "(<condition...>) ဖြစ်နေစဉ်/မဖြစ်နေစဉ် <body...>" after "အခြေအနေ".
pub open spec fn p_while(inner: Seq<Token>, line: nat) -> Result<StmtM, FaultM>
    decreases inner.len(), 3int, 0int,
{
    if inner.len() == 0 {
        msg(while_missing_condition_msg(line))
    } else {
        match find_first_at_block_level_spec(inner, KW_WHILE_POS@, KW_WHILE_NEG@) {
            None => msg(while_missing_then_msg(line)),
            Some((ti, which)) => if 0 <= ti < inner.len() {
                match cond_chain_spec(inner.subrange(0, ti), line, true) {
                    Err(m) => msg(m),
                    Ok(cond) => match p_block(inner.subrange(ti + 1, inner.len() as int)) {
                        Err(f) => Err(f),
                        Ok(body) => Ok(StmtM::While { cond, negate: which == 1, body, line }),
                    },
                }
            } else {
                Err(FaultM::Panic)
            },
        }
    }
}

/// "<fn name> သည် <body...>" or "<fn name> [အတွက် <p1>, ...] ဖြင့် <body...>"
/// after "လုပ်ငန်း".
pub open spec fn p_func_def(inner: Seq<Token>, line: nat) -> Result<StmtM, FaultM>
    decreases inner.len(), 3int, 0int,
{
    if inner.len() == 0 || inner[0].tok !is Ident {
        msg(func_missing_name_msg(line))
    } else {
        let name = inner[0].tok->Ident_0@;
        let rest = inner.drop_first();
        if rest.len() > 0 && ident_is(rest[0].tok, KW_ASSIGN@) {
            match p_block(rest.drop_first()) {
                Err(f) => Err(f),
                Ok(body) => Ok(StmtM::FuncDef { name, params: Seq::empty(), body, line }),
            }
        } else {
            match find_kw_spec(rest, KW_BY@) {
                None => msg(func_missing_by_msg(line)),
                Some(bi) => if 0 <= bi < rest.len() {
                    match params_spec(rest.subrange(0, bi), line) {
                        Err(m) => msg(m),
                        Ok(params) => match p_block(rest.subrange(bi + 1, rest.len() as int)) {
                            Err(f) => Err(f),
                            Ok(body) => Ok(StmtM::FuncDef { name, params, body, line }),
                        },
                    }
                } else {
                    Err(FaultM::Panic)
                },
            }
        }
    }
}

/// "<class name> သည် <methods...>" or "<class name>။ <methods...>" after
/// "နည်းလမ်း". The body holds function definitions only, at least one.
pub open spec fn p_class_def(inner: Seq<Token>, line: nat) -> Result<StmtM, FaultM>
    decreases inner.len(), 3int, 0int,
{
    if inner.len() == 0 || inner[0].tok !is Ident {
        msg(class_missing_name_msg(line))
    } else if inner.len() < 2 || !(inner[1].tok is End || ident_is(inner[1].tok, KW_ASSIGN@)) {
        msg(class_missing_period_msg(line))
    } else {
        let name = inner[0].tok->Ident_0@;
        match p_block(inner.subrange(2, inner.len() as int)) {
            Err(f) => Err(f),
            Ok(body) => if has_non_method(body) {
                msg(class_body_not_method_msg(line))
            } else if body.len() == 0 {
                msg(class_missing_constructor_msg(line, name))
            } else {
                Ok(StmtM::ClassDef { name, body, line })
            },
        }
    }
}

/// "<var> သည် <source> ထဲမှ တစ်ခုစီ [<step> <step fn>] <body...>". The body
/// is parsed before the source. A variable named "ထဲမှ" leaves no source
/// to slice out (its start would lie past its end): that is a fault.
pub open spec fn p_for_loop(inner: Seq<Token>, line: nat) -> Result<StmtM, FaultM>
    decreases inner.len(), 3int, 0int,
{
    if inner.len() < 2 || inner[0].tok !is Ident || !ident_is(inner[1].tok, KW_ASSIGN@) {
        msg(generic_syntax_msg(line))
    } else {
        match find_kw_spec(inner, KW_LOOP_FROM@) {
            None => msg(generic_syntax_msg(line)),
            Some(htm) => if htm < 2 {
                Err(FaultM::Panic)
            } else {
                let st = inner.subrange(2, htm);
                let tcs = htm + 1;
                if st.len() == 0 || tcs >= inner.len() || !ident_is(inner[tcs].tok, KW_LOOP_EACH@) {
                    msg(generic_syntax_msg(line))
                } else {
                    let (step, cursor) = step_clause_spec(inner, tcs + 1, line);
                    if 0 <= cursor <= inner.len() {
                        match p_block(inner.subrange(cursor, inner.len() as int)) {
                            Err(f) => Err(f),
                            Ok(body) => match for_source_spec(st, step, line) {
                                Err(m) => msg(m),
                                Ok(source) => Ok(
                                    StmtM::ForLoop {
                                        var_name: inner[0].tok->Ident_0@,
                                        source,
                                        body,
                                        line,
                                    },
                                ),
                            },
                        }
                    } else {
                        Err(FaultM::Panic)
                    }
                }
            },
        }
    }
}


/// The catch clause whose "ဖမ်းပါ" stands at `k`: "<code> ကို ဖမ်းပါ" or
/// "<code> ကို <var> အဖြစ် ဖမ်းပါ". Gives where the clause starts, its code
/// and its variable.
pub open spec fn catch_header_spec(inner: Seq<Token>, k: int) -> Option<(int, Seq<char>, Option<Seq<char>>)> {
    if 4 <= k < inner.len() && ident_is(inner[k - 1].tok, KW_CATCH_AS@) && inner[k - 2].tok is Ident
        && ident_is(inner[k - 3].tok, KW_PARTICLE@) && inner[k - 4].tok is Ident {
        Some((k - 4, inner[k - 4].tok->Ident_0@, Some(inner[k - 2].tok->Ident_0@)))
    } else if 2 <= k < inner.len() && ident_is(inner[k - 1].tok, KW_PARTICLE@) && inner[k - 2].tok is Ident {
        Some((k - 2, inner[k - 2].tok->Ident_0@, None))
    } else {
        None
    }
}

/// "<body...> [<catch clause>။ <catch body...>] [နောက်ဆုံး။ <finally body...>]"
/// after "စမ်းရန်": the catch clause and the finally marker are found
/// outside every bracket and block.
pub open spec fn p_try(inner: Seq<Token>, line: nat) -> Result<StmtM, FaultM>
    decreases inner.len(), 3int, 0int,
{
    let n = inner.len();
    match find_first_at_block_level_spec(inner, KW_CATCH@, KW_FINALLY@) {
        None => match p_block(inner) {
            Err(f) => Err(f),
            Ok(tb) => Ok(StmtM::TryCatch { try_body: tb, catch_err: None, catch_var: None, catch_body: None, finally_body: None, line }),
        },
        Some((k, which)) => if !(0 <= k && k + 1 < n && inner[k + 1].tok is End) {
            msg(generic_syntax_msg(line))
        } else if which == 1 {
            match p_block(inner.subrange(0, k)) {
                Err(f) => Err(f),
                Ok(tb) => match p_block(inner.subrange(k + 2, n as int)) {
                    Err(f) => Err(f),
                    Ok(fb) => Ok(StmtM::TryCatch { try_body: tb, catch_err: None, catch_var: None, catch_body: None, finally_body: Some(fb), line }),
                },
            }
        } else {
            match catch_header_spec(inner, k) {
                None => msg(generic_syntax_msg(line)),
                Some((hs, code, var)) => {
                    let rest = inner.subrange(k + 2, n as int);
                    match p_block(inner.subrange(0, hs)) {
                        Err(f) => Err(f),
                        Ok(tb) => match find_first_at_block_level_spec(rest, KW_FINALLY@, KW_FINALLY@) {
                            None => match p_block(rest) {
                                Err(f) => Err(f),
                                Ok(cb) => Ok(StmtM::TryCatch { try_body: tb, catch_err: Some(code), catch_var: var, catch_body: Some(cb), finally_body: None, line }),
                            },
                            Some((f, _)) => if !(0 <= f && f + 1 < rest.len() && rest[f + 1].tok is End) {
                                msg(generic_syntax_msg(line))
                            } else {
                                match p_block(rest.subrange(0, f)) {
                                    Err(e) => Err(e),
                                    Ok(cb) => match p_block(rest.subrange(f + 2, rest.len() as int)) {
                                        Err(e) => Err(e),
                                        Ok(fb) => Ok(StmtM::TryCatch { try_body: tb, catch_err: Some(code), catch_var: var, catch_body: Some(cb), finally_body: Some(fb), line }),
                                    },
                                }
                            },
                        },
                    }
                },
            }
        }
    }
}

pub open spec fn stmts_res(r: Result<Vec<Stmt>, Fault>, s: Result<Seq<StmtM>, FaultM>) -> bool {
    match (r, s) {
        (Ok(v), Ok(m)) => stmts_m(v@) == m,
        (Err(f), Err(m)) => fault_m(f) == m,
        _ => false,
    }
}

pub open spec fn prepend_stmts(xs: Seq<StmtM>, r: Result<Seq<StmtM>, FaultM>) -> Result<Seq<StmtM>, FaultM> {
    match r {
        Ok(ys) => Ok(xs + ys),
        Err(f) => Err(f),
    }
}

/// The statements of the chunks of `t` from the `k`-th on.
#[verifier::opaque]
pub open spec fn chunks_from(t: Seq<Token>, chunks: Seq<(usize, usize)>, k: int) -> Result<
    Seq<StmtM>,
    FaultM,
> {
    p_chunks(t, chunks.skip(k))
}

proof fn lemma_chunks_start(t: Seq<Token>)
    ensures
        p_block(t) == chunks_from(t, split_statements_spec(t), 0),
{
    reveal(chunks_from);
    assert(split_statements_spec(t).skip(0) =~= split_statements_spec(t));
}

proof fn lemma_chunks_step(t: Seq<Token>, chunks: Seq<(usize, usize)>, k: int)
    requires
        0 <= k < chunks.len(),
        ranges_nonempty_within(chunks, t.len() as int),
    ensures
        chunks_from(t, chunks, k) == match p_stmt(
            t.subrange(chunks[k].0 as int, chunks[k].1 as int),
            t[chunks[k].0 as int].line as nat,
        ) {
            Err(f) => Err(f),
            Ok(x) => match chunks_from(t, chunks, k + 1) {
                Ok(xs) => Ok(seq![x] + xs),
                Err(f) => Err(f),
            },
        },
{
    reveal(chunks_from);
    let rest = chunks.skip(k);
    assert(rest[0] == chunks[k]);
    assert(rest.drop_first() =~= chunks.skip(k + 1));
    assert(chunks[k].0 < chunks[k].1 <= t.len());
}

proof fn lemma_chunks_done(t: Seq<Token>, chunks: Seq<(usize, usize)>)
    ensures
        chunks_from(t, chunks, chunks.len() as int) == Ok::<Seq<StmtM>, FaultM>(Seq::empty()),
{
    reveal(chunks_from);
    assert(chunks.skip(chunks.len() as int) =~= Seq::<(usize, usize)>::empty());
}

/// Parses a token run into its statements.
#[verifier::spinoff_prover]
pub(crate) fn parse_block(tokens: &[Token]) -> (r: Result<Vec<Stmt>, Fault>)
    ensures
        stmts_res(r, p_block(tokens@)),
    decreases tokens@.len(), 2int, 0int,
{
    let chunks = split_statements(tokens);
    let nc = chunks.len();
    let mut stmts: Vec<Stmt> = Vec::new();
    let mut k: usize = 0;
    proof {
        lemma_chunks_start(tokens@);
        assert(stmts_m(stmts@) =~= Seq::<StmtM>::empty());
        match p_block(tokens@) {
            Ok(xs) => assert(Seq::<StmtM>::empty() + xs =~= xs),
            Err(_) => {},
        }
    }
    while k < nc
        invariant
            nc == chunks@.len(),
            k <= nc,
            ranges_nonempty_within(chunks@, tokens@.len() as int),
            p_block(tokens@) == prepend_stmts(stmts_m(stmts@), chunks_from(tokens@, chunks@, k as int)),
        decreases nc - k,
    {
        let (a, b) = chunks[k];
        proof {
            lemma_chunks_step(tokens@, chunks@, k as int);
        }
        let chunk = slice_subrange(tokens, a, b);
        let x = match parse_stmt(chunk, tokens[a].line) {
            Ok(x) => x,
            Err(f) => return Err(f),
        };
        let ghost before = stmts@;
        stmts.push(x);
        proof {
            lemma_stmts_m_push(before, x);
            match chunks_from(tokens@, chunks@, k + 1) {
                Ok(xs) => assert(stmts_m(before) + (seq![stmt_m(x)] + xs) =~= stmts_m(stmts@) + xs),
                Err(_) => {},
            }
        }
        k += 1;
    }
    proof {
        lemma_chunks_done(tokens@, chunks@);
        assert(stmts_m(stmts@) + Seq::<StmtM>::empty() =~= stmts_m(stmts@));
    }
    Ok(stmts)
}

/// Parses one statement's tokens (with its `။`, if any).
pub(crate) fn parse_stmt(tokens: &[Token], line: usize) -> (r: Result<Stmt, Fault>)
    ensures
        stmt_res(r, p_stmt(tokens@, line as nat)),
    decreases tokens@.len(), 0int, 0int,
{
    let n = tokens.len();
    let end_present = has_end(tokens);
    let body = if end_present {
        slice_subrange(tokens, 0, n - 1)
    } else {
        tokens
    };
    proof {
        if end_present {
            assert(body@ =~= tokens@.drop_last());
        }
    }
    let nb = body.len();
    if end_present && nb > 0 && ident_eq(&body[nb - 1].tok, KW_LOOP_END) {
        let b = slice_subrange(body, 0, nb - 1);
        proof {
            assert(b@ =~= body@.drop_last());
        }
        let nn = b.len();
        if nn > 0 && ident_eq(&b[0].tok, KW_IF) {
            let inner = slice_subrange(b, 1, nn);
            proof {
                assert(inner@ =~= b@.drop_first());
            }
            return parse_if_statement(inner, line);
        }
        if nn > 0 && ident_eq(&b[0].tok, KW_WHILE) {
            let inner = slice_subrange(b, 1, nn);
            proof {
                assert(inner@ =~= b@.drop_first());
            }
            return parse_while_statement(inner, line);
        }
        if nn > 0 && ident_eq(&b[0].tok, KW_FUNC_DEF) {
            let inner = slice_subrange(b, 1, nn);
            proof {
                assert(inner@ =~= b@.drop_first());
            }
            return parse_func_def(inner, line);
        }
        if nn > 0 && ident_eq(&b[0].tok, KW_CLASS_DEF) {
            let inner = slice_subrange(b, 1, nn);
            proof {
                assert(inner@ =~= b@.drop_first());
            }
            return parse_class_def(inner, line);
        }
        if nn > 0 && ident_eq(&b[0].tok, KW_TRY) {
            let inner = slice_subrange(b, 1, nn);
            proof {
                assert(inner@ =~= b@.drop_first());
            }
            return parse_try(inner, line);
        }
        return parse_for_loop(b, line);
    }
    parse_simple_stmt(body, end_present, line)
}

/// Parses an if/elif/else chain: everything between the leading "အကယ်၍" and
/// the trailing "ပြီး", both already stripped.
pub(crate) fn parse_if_statement(inner: &[Token], line: usize) -> (r: Result<Stmt, Fault>)
    ensures
        stmt_res(
            r,
            match p_if_from(inner@, 0, Seq::empty(), line as nat) {
                Ok(bs) => Ok(StmtM::If { branches: bs, line: line as nat }),
                Err(f) => Err(f),
            },
        ),
    decreases inner@.len(), 3int, 0int,
{
    let n = inner.len();
    let mut branches: Vec<IfBranch> = Vec::new();
    let mut cursor: usize = 0;
    proof {
        assert(branches_m(branches@) =~= Seq::<IfBranchM>::empty());
    }
    loop
        invariant
            n == inner@.len(),
            cursor <= n,
            p_if_from(inner@, 0, Seq::empty(), line as nat) == p_if_from(
                inner@,
                cursor as int,
                branches_m(branches@),
                line as nat,
            ),
        decreases n - cursor,
    {
        let ghost c0 = cursor;
        let ghost bs0 = branches@;
        if branches.len() > 0 {
            if cursor >= n {
                return Ok(Stmt::If { branches, line });
            }
            if ident_eq(&inner[cursor].tok, KW_ELSE) {
                let body = match parse_block(slice_subrange(inner, cursor + 1, n)) {
                    Ok(v) => v,
                    Err(f) => return Err(f),
                };
                let br = IfBranch { cond: None, negate: false, body };
                branches.push(br);
                proof {
                    lemma_branches_m_push(bs0, br);
                }
                return Ok(Stmt::If { branches, line });
            } else if ident_eq(&inner[cursor].tok, KW_ELIF) {
                cursor += 1;
            } else {
                return Err(Fault::Msg(generic_syntax_err(line)));
            }
        } else if cursor >= n {
            return Err(Fault::Msg(if_missing_condition_err(line)));
        }
        let (term_rel, which) = match find_first_at_block_level(
            slice_subrange(inner, cursor, n),
            KW_THEN_POS,
            KW_THEN_NEG,
        ) {
            Some(x) => x,
            None => return Err(Fault::Msg(if_missing_then_err(line))),
        };
        let term_abs = cursor + term_rel;
        let negate = which == 1;
        let cond = match parse_cond_chain(slice_subrange(inner, cursor, term_abs), line, false) {
            Ok(c) => c,
            Err(m) => return Err(Fault::Msg(m)),
        };
        cursor = term_abs + 1;
        let body_end = match find_first_at_block_level(
            slice_subrange(inner, cursor, n),
            KW_ELIF,
            KW_ELSE,
        ) {
            Some((rel, _)) => cursor + rel,
            None => n,
        };
        let body = match parse_block(slice_subrange(inner, cursor, body_end)) {
            Ok(v) => v,
            Err(f) => return Err(f),
        };
        let br = IfBranch { cond: Some(cond), negate, body };
        branches.push(br);
        proof {
            lemma_branches_m_push(bs0, br);
        }
        cursor = body_end;
    }
}

/// Parses a while-loop: everything between the leading "အခြေအနေ" and the
/// trailing "ပြီး", both already stripped.
#[verifier::spinoff_prover]
pub(crate) fn parse_while_statement(inner: &[Token], line: usize) -> (r: Result<Stmt, Fault>)
    ensures
        stmt_res(r, p_while(inner@, line as nat)),
    decreases inner@.len(), 3int, 0int,
{
    let n = inner.len();
    if n == 0 {
        return Err(Fault::Msg(while_missing_condition_err(line)));
    }
    let (term_idx, which) = match find_first_at_block_level(inner, KW_WHILE_POS, KW_WHILE_NEG) {
        Some(x) => x,
        None => return Err(Fault::Msg(while_missing_then_err(line))),
    };
    let negate = which == 1;
    let cond = match parse_cond_chain(slice_subrange(inner, 0, term_idx), line, true) {
        Ok(c) => c,
        Err(m) => return Err(Fault::Msg(m)),
    };
    let body = match parse_block(slice_subrange(inner, term_idx + 1, n)) {
        Ok(v) => v,
        Err(f) => return Err(f),
    };
    Ok(Stmt::While { cond, negate, body, line })
}

/// Parses a function definition: everything between the leading "လုပ်ငန်း"
/// and the trailing "ပြီး", both already stripped.
pub(crate) fn parse_func_def(inner: &[Token], line: usize) -> (r: Result<Stmt, Fault>)
    ensures
        stmt_res(r, p_func_def(inner@, line as nat)),
    decreases inner@.len(), 3int, 0int,
{
    let n = inner.len();
    if n == 0 {
        return Err(Fault::Msg(func_missing_name_err(line)));
    }
    let name = match &inner[0].tok {
        Tok::Ident(s) => s.clone(),
        _ => return Err(Fault::Msg(func_missing_name_err(line))),
    };
    let rest = slice_subrange(inner, 1, n);
    proof {
        assert(rest@ =~= inner@.drop_first());
    }
    let nr = rest.len();
    if nr > 0 && ident_eq(&rest[0].tok, KW_ASSIGN) {
        let body_tokens = slice_subrange(rest, 1, nr);
        proof {
            assert(body_tokens@ =~= rest@.drop_first());
        }
        let body = match parse_block(body_tokens) {
            Ok(v) => v,
            Err(f) => return Err(f),
        };
        let params: Vec<String> = Vec::new();
        proof {
            assert(strings_m(params@) =~= Seq::<Seq<char>>::empty());
        }
        return Ok(Stmt::FuncDef { name, params, body, line });
    }
    let by_idx = match find_kw(rest, KW_BY) {
        Some(k) => k,
        None => return Err(Fault::Msg(func_missing_by_err(line))),
    };
    let params = match parse_params(slice_subrange(rest, 0, by_idx), line) {
        Ok(v) => v,
        Err(m) => return Err(Fault::Msg(m)),
    };
    let body = match parse_block(slice_subrange(rest, by_idx + 1, nr)) {
        Ok(v) => v,
        Err(f) => return Err(f),
    };
    Ok(Stmt::FuncDef { name, params, body, line })
}

/// Parses a class definition: everything between the leading "နည်းလမ်း"
/// and the trailing "ပြီး", both already stripped.
pub(crate) fn parse_class_def(inner: &[Token], line: usize) -> (r: Result<Stmt, Fault>)
    ensures
        stmt_res(r, p_class_def(inner@, line as nat)),
    decreases inner@.len(), 3int, 0int,
{
    let n = inner.len();
    if n == 0 {
        return Err(Fault::Msg(class_missing_name_err(line)));
    }
    let name = match &inner[0].tok {
        Tok::Ident(s) => s.clone(),
        _ => return Err(Fault::Msg(class_missing_name_err(line))),
    };
    if n < 2 {
        return Err(Fault::Msg(class_missing_period_err(line)));
    }
    let ok_header = (match &inner[1].tok {
        Tok::End => true,
        _ => false,
    }) || ident_eq(&inner[1].tok, KW_ASSIGN);
    if !ok_header {
        return Err(Fault::Msg(class_missing_period_err(line)));
    }
    let body = match parse_block(slice_subrange(inner, 2, n)) {
        Ok(v) => v,
        Err(f) => return Err(f),
    };
    if find_non_method(&body) {
        return Err(Fault::Msg(class_body_not_method_err(line)));
    }
    if body.len() == 0 {
        proof {
            lemma_stmts_m_index(body@);
        }
        return Err(Fault::Msg(class_missing_constructor_err(line, name.as_str())));
    }
    proof {
        lemma_stmts_m_index(body@);
    }
    Ok(Stmt::ClassDef { name, body, line })
}

fn catch_header(inner: &[Token], k: usize) -> (r: Option<(usize, String, Option<String>)>)
    ensures
        match (r, catch_header_spec(inner@, k as int)) {
            (None, None) => true,
            (Some((hs, c, v)), Some((hs2, c2, v2))) => hs as int == hs2 && c@ == c2 && match (v, v2) {
                (None, None) => true,
                (Some(a), Some(b)) => a@ == b,
                _ => false,
            },
            _ => false,
        },
{
    let n = inner.len();
    if 4 <= k && k < n && ident_eq(&inner[k - 1].tok, KW_CATCH_AS) && ident_eq(&inner[k - 3].tok, KW_PARTICLE) {
        match (&inner[k - 4].tok, &inner[k - 2].tok) {
            (Tok::Ident(c), Tok::Ident(v)) => return Some((k - 4, c.clone(), Some(v.clone()))),
            _ => {},
        }
    }
    if 2 <= k && k < n && ident_eq(&inner[k - 1].tok, KW_PARTICLE) {
        match &inner[k - 2].tok {
            Tok::Ident(c) => return Some((k - 2, c.clone(), None)),
            _ => {},
        }
    }
    None
}

fn is_end_at(t: &[Token], i: usize) -> (r: bool)
    ensures
        r == (i < t@.len() && t@[i as int].tok is End),
{
    i < t.len() && (match &t[i].tok {
        Tok::End => true,
        _ => false,
    })
}

/// Parses a "စမ်းရန်" statement: everything between the leading "စမ်းရန်"
/// and the trailing "ပြီး", both already stripped.
pub(crate) fn parse_try(inner: &[Token], line: usize) -> (r: Result<Stmt, Fault>)
    ensures
        stmt_res(r, p_try(inner@, line as nat)),
    decreases inner@.len(), 3int, 0int,
{
    let n = inner.len();
    match find_first_at_block_level(inner, KW_CATCH, KW_FINALLY) {
        None => {
            let tb = match parse_block(inner) {
                Ok(v) => v,
                Err(f) => return Err(f),
            };
            Ok(Stmt::TryCatch { try_body: tb, catch_err: None, catch_var: None, catch_body: None, finally_body: None, line })
        },
        Some((k, which)) => {
            if !(k + 1 < n && is_end_at(inner, k + 1)) {
                return Err(Fault::Msg(generic_syntax_err(line)));
            }
            if which == 1 {
                let tb = match parse_block(slice_subrange(inner, 0, k)) {
                    Ok(v) => v,
                    Err(f) => return Err(f),
                };
                let fb = match parse_block(slice_subrange(inner, k + 2, n)) {
                    Ok(v) => v,
                    Err(f) => return Err(f),
                };
                return Ok(Stmt::TryCatch { try_body: tb, catch_err: None, catch_var: None, catch_body: None, finally_body: Some(fb), line });
            }
            let (hs, code, var) = match catch_header(inner, k) {
                Some(h) => h,
                None => return Err(Fault::Msg(generic_syntax_err(line))),
            };
            let rest = slice_subrange(inner, k + 2, n);
            let tb = match parse_block(slice_subrange(inner, 0, hs)) {
                Ok(v) => v,
                Err(f) => return Err(f),
            };
            match find_first_at_block_level(rest, KW_FINALLY, KW_FINALLY) {
                None => {
                    let cb = match parse_block(rest) {
                        Ok(v) => v,
                        Err(f) => return Err(f),
                    };
                    Ok(Stmt::TryCatch { try_body: tb, catch_err: Some(code), catch_var: var, catch_body: Some(cb), finally_body: None, line })
                },
                Some((f, _)) => {
                    let rn = rest.len();
                    if !(f + 1 < rn && is_end_at(rest, f + 1)) {
                        return Err(Fault::Msg(generic_syntax_err(line)));
                    }
                    let cb = match parse_block(slice_subrange(rest, 0, f)) {
                        Ok(v) => v,
                        Err(e) => return Err(e),
                    };
                    let fb = match parse_block(slice_subrange(rest, f + 2, rn)) {
                        Ok(v) => v,
                        Err(e) => return Err(e),
                    };
                    Ok(Stmt::TryCatch { try_body: tb, catch_err: Some(code), catch_var: var, catch_body: Some(cb), finally_body: Some(fb), line })
                },
            }
        },
    }
}

/// Parses a for-loop: the header (variable, source, optional step clause)
/// followed by the body, with the trailing "ပြီး" already stripped.
pub(crate) fn parse_for_loop(inner: &[Token], line: usize) -> (r: Result<Stmt, Fault>)
    ensures
        stmt_res(r, p_for_loop(inner@, line as nat)),
    decreases inner@.len(), 3int, 0int,
{
    let n = inner.len();
    if n < 2 {
        return Err(Fault::Msg(generic_syntax_err(line)));
    }
    let var_name = match &inner[0].tok {
        Tok::Ident(s) => s.clone(),
        _ => return Err(Fault::Msg(generic_syntax_err(line))),
    };
    if !ident_eq(&inner[1].tok, KW_ASSIGN) {
        return Err(Fault::Msg(generic_syntax_err(line)));
    }
    let htm_idx = match find_kw(inner, KW_LOOP_FROM) {
        Some(k) => k,
        None => return Err(Fault::Msg(generic_syntax_err(line))),
    };
    if htm_idx < 2 {
        return Err(Fault::Panic);
    }
    let source_tokens = slice_subrange(inner, 2, htm_idx);
    if source_tokens.len() == 0 {
        return Err(Fault::Msg(generic_syntax_err(line)));
    }
    let tcs_idx = htm_idx + 1;
    if tcs_idx >= n || !ident_eq(&inner[tcs_idx].tok, KW_LOOP_EACH) {
        return Err(Fault::Msg(generic_syntax_err(line)));
    }
    let (range_step, cursor) = parse_step_clause(inner, tcs_idx + 1, line);
    let body = match parse_block(slice_subrange(inner, cursor, n)) {
        Ok(v) => v,
        Err(f) => return Err(f),
    };
    let source = match parse_for_source(source_tokens, range_step, line) {
        Ok(s) => s,
        Err(m) => return Err(Fault::Msg(m)),
    };
    Ok(Stmt::ForLoop { var_name, source, body, line })
}

// ---------------------------------------------------------------------
// Laws
// ---------------------------------------------------------------------


/// The operator that a math assignment's keyword names: "တိုးပါ" adds,
/// "လျော့ပါ" subtracts, "မြှောက်ပါ" multiplies, "စားပါ" divides.
pub open spec fn math_keyword_names(kw: Seq<char>, op: char) -> bool {
    ||| kw == "တိုးပါ"@ && op == '+'
    ||| kw == "လျော့ပါ"@ && op == '-'
    ||| kw == "မြှောက်ပါ"@ && op == '*'
    ||| kw == "စားပါ"@ && op == '/'
}

proof fn lemma_math_spec_op(body: Seq<Token>, fi: int, end_present: bool, line: nat)
    requires
        0 <= fi < body.len(),
        body[fi].tok is Ident,
        math_fn_spec(body[fi].tok->Ident_0@) is Some,
    ensures
        math_spec(body, fi, end_present, line) matches Ok(x) ==> x matches StmtM::MathAssign { op, .. }
            && fi + 1 == body.len() && end_present && math_keyword_names(body[fi].tok->Ident_0@, op),
{
    reveal_strlit("တိုးပါ");
    reveal_strlit("လျော့ပါ");
    reveal_strlit("မြှောက်ပါ");
    reveal_strlit("စားပါ");
}

proof fn lemma_first_math_found(body: Seq<Token>, i: int)
    ensures
        first_math_from(body, i) matches Some(k) ==> 0 <= i <= k < body.len() && body[k].tok is Ident
            && math_fn_spec(body[k].tok->Ident_0@) is Some,
    decreases body.len() - i,
{
    if 0 <= i < body.len() {
        lemma_first_math_found(body, i + 1);
    }
}

proof fn lemma_simple_math_op(body: Seq<Token>, end_present: bool, line: nat)
    ensures
        simple_stmt_spec(body, end_present, line) matches Ok(StmtM::MathAssign { op, .. }) ==> end_present
            && body.len() >= 1 && body.last().tok is Ident && math_keyword_names(body.last().tok->Ident_0@, op),
{
    reveal(simple_stmt_spec);
    let k = match find_kw_spec(body, KW_CALL_WITH@) {
        Some(ci) => ci,
        None => match find_kw_spec(body, KW_CALL@) {
            Some(ci) => ci,
            None => match find_kw_spec(body, KW_PRINT@) {
                Some(pi) => pi,
                None => match find_kw_spec(body, KW_INPUT@) {
                    Some(ii) => ii,
                    None => match find_kw_spec(body, KW_CONVERT@) {
                        Some(ki) => ki,
                        None => match first_math_from(body, 0) {
                            Some(fi) => fi,
                            None => match find_kw_spec(body, KW_IS@) {
                                Some(di) => di,
                                None => 0,
                            },
                        },
                    },
                },
            },
        },
    };
    lemma_line_call_with(body, k, end_present, line);
    lemma_line_call(body, k, end_present, line);
    lemma_line_print(body, k, end_present, line);
    lemma_line_input(body, k, end_present, line);
    lemma_line_convert(body, k, end_present, line);
    lemma_line_decl(body, k, end_present, line);
    lemma_line_self_field(body, k, end_present, line);
    lemma_first_math_found(body, 0);
    if first_math_from(body, 0) is Some {
        lemma_math_spec_op(body, first_math_from(body, 0)->0, end_present, line);
    }
}

/// A statement parsed as a math assignment ends in its keyword, just
/// before the period, and carries the operator that keyword names.
pub proof fn law_math_assign_op(t: Seq<Token>, line: nat)
    ensures
        p_stmt(t, line) matches Ok(StmtM::MathAssign { op, .. }) ==> t.len() >= 2 && t[t.len() - 2].tok
            is Ident && math_keyword_names(t[t.len() - 2].tok->Ident_0@, op),
{
    let end_present = has_end_spec(t);
    let body = if end_present { t.drop_last() } else { t };
    if end_present && body.len() > 0 && ident_is(body.last().tok, KW_LOOP_END@) {
        let b = body.drop_last();
        lemma_block_kinds(b.drop_first(), line);
        lemma_block_kinds(b, line);
    } else {
        lemma_simple_math_op(body, end_present, line);
        if p_stmt(t, line) matches Ok(StmtM::MathAssign { .. }) {
            assert(t[t.len() - 2] == body.last());
        }
    }
}

/// The line a statement is numbered by.
pub open spec fn stmt_line(s: StmtM) -> nat {
    match s {
        StmtM::VarDecl { line, .. } => line,
        StmtM::Print { line, .. } => line,
        StmtM::InputNoAssign { line, .. } => line,
        StmtM::InputAssign { line, .. } => line,
        StmtM::ConvertStmt { line, .. } => line,
        StmtM::ExprStmt { line, .. } => line,
        StmtM::MathAssign { line, .. } => line,
        StmtM::ForLoop { line, .. } => line,
        StmtM::If { line, .. } => line,
        StmtM::While { line, .. } => line,
        StmtM::FuncDef { line, .. } => line,
        StmtM::FuncCall { line, .. } => line,
        StmtM::ClassDef { line, .. } => line,
        StmtM::SelfFieldSet { line, .. } => line,
        StmtM::TryCatch { line, .. } => line,
    }
}

proof fn lemma_line_call_with(body: Seq<Token>, k: int, end_present: bool, line: nat)
    ensures
        call_with_spec(body, k, end_present, line) matches Ok(x) ==> stmt_line(x) == line,
        call_with_spec(body, k, end_present, line) matches Ok(x) ==> !(x is MathAssign),
{
}

proof fn lemma_line_call(body: Seq<Token>, k: int, end_present: bool, line: nat)
    ensures
        call_spec(body, k, end_present, line) matches Ok(x) ==> stmt_line(x) == line,
        call_spec(body, k, end_present, line) matches Ok(x) ==> !(x is MathAssign),
{
}

proof fn lemma_line_print(body: Seq<Token>, k: int, end_present: bool, line: nat)
    ensures
        print_spec(body, k, end_present, line) matches Ok(x) ==> stmt_line(x) == line,
        print_spec(body, k, end_present, line) matches Ok(x) ==> !(x is MathAssign),
{
}

proof fn lemma_line_input(body: Seq<Token>, k: int, end_present: bool, line: nat)
    ensures
        input_spec(body, k, end_present, line) matches Ok(x) ==> stmt_line(x) == line,
        input_spec(body, k, end_present, line) matches Ok(x) ==> !(x is MathAssign),
{
}

proof fn lemma_line_convert(body: Seq<Token>, k: int, end_present: bool, line: nat)
    ensures
        convert_spec(body, k, end_present, line) matches Ok(x) ==> stmt_line(x) == line,
        convert_spec(body, k, end_present, line) matches Ok(x) ==> !(x is MathAssign),
{
}

proof fn lemma_line_math(body: Seq<Token>, k: int, end_present: bool, line: nat)
    ensures
        math_spec(body, k, end_present, line) matches Ok(x) ==> stmt_line(x) == line,
{
}

proof fn lemma_line_decl(body: Seq<Token>, k: int, end_present: bool, line: nat)
    ensures
        decl_spec(body, k, end_present, line) matches Ok(x) ==> stmt_line(x) == line,
        decl_spec(body, k, end_present, line) matches Ok(x) ==> !(x is MathAssign),
{
}

proof fn lemma_line_self_field(body: Seq<Token>, k: int, end_present: bool, line: nat)
    ensures
        self_field_spec(body, end_present, line) matches Ok(x) ==> stmt_line(x) == line,
        self_field_spec(body, end_present, line) matches Ok(x) ==> !(x is MathAssign),
{
}

proof fn lemma_simple_stmt_line(body: Seq<Token>, end_present: bool, line: nat)
    ensures
        simple_stmt_spec(body, end_present, line) matches Ok(x) ==> stmt_line(x) == line,
{
    reveal(simple_stmt_spec);
    let k = match find_kw_spec(body, KW_CALL_WITH@) {
        Some(ci) => ci,
        None => match find_kw_spec(body, KW_CALL@) {
            Some(ci) => ci,
            None => match find_kw_spec(body, KW_PRINT@) {
                Some(pi) => pi,
                None => match find_kw_spec(body, KW_INPUT@) {
                    Some(ii) => ii,
                    None => match find_kw_spec(body, KW_CONVERT@) {
                        Some(ki) => ki,
                        None => match first_math_from(body, 0) {
                            Some(fi) => fi,
                            None => match find_kw_spec(body, KW_IS@) {
                                Some(di) => di,
                                None => 0,
                            },
                        },
                    },
                },
            },
        },
    };
    lemma_line_call_with(body, k, end_present, line);
    lemma_line_call(body, k, end_present, line);
    lemma_line_print(body, k, end_present, line);
    lemma_line_input(body, k, end_present, line);
    lemma_line_convert(body, k, end_present, line);
    lemma_line_math(body, k, end_present, line);
    lemma_line_decl(body, k, end_present, line);
    lemma_line_self_field(body, k, end_present, line);
}

proof fn lemma_line_while(inner: Seq<Token>, line: nat)
    ensures
        p_while(inner, line) matches Ok(x) ==> stmt_line(x) == line,
{
}

proof fn lemma_line_func_def(inner: Seq<Token>, line: nat)
    ensures
        p_func_def(inner, line) matches Ok(x) ==> stmt_line(x) == line,
{
}

proof fn lemma_line_class_def(inner: Seq<Token>, line: nat)
    ensures
        p_class_def(inner, line) matches Ok(x) ==> stmt_line(x) == line,
{
}

proof fn lemma_line_try(inner: Seq<Token>, line: nat)
    ensures
        p_try(inner, line) matches Ok(x) ==> stmt_line(x) == line,
{
}

proof fn lemma_line_for_loop(inner: Seq<Token>, line: nat)
    ensures
        p_for_loop(inner, line) matches Ok(x) ==> stmt_line(x) == line,
{
}

/// A parsed statement carries the line it was given.
pub proof fn law_stmt_carries_line(t: Seq<Token>, line: nat)
    ensures
        p_stmt(t, line) matches Ok(x) ==> stmt_line(x) == line,
{
    let end_present = has_end_spec(t);
    let body = if end_present {
        t.drop_last()
    } else {
        t
    };
    if end_present && body.len() > 0 && ident_is(body.last().tok, KW_LOOP_END@) {
        let b = body.drop_last();
        lemma_line_while(b.drop_first(), line);
        lemma_line_func_def(b.drop_first(), line);
        lemma_line_class_def(b.drop_first(), line);
        lemma_line_try(b.drop_first(), line);
        lemma_line_for_loop(b, line);
    } else {
        lemma_simple_stmt_line(body, end_present, line);
    }
}

proof fn lemma_p_chunks_lines(t: Seq<Token>, chunks: Seq<(usize, usize)>)
    requires
        ranges_nonempty_within(chunks, t.len() as int),
    ensures
        p_chunks(t, chunks) matches Ok(xs) ==> xs.len() == chunks.len() && forall|k: int|
            0 <= k < xs.len() ==> stmt_line(#[trigger] xs[k]) == t[chunks[k].0 as int].line,
    decreases chunks.len(),
{
    if chunks.len() > 0 {
        let (a, b) = chunks[0];
        assert(chunks[0].0 < chunks[0].1 <= t.len());
        law_stmt_carries_line(t.subrange(a as int, b as int), t[a as int].line as nat);
        let rest = chunks.drop_first();
        assert(ranges_nonempty_within(rest, t.len() as int)) by {
            assert forall|k: int| 0 <= k < rest.len() implies (#[trigger] rest[k]).0 < rest[k].1
                <= t.len() by {
                assert(rest[k] == chunks[k + 1]);
            }
        }
        lemma_p_chunks_lines(t, rest);
        if let Ok(xs) = p_chunks(t, chunks) {
            if let Ok(x) = p_stmt(t.subrange(a as int, b as int), t[a as int].line as nat) {
                if let Ok(ys) = p_chunks(t, rest) {
                    assert(xs == seq![x] + ys);
                    assert forall|k: int| 0 <= k < xs.len() implies stmt_line(#[trigger] xs[k])
                        == t[chunks[k].0 as int].line by {
                        if k > 0 {
                            assert(xs[k] == ys[k - 1]);
                            assert(chunks[k] == rest[k - 1]);
                        }
                    }
                }
            }
        }
    }
}

/// A block has one statement for each `။` that ends one (and one for the
/// tokens after the last), in order, and each statement is numbered by the
/// line of its first token.
pub proof fn law_statements_follow_chunks(t: Seq<Token>)
    requires
        t.len() <= usize::MAX,
    ensures
        parse_spec(t) matches Ok(xs) ==> xs.len() == split_statements_spec(t).len() && forall|k: int|
            0 <= k < xs.len() ==> stmt_line(#[trigger] xs[k]) == t[split_statements_spec(
                t,
            )[k].0 as int].line,
{
    crate::parser::scan::lemma_split_statements_within(t);
    lemma_p_chunks_lines(t, split_statements_spec(t));
}


/// The kinds of statement that are not blocks and end in `။`.
pub open spec fn is_sentence_kind(s: StmtM) -> bool {
    ||| s is VarDecl
    ||| s is Print
    ||| s is InputNoAssign
    ||| s is InputAssign
    ||| s is ConvertStmt
    ||| s is MathAssign
    ||| s is FuncCall
    ||| s is SelfFieldSet
}

proof fn lemma_period_call_with(body: Seq<Token>, k: int, line: nat)
    ensures
        call_with_spec(body, k, true, line) matches Ok(x) ==> call_with_spec(body, k, false, line) == Err::<StmtM, FaultM>(
            FaultM::Msg(missing_period_msg(line)),
        ),
{
}

proof fn lemma_period_call(body: Seq<Token>, k: int, line: nat)
    ensures
        call_spec(body, k, true, line) matches Ok(x) ==> call_spec(body, k, false, line) == Err::<StmtM, FaultM>(
            FaultM::Msg(missing_period_msg(line)),
        ),
{
}

proof fn lemma_period_print(body: Seq<Token>, k: int, line: nat)
    ensures
        print_spec(body, k, true, line) matches Ok(x) ==> print_spec(body, k, false, line) == Err::<StmtM, FaultM>(
            FaultM::Msg(missing_period_msg(line)),
        ),
{
}

proof fn lemma_period_input(body: Seq<Token>, k: int, line: nat)
    ensures
        input_spec(body, k, true, line) matches Ok(x) ==> input_spec(body, k, false, line) == Err::<StmtM, FaultM>(
            FaultM::Msg(missing_period_msg(line)),
        ),
{
}

proof fn lemma_period_convert(body: Seq<Token>, k: int, line: nat)
    ensures
        convert_spec(body, k, true, line) matches Ok(x) ==> convert_spec(body, k, false, line) == Err::<StmtM, FaultM>(
            FaultM::Msg(missing_period_msg(line)),
        ),
{
}

proof fn lemma_period_math(body: Seq<Token>, k: int, line: nat)
    ensures
        math_spec(body, k, true, line) matches Ok(x) ==> math_spec(body, k, false, line) == Err::<StmtM, FaultM>(
            FaultM::Msg(missing_period_msg(line)),
        ),
{
}

proof fn lemma_period_decl(body: Seq<Token>, k: int, line: nat)
    ensures
        decl_spec(body, k, true, line) matches Ok(x) ==> decl_spec(body, k, false, line) == Err::<StmtM, FaultM>(
            FaultM::Msg(missing_period_msg(line)),
        ),
{
}

proof fn lemma_period_self_field(body: Seq<Token>, k: int, line: nat)
    ensures
        self_field_spec(body, true, line) matches Ok(x) ==> self_field_spec(body, false, line) == Err::<StmtM, FaultM>(
            FaultM::Msg(missing_period_msg(line)),
        ),
{
}

proof fn lemma_simple_period(body: Seq<Token>, line: nat)
    ensures
        simple_stmt_spec(body, true, line) matches Ok(x) && is_sentence_kind(x) ==> simple_stmt_spec(
            body,
            false,
            line,
        ) == Err::<StmtM, FaultM>(FaultM::Msg(missing_period_msg(line))),
{
    reveal(simple_stmt_spec);
    let k = match find_kw_spec(body, KW_CALL_WITH@) {
        Some(ci) => ci,
        None => match find_kw_spec(body, KW_CALL@) {
            Some(ci) => ci,
            None => match find_kw_spec(body, KW_PRINT@) {
                Some(pi) => pi,
                None => match find_kw_spec(body, KW_INPUT@) {
                    Some(ii) => ii,
                    None => match find_kw_spec(body, KW_CONVERT@) {
                        Some(ki) => ki,
                        None => match first_math_from(body, 0) {
                            Some(fi) => fi,
                            None => match find_kw_spec(body, KW_IS@) {
                                Some(di) => di,
                                None => 0,
                            },
                        },
                    },
                },
            },
        },
    };
    lemma_period_call_with(body, k, line);
    lemma_period_call(body, k, line);
    lemma_period_print(body, k, line);
    lemma_period_input(body, k, line);
    lemma_period_convert(body, k, line);
    lemma_period_math(body, k, line);
    lemma_period_decl(body, k, line);
    lemma_period_self_field(body, k, line);
}

proof fn lemma_block_kinds(inner: Seq<Token>, line: nat)
    ensures
        p_while(inner, line) matches Ok(x) ==> !is_sentence_kind(x),
        p_func_def(inner, line) matches Ok(x) ==> !is_sentence_kind(x),
        p_class_def(inner, line) matches Ok(x) ==> !is_sentence_kind(x),
        p_for_loop(inner, line) matches Ok(x) ==> !is_sentence_kind(x),
        p_try(inner, line) matches Ok(x) ==> !is_sentence_kind(x),
{
}

/// A statement that parses with its closing `။` is refused without it, for
/// the missing `။` (code E002) and for nothing else.
pub proof fn law_missing_period(t: Seq<Token>, end: Token, line: nat)
    requires
        !has_end_spec(t),
        end.tok is End,
    ensures
        p_stmt(t.push(end), line) matches Ok(x) && is_sentence_kind(x) ==> p_stmt(t, line)
            == Err::<StmtM, FaultM>(FaultM::Msg(missing_period_msg(line))),
{
    let te = t.push(end);
    assert(te.drop_last() =~= t);
    assert(has_end_spec(te));
    if t.len() > 0 && ident_is(t.last().tok, KW_LOOP_END@) {
        let b = t.drop_last();
        lemma_block_kinds(b.drop_first(), line);
        lemma_block_kinds(b, line);
    } else {
        lemma_simple_period(t, line);
    }
}


proof fn lemma_if_from_else_last(inner: Seq<Token>, cursor: int, branches: Seq<IfBranchM>, line: nat)
    requires
        forall|k: int| 0 <= k < branches.len() ==> (#[trigger] branches[k]).cond is Some,
    ensures
        p_if_from(inner, cursor, branches, line) matches Ok(bs) ==> bs.len() >= 1 && forall|k: int|
            0 <= k < bs.len() - 1 ==> (#[trigger] bs[k]).cond is Some,
    decreases inner.len(), 3int, inner.len() - cursor,
{
    let n = inner.len();
    if branches.len() > 0 && cursor >= n {
    } else if branches.len() > 0 && 0 <= cursor && ident_is(inner[cursor].tok, KW_ELSE@) {
        if cursor + 1 <= n {
            match p_block(inner.subrange(cursor + 1, n as int)) {
                Err(_) => {},
                Ok(body) => {
                    let bs = branches.push(IfBranchM { cond: None, negate: false, body });
                    assert forall|k: int| 0 <= k < bs.len() - 1 implies (#[trigger] bs[k]).cond is Some by {
                        assert(bs[k] == branches[k]);
                    }
                },
            }
        }
    } else if branches.len() > 0 && !(0 <= cursor && ident_is(inner[cursor].tok, KW_ELIF@)) {
    } else if branches.len() == 0 && cursor >= n {
    } else {
        let c = if branches.len() > 0 {
            cursor + 1
        } else {
            cursor
        };
        match find_first_at_block_level_spec(inner.subrange(c, n as int), KW_THEN_POS@, KW_THEN_NEG@) {
            None => {},
            Some((rel, which)) => {
                let term = c + rel;
                match cond_chain_spec(inner.subrange(c, term), line, false) {
                    Err(_) => {},
                    Ok(cond) => {
                        let c2 = term + 1;
                        let body_end = match find_first_at_block_level_spec(
                            inner.subrange(c2, n as int),
                            KW_ELIF@,
                            KW_ELSE@,
                        ) {
                            Some((r2, _)) => c2 + r2,
                            None => n as int,
                        };
                        if 0 <= cursor < c2 <= body_end <= n {
                            match p_block(inner.subrange(c2, body_end)) {
                                Err(_) => {},
                                Ok(body) => {
                                    let bs = branches.push(
                                        IfBranchM { cond: Some(cond), negate: which == 1, body },
                                    );
                                    assert forall|k: int| 0 <= k < bs.len() implies (#[trigger] bs[k]).cond is Some by {
                                        if k < branches.len() {
                                            assert(bs[k] == branches[k]);
                                        }
                                    }
                                    lemma_if_from_else_last(inner, body_end, bs, line);
                                },
                            }
                        }
                    },
                }
            },
        }
    }
}

/// An if statement has at least one branch, and only its last branch may
/// lack a condition (the "မဟုတ်လျှင်" branch).
pub proof fn law_else_branch_last(inner: Seq<Token>, line: nat)
    ensures
        p_if_from(inner, 0, Seq::empty(), line) matches Ok(bs) ==> bs.len() >= 1 && forall|k: int|
            0 <= k < bs.len() - 1 ==> (#[trigger] bs[k]).cond is Some,
{
    lemma_if_from_else_last(inner, 0, Seq::empty(), line);
}


/// The statements of two runs of chunks, one after the other; the first
/// fault wins.
pub open spec fn then_stmts(r1: Result<Seq<StmtM>, FaultM>, r2: Result<Seq<StmtM>, FaultM>) -> Result<
    Seq<StmtM>,
    FaultM,
> {
    match r1 {
        Err(f) => Err(f),
        Ok(xs) => prepend_stmts(xs, r2),
    }
}

proof fn lemma_p_chunks_append(t: Seq<Token>, c1: Seq<(usize, usize)>, c2: Seq<(usize, usize)>)
    ensures
        p_chunks(t, c1 + c2) == then_stmts(p_chunks(t, c1), p_chunks(t, c2)),
    decreases c1.len(),
{
    if c1.len() == 0 {
        assert(c1 + c2 =~= c2);
        match p_chunks(t, c2) {
            Ok(ys) => assert(Seq::<StmtM>::empty() + ys =~= ys),
            Err(_) => {},
        }
    } else {
        assert((c1 + c2)[0] == c1[0]);
        assert((c1 + c2).drop_first() =~= c1.drop_first() + c2);
        lemma_p_chunks_append(t, c1.drop_first(), c2);
        let (a, b) = c1[0];
        if a < b <= t.len() {
            match p_stmt(t.subrange(a as int, b as int), t[a as int].line as nat) {
                Err(_) => {},
                Ok(x) => match p_chunks(t, c1.drop_first()) {
                    Err(_) => {},
                    Ok(xs) => match p_chunks(t, c2) {
                        Ok(ys) => assert(seq![x] + (xs + ys) =~= (seq![x] + xs) + ys),
                        Err(_) => {},
                    },
                },
            }
        }
    }
}

proof fn lemma_p_chunks_prefix(a: Seq<Token>, b: Seq<Token>, c: Seq<(usize, usize)>)
    requires
        ranges_nonempty_within(c, a.len() as int),
    ensures
        p_chunks(a + b, c) == p_chunks(a, c),
    decreases c.len(),
{
    if c.len() > 0 {
        let (x, y) = c[0];
        assert(c[0].0 < c[0].1 <= a.len());
        assert((a + b).subrange(x as int, y as int) =~= a.subrange(x as int, y as int));
        assert((a + b)[x as int] == a[x as int]);
        let rest = c.drop_first();
        assert(ranges_nonempty_within(rest, a.len() as int)) by {
            assert forall|k: int| 0 <= k < rest.len() implies (#[trigger] rest[k]).0 < rest[k].1
                <= a.len() by {
                assert(rest[k] == c[k + 1]);
            }
        }
        lemma_p_chunks_prefix(a, b, rest);
    }
}

proof fn lemma_p_chunks_shift(a: Seq<Token>, b: Seq<Token>, c: Seq<(usize, usize)>)
    requires
        ranges_nonempty_within(c, b.len() as int),
        (a + b).len() <= usize::MAX,
    ensures
        p_chunks(a + b, shift_ranges(c, a.len() as int)) == p_chunks(b, c),
    decreases c.len(),
{
    let n = a.len() as int;
    let sc = shift_ranges(c, n);
    if c.len() > 0 {
        let (x, y) = c[0];
        assert(c[0].0 < c[0].1 <= b.len());
        assert(sc[0] == ((x + n) as usize, (y + n) as usize));
        assert((a + b).subrange(x + n, y + n) =~= b.subrange(x as int, y as int));
        assert((a + b)[x + n] == b[x as int]);
        let rest = c.drop_first();
        assert(sc.drop_first() =~= shift_ranges(rest, n));
        assert(ranges_nonempty_within(rest, b.len() as int)) by {
            assert forall|k: int| 0 <= k < rest.len() implies (#[trigger] rest[k]).0 < rest[k].1
                <= b.len() by {
                assert(rest[k] == c[k + 1]);
            }
        }
        lemma_p_chunks_shift(a, b, rest);
    } else {
        assert(sc =~= Seq::<(usize, usize)>::empty());
    }
}

/// Parsing distributes over a split after a `။` that ends a statement:
/// when `a` ends in `။` and opens as many brackets and blocks as it closes,
/// the statements of `a` followed by `b` are those of `a`, then those of
/// `b`; the first fault wins.
pub proof fn law_parse_splits_at_period(a: Seq<Token>, b: Seq<Token>)
    requires
        a.len() > 0,
        (a + b).len() <= usize::MAX,
        a.last().tok is End,
        depth_after(a, 0, 0) == 0,
    ensures
        parse_spec(a + b) == then_stmts(parse_spec(a), parse_spec(b)),
{
    lemma_split_statements_concat(a, b);
    crate::parser::scan::lemma_split_statements_within(a);
    crate::parser::scan::lemma_split_statements_within(b);
    let ca = split_statements_spec(a);
    let cb = split_statements_spec(b);
    lemma_p_chunks_append(a + b, ca, shift_ranges(cb, a.len() as int));
    lemma_p_chunks_prefix(a, b, ca);
    lemma_p_chunks_shift(a, b, cb);
}

} // verus!
