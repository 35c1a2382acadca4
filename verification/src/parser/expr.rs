//! Expression parsing: a cursor-based recursive descent over token slices
//! that also reads collection literals, indexing and object creation.
use vstd::prelude::*;
use vstd::slice::slice_subrange;

use crate::lexer::{Tok, Token};
use crate::parser::ast::{
    Expr, ExprM, expr_m, exprs_m, lemma_exprs_m_push, lemma_pairs_m_push, pairs_m,
};
use crate::parser::messages::{dict_entry_err, dict_entry_msg, generic_syntax_err, generic_syntax_msg};
use crate::parser::scan::{
    Delim, KW_ASSIGN, KW_IS, KW_NEW, find_close, find_close_spec, find_kw_spec,
    find_kw_top_level, ident_eq, ident_is, ranges_within, split_top_level,
    split_top_level_spec,
};
use crate::text::str_eq;

verus! {

// ---------------------------------------------------------------------
// What parsing gives
// ---------------------------------------------------------------------

/// Some token of `s` is the sentence terminator.
pub open spec fn has_end_token(s: Seq<Token>) -> bool {
    exists|k: int| 0 <= k < s.len() && (#[trigger] s[k]).tok is End
}

/// A complete expression made of all of `t`.
pub open spec fn p_expr(t: Seq<Token>, line: nat) -> Result<ExprM, Seq<char>>
    decreases t.len(), t.len() + 1, 3int,
{
    if t.len() == 0 {
        Err(generic_syntax_msg(line))
    } else {
        match p_expr_at(t, 0, line) {
            Ok((e, pos)) => if pos != t.len() {
                Err(generic_syntax_msg(line))
            } else {
                Ok(e)
            },
            Err(m) => Err(m),
        }
    }
}

/// An expression starting at `pos`: terms joined by `+ - * / %`, grouped
/// from the left; with the index just past it.
pub open spec fn p_expr_at(t: Seq<Token>, pos: int, line: nat) -> Result<(ExprM, int), Seq<char>>
    decreases t.len(), t.len() - pos, 2int,
{
    match p_term_at(t, pos, line) {
        Ok((e, i)) => if pos < i <= t.len() {
            p_expr_loop(t, e, i, line)
        } else {
            Ok((e, i))
        },
        Err(m) => Err(m),
    }
}

/// The rest of an expression after the term `e` that ends at `i`.
pub open spec fn p_expr_loop(t: Seq<Token>, e: ExprM, i: int, line: nat) -> Result<
    (ExprM, int),
    Seq<char>,
>
    decreases t.len(), t.len() - i, 2int,
{
    if 0 <= i < t.len() && t[i].tok is Op {
        let c = t[i].tok->Op_0;
        match p_term_at(t, i + 1, line) {
            Ok((r, ni)) => {
                let e2 = ExprM::Binary(Box::new(e), c, Box::new(r), t[i].line as nat);
                if i + 1 < ni <= t.len() {
                    p_expr_loop(t, e2, ni, line)
                } else {
                    Ok((e2, ni))
                }
            },
            Err(m) => Err(m),
        }
    } else {
        Ok((e, i))
    }
}

/// A primary followed by any number of `[...]` indexes.
pub open spec fn p_term_at(t: Seq<Token>, pos: int, line: nat) -> Result<(ExprM, int), Seq<char>>
    decreases t.len(), t.len() - pos, 1int,
{
    match p_primary_at(t, pos, line) {
        Ok((e, i)) => if pos < i <= t.len() {
            p_term_loop(t, e, i, line)
        } else {
            Ok((e, i))
        },
        Err(m) => Err(m),
    }
}

/// The indexes that follow `e`, from `i` on.
pub open spec fn p_term_loop(t: Seq<Token>, e: ExprM, i: int, line: nat) -> Result<
    (ExprM, int),
    Seq<char>,
>
    decreases t.len(), t.len() - i, 1int,
{
    if 0 <= i < t.len() && t[i].tok is LBracket {
        match find_close_spec(t, i, t[i].line as nat) {
            Ok(c) => if i < c < t.len() {
                let inner = t.subrange(i + 1, c);
                if inner.len() == 0 {
                    Err(generic_syntax_msg(line))
                } else {
                    match p_parts(inner, split_top_level_spec(inner, Delim::Comma), line) {
                        Ok(idx) => p_term_loop(t, ExprM::Index(Box::new(e), idx), c + 1, line),
                        Err(m) => Err(m),
                    }
                }
            } else {
                Err(generic_syntax_msg(line))
            },
            Err(m) => Err(m),
        }
    } else {
        Ok((e, i))
    }
}

/// The expressions of the parts (index ranges) of `inner`, in order; the
/// first part that does not parse gives the error.
pub open spec fn p_parts(inner: Seq<Token>, parts: Seq<(usize, usize)>, line: nat) -> Result<
    Seq<ExprM>,
    Seq<char>,
>
    decreases inner.len(), inner.len() + 2, parts.len(),
{
    if parts.len() == 0 {
        Ok(Seq::empty())
    } else {
        let (a, b) = parts[0];
        if a <= b <= inner.len() {
            match p_expr(inner.subrange(a as int, b as int), line) {
                Ok(x) => match p_parts(inner, parts.drop_first(), line) {
                    Ok(xs) => Ok(seq![x] + xs),
                    Err(m) => Err(m),
                },
                Err(m) => Err(m),
            }
        } else {
            Err(generic_syntax_msg(line))
        }
    }
}

/// The entries (index ranges) of a dict literal's inner tokens, each
/// "<key> သည် <value> ဖြစ်၏".
pub open spec fn p_dict_entries(inner: Seq<Token>, entries: Seq<(usize, usize)>, line: nat) -> Result<
    Seq<(ExprM, ExprM)>,
    Seq<char>,
>
    decreases inner.len(), inner.len() + 2, entries.len(),
{
    if entries.len() == 0 {
        Ok(Seq::empty())
    } else {
        let (a, b) = entries[0];
        if a <= b <= inner.len() {
            let e = inner.subrange(a as int, b as int);
            match find_kw_spec(e, KW_IS@) {
                None => Err(dict_entry_msg(line)),
                Some(is_idx) => if is_idx + 1 != e.len() || is_idx < 0 {
                    Err(dict_entry_msg(line))
                } else {
                    let body = e.subrange(0, is_idx);
                    match find_kw_spec(body, KW_ASSIGN@) {
                        None => Err(dict_entry_msg(line)),
                        Some(ai) => if 0 <= ai < body.len() {
                            match p_expr(body.subrange(0, ai), line) {
                                Ok(k) => match p_expr(body.subrange(ai + 1, body.len() as int), line) {
                                    Ok(v) => match p_dict_entries(inner, entries.drop_first(), line) {
                                        Ok(rest) => Ok(seq![(k, v)] + rest),
                                        Err(m) => Err(m),
                                    },
                                    Err(m) => Err(m),
                                },
                                Err(m) => Err(m),
                            }
                        } else {
                            Err(dict_entry_msg(line))
                        },
                    }
                },
            }
        } else {
            Err(dict_entry_msg(line))
        }
    }
}

/// A primary expression at `pos`: unary minus, a literal, an identifier or
/// object creation, or a collection literal.
pub open spec fn p_primary_at(t: Seq<Token>, pos: int, line: nat) -> Result<(ExprM, int), Seq<char>>
    decreases t.len(), t.len() - pos, 0int,
{
    if pos < 0 || pos >= t.len() {
        Err(generic_syntax_msg(line))
    } else {
        let n = t.len();
        match t[pos].tok {
            Tok::Op(c) => if c == '-' {
                match p_term_at(t, pos + 1, line) {
                    Ok((inner, next)) => Ok((ExprM::Neg(Box::new(inner), t[pos].line as nat), next)),
                    Err(m) => Err(m),
                }
            } else {
                Err(generic_syntax_msg(line))
            },
            Tok::Num(s) => Ok((ExprM::NumLit(s@), pos + 1)),
            Tok::Str(s) => Ok((ExprM::StrLit(s@), pos + 1)),
            Tok::Ident(s) => if s@ == "True"@ {
                Ok((ExprM::BoolLit(true), pos + 1))
            } else if s@ == "False"@ {
                Ok((ExprM::BoolLit(false), pos + 1))
            } else if s@ == "မှန်"@ {
                Ok((ExprM::BoolLit(true), pos + 1))
            } else if s@ == "မှား"@ {
                Ok((ExprM::BoolLit(false), pos + 1))
            } else {
                let next = if pos + 1 < n && ident_is(t[pos + 1].tok, KW_NEW@) {
                    pos + 2
                } else {
                    pos + 1
                };
                if next < n && t[next].tok is LParen {
                    match find_close_spec(t, next, t[next].line as nat) {
                        Ok(close) => if next < close < n {
                            let inner = t.subrange(next + 1, close);
                            match p_parts(inner, split_top_level_spec(inner, Delim::Comma), line) {
                                Ok(args) => {
                                    let after = if close + 1 < n && ident_is(
                                        t[close + 1].tok,
                                        KW_NEW@,
                                    ) {
                                        close + 2
                                    } else {
                                        close + 1
                                    };
                                    Ok((ExprM::NewObj(s@, args, t[pos].line as nat), after))
                                },
                                Err(m) => Err(m),
                            }
                        } else {
                            Err(generic_syntax_msg(line))
                        },
                        Err(m) => Err(m),
                    }
                } else {
                    Ok((ExprM::Ident(s@), pos + 1))
                }
            },
            Tok::LBracket => match find_close_spec(t, pos, t[pos].line as nat) {
                Ok(close) => if pos < close < n {
                    let inner = t.subrange(pos + 1, close);
                    match p_parts(inner, split_top_level_spec(inner, Delim::Comma), line) {
                        Ok(elems) => Ok((ExprM::ListLit(elems), close + 1)),
                        Err(m) => Err(m),
                    }
                } else {
                    Err(generic_syntax_msg(line))
                },
                Err(m) => Err(m),
            },
            Tok::LParen => match find_close_spec(t, pos, t[pos].line as nat) {
                Ok(close) => if pos < close < n {
                    let inner = t.subrange(pos + 1, close);
                    match p_parts(inner, split_top_level_spec(inner, Delim::Comma), line) {
                        Ok(elems) => Ok((ExprM::TupleLit(elems), close + 1)),
                        Err(m) => Err(m),
                    }
                } else {
                    Err(generic_syntax_msg(line))
                },
                Err(m) => Err(m),
            },
            Tok::LBrace => match find_close_spec(t, pos, t[pos].line as nat) {
                Ok(close) => if pos < close < n {
                    let inner = t.subrange(pos + 1, close);
                    if has_end_token(inner) {
                        match p_dict_entries(inner, split_top_level_spec(inner, Delim::End), line) {
                            Ok(pairs) => Ok((ExprM::DictLit(pairs), close + 1)),
                            Err(m) => Err(m),
                        }
                    } else {
                        match p_parts(inner, split_top_level_spec(inner, Delim::Comma), line) {
                            Ok(elems) => Ok((ExprM::SetLit(elems), close + 1)),
                            Err(m) => Err(m),
                        }
                    }
                } else {
                    Err(generic_syntax_msg(line))
                },
                Err(m) => Err(m),
            },
            _ => Err(generic_syntax_msg(line)),
        }
    }
}


// ---------------------------------------------------------------------
// The parser
// ---------------------------------------------------------------------

pub open spec fn expr_res(r: Result<Expr, String>, s: Result<ExprM, Seq<char>>) -> bool {
    match (r, s) {
        (Ok(e), Ok(m)) => expr_m(e) == m,
        (Err(e), Err(m)) => e@ == m,
        _ => false,
    }
}

pub open spec fn expr_at_res(r: Result<(Expr, usize), String>, s: Result<(ExprM, int), Seq<char>>) -> bool {
    match (r, s) {
        (Ok((e, i)), Ok((m, j))) => expr_m(e) == m && i == j,
        (Err(e), Err(m)) => e@ == m,
        _ => false,
    }
}

pub open spec fn exprs_res(r: Result<Vec<Expr>, String>, s: Result<Seq<ExprM>, Seq<char>>) -> bool {
    match (r, s) {
        (Ok(v), Ok(m)) => exprs_m(v@) == m,
        (Err(e), Err(m)) => e@ == m,
        _ => false,
    }
}

pub open spec fn pairs_res(r: Result<Vec<(Expr, Expr)>, String>, s: Result<Seq<(ExprM, ExprM)>, Seq<char>>) -> bool {
    match (r, s) {
        (Ok(v), Ok(m)) => pairs_m(v@) == m,
        (Err(e), Err(m)) => e@ == m,
        _ => false,
    }
}

/// Puts parsed values in front of the result of parsing the rest.
pub open spec fn prepend_ok<A>(xs: Seq<A>, r: Result<Seq<A>, Seq<char>>) -> Result<Seq<A>, Seq<char>> {
    match r {
        Ok(ys) => Ok(xs + ys),
        Err(m) => Err(m),
    }
}

/// Parses a complete expression from a token slice; leftover tokens after
/// the expression are an error.
pub(crate) fn parse_expr(tokens: &[Token], line: usize) -> (r: Result<Expr, String>)
    ensures
        expr_res(r, p_expr(tokens@, line as nat)),
    decreases tokens@.len(), tokens@.len() + 1, 3int,
{
    if tokens.len() == 0 {
        return Err(generic_syntax_err(line));
    }
    let (expr, pos) = match parse_expr_at(tokens, 0, line) {
        Ok(x) => x,
        Err(m) => return Err(m),
    };
    if pos != tokens.len() {
        return Err(generic_syntax_err(line));
    }
    Ok(expr)
}

pub(crate) fn parse_expr_at(tokens: &[Token], pos: usize, line: usize) -> (r: Result<(Expr, usize), String>)
    requires
        pos <= tokens@.len(),
    ensures
        expr_at_res(r, p_expr_at(tokens@, pos as int, line as nat)),
        r matches Ok((_, i)) ==> pos < i <= tokens@.len(),
    decreases tokens@.len(), tokens@.len() - pos, 2int,
{
    let (mut expr, mut i) = match parse_term_at(tokens, pos, line) {
        Ok(x) => x,
        Err(m) => return Err(m),
    };
    let n = tokens.len();
    loop
        invariant
            n == tokens@.len(),
            pos < i <= n,
            p_expr_at(tokens@, pos as int, line as nat) == p_expr_loop(
                tokens@,
                expr_m(expr),
                i as int,
                line as nat,
            ),
        decreases n - i,
    {
        if i < n {
            match &tokens[i].tok {
                Tok::Op(c) => {
                    let c = *c;
                    let op_line = tokens[i].line;
                    let (rhs, ni) = match parse_term_at(tokens, i + 1, line) {
                        Ok(x) => x,
                        Err(m) => return Err(m),
                    };
                    expr = Expr::Binary(Box::new(expr), c, Box::new(rhs), op_line);
                    i = ni;
                },
                _ => {
                    return Ok((expr, i));
                },
            }
        } else {
            return Ok((expr, i));
        }
    }
}

pub(crate) fn parse_term_at(tokens: &[Token], pos: usize, line: usize) -> (r: Result<(Expr, usize), String>)
    requires
        pos <= tokens@.len(),
    ensures
        expr_at_res(r, p_term_at(tokens@, pos as int, line as nat)),
        r matches Ok((_, i)) ==> pos < i <= tokens@.len(),
    decreases tokens@.len(), tokens@.len() - pos, 1int,
{
    let (mut expr, mut i) = match parse_primary_at(tokens, pos, line) {
        Ok(x) => x,
        Err(m) => return Err(m),
    };
    let n = tokens.len();
    loop
        invariant
            n == tokens@.len(),
            pos < i <= n,
            p_term_at(tokens@, pos as int, line as nat) == p_term_loop(
                tokens@,
                expr_m(expr),
                i as int,
                line as nat,
            ),
        decreases n - i,
    {
        if i < n && (match &tokens[i].tok {
            Tok::LBracket => true,
            _ => false,
        }) {
            let close = match find_close(tokens, i, tokens[i].line) {
                Ok(c) => c,
                Err(m) => return Err(m),
            };
            let inner = slice_subrange(tokens, i + 1, close);
            if inner.len() == 0 {
                return Err(generic_syntax_err(line));
            }
            let parts = split_top_level(inner, Delim::Comma);
            let indices = match parse_parts(inner, &parts, line) {
                Ok(v) => v,
                Err(m) => return Err(m),
            };
            expr = Expr::Index(Box::new(expr), indices);
            i = close + 1;
        } else {
            return Ok((expr, i));
        }
    }
}

/// Parses each part (an index range of `inner`) as a complete expression.
fn parse_parts(inner: &[Token], parts: &Vec<(usize, usize)>, line: usize) -> (r: Result<Vec<Expr>, String>)
    requires
        ranges_within(parts@, inner@.len() as int),
    ensures
        exprs_res(r, p_parts(inner@, parts@, line as nat)),
    decreases inner@.len(), inner@.len() + 2, parts@.len(),
{
    let mut out: Vec<Expr> = Vec::new();
    let mut k: usize = 0;
    let np = parts.len();
    proof {
        assert(parts@.skip(0) =~= parts@);
        assert(exprs_m(out@) =~= Seq::<ExprM>::empty());
        match p_parts(inner@, parts@, line as nat) {
            Ok(xs) => assert(Seq::<ExprM>::empty() + xs =~= xs),
            Err(_) => {},
        }
    }
    while k < np
        invariant
            np == parts@.len(),
            k <= np,
            ranges_within(parts@, inner@.len() as int),
            p_parts(inner@, parts@, line as nat) == prepend_ok(
                exprs_m(out@),
                p_parts(inner@, parts@.skip(k as int), line as nat),
            ),
        decreases np - k,
    {
        let (a, b) = parts[k];
        assert(parts@[k as int].0 <= parts@[k as int].1 <= inner@.len());
        let p = slice_subrange(inner, a, b);
        let e = match parse_expr(p, line) {
            Ok(e) => e,
            Err(m) => {
                proof {
                    assert(parts@.skip(k as int)[0] == parts@[k as int]);
                }
                return Err(m);
            },
        };
        let ghost before = out@;
        out.push(e);
        proof {
            let rest = parts@.skip(k as int);
            assert(rest[0] == parts@[k as int]);
            assert(rest.drop_first() =~= parts@.skip(k + 1));
            lemma_exprs_m_push(before, e);
            match p_parts(inner@, parts@.skip(k + 1), line as nat) {
                Ok(xs) => assert(exprs_m(before) + (seq![expr_m(e)] + xs) =~= exprs_m(out@) + xs),
                Err(_) => {},
            }
        }
        k += 1;
    }
    proof {
        assert(parts@.skip(np as int) =~= Seq::<(usize, usize)>::empty());
        assert(exprs_m(out@) + Seq::<ExprM>::empty() =~= exprs_m(out@));
    }
    Ok(out)
}


fn has_end_tok(tokens: &[Token]) -> (r: bool)
    ensures
        r == has_end_token(tokens@),
{
    let mut k: usize = 0;
    while k < tokens.len()
        invariant
            k <= tokens@.len(),
            forall|q: int| 0 <= q < k ==> (#[trigger] tokens@[q]).tok !is End,
        decreases tokens@.len() - k,
    {
        match &tokens[k].tok {
            Tok::End => return true,
            _ => {},
        }
        k += 1;
    }
    false
}

/// Parses the entries of a dict literal, each "<key> သည် <value> ဖြစ်၏".
fn parse_dict_entries(inner: &[Token], entries: &Vec<(usize, usize)>, line: usize) -> (r: Result<
    Vec<(Expr, Expr)>,
    String,
>)
    requires
        ranges_within(entries@, inner@.len() as int),
    ensures
        pairs_res(r, p_dict_entries(inner@, entries@, line as nat)),
    decreases inner@.len(), inner@.len() + 2, entries@.len(),
{
    let mut out: Vec<(Expr, Expr)> = Vec::new();
    let mut k: usize = 0;
    let np = entries.len();
    proof {
        assert(entries@.skip(0) =~= entries@);
        assert(pairs_m(out@) =~= Seq::<(ExprM, ExprM)>::empty());
        match p_dict_entries(inner@, entries@, line as nat) {
            Ok(xs) => assert(Seq::<(ExprM, ExprM)>::empty() + xs =~= xs),
            Err(_) => {},
        }
    }
    while k < np
        invariant
            np == entries@.len(),
            k <= np,
            ranges_within(entries@, inner@.len() as int),
            p_dict_entries(inner@, entries@, line as nat) == prepend_ok(
                pairs_m(out@),
                p_dict_entries(inner@, entries@.skip(k as int), line as nat),
            ),
        decreases np - k,
    {
        let (a, b) = entries[k];
        assert(entries@[k as int].0 <= entries@[k as int].1 <= inner@.len());
        let ghost rest = entries@.skip(k as int);
        proof {
            assert(rest[0] == entries@[k as int]);
            assert(rest.drop_first() =~= entries@.skip(k + 1));
        }
        let e = slice_subrange(inner, a, b);
        let is_idx = match find_kw_top_level(e, KW_IS) {
            Some(x) => x,
            None => return Err(dict_entry_err(line)),
        };
        if is_idx + 1 != e.len() {
            return Err(dict_entry_err(line));
        }
        let body_e = slice_subrange(e, 0, is_idx);
        let assign_idx = match find_kw_top_level(body_e, KW_ASSIGN) {
            Some(x) => x,
            None => return Err(dict_entry_err(line)),
        };
        let key = match parse_expr(slice_subrange(body_e, 0, assign_idx), line) {
            Ok(x) => x,
            Err(m) => return Err(m),
        };
        let value = match parse_expr(slice_subrange(body_e, assign_idx + 1, body_e.len()), line) {
            Ok(x) => x,
            Err(m) => return Err(m),
        };
        let ghost before = out@;
        out.push((key, value));
        proof {
            lemma_pairs_m_push(before, (key, value));
            match p_dict_entries(inner@, entries@.skip(k + 1), line as nat) {
                Ok(xs) => assert(pairs_m(before) + (seq![(expr_m(key), expr_m(value))] + xs)
                    =~= pairs_m(out@) + xs),
                Err(_) => {},
            }
        }
        k += 1;
    }
    proof {
        assert(entries@.skip(np as int) =~= Seq::<(usize, usize)>::empty());
        assert(pairs_m(out@) + Seq::<(ExprM, ExprM)>::empty() =~= pairs_m(out@));
    }
    Ok(out)
}

/// The inner tokens of the bracket at `open` (which closes at `close`) and
/// their comma-separated parts parsed as expressions.
fn parse_bracket_items(tokens: &[Token], open: usize, close: usize, line: usize) -> (r: Result<
    Vec<Expr>,
    String,
>)
    requires
        open < close < tokens@.len(),
    ensures
        exprs_res(
            r,
            p_parts(
                tokens@.subrange(open + 1, close as int),
                split_top_level_spec(tokens@.subrange(open + 1, close as int), Delim::Comma),
                line as nat,
            ),
        ),
    decreases tokens@.len(), 0int, 0int,
{
    let inner = slice_subrange(tokens, open + 1, close);
    let parts = split_top_level(inner, Delim::Comma);
    parse_parts(inner, &parts, line)
}

/// The identifier case of `parse_primary_at`: a boolean literal, object
/// creation, or a plain identifier.
fn parse_ident_at(tokens: &[Token], pos: usize, s: &String, line: usize) -> (r: Result<(Expr, usize), String>)
    requires
        pos < tokens@.len(),
        tokens@[pos as int].tok == Tok::Ident(*s),
    ensures
        expr_at_res(r, p_primary_at(tokens@, pos as int, line as nat)),
        r matches Ok((_, i)) ==> pos < i <= tokens@.len(),
    decreases tokens@.len(), tokens@.len() - pos - 1, 3int,
{
    let n = tokens.len();
    if str_eq(s.as_str(), "True") {
        Ok((Expr::BoolLit(true), pos + 1))
    } else if str_eq(s.as_str(), "False") {
        Ok((Expr::BoolLit(false), pos + 1))
    } else if str_eq(s.as_str(), "မှန်") {
        Ok((Expr::BoolLit(true), pos + 1))
    } else if str_eq(s.as_str(), "မှား") {
        Ok((Expr::BoolLit(false), pos + 1))
    } else {
        let mut next = pos + 1;
        if next < n && ident_eq(&tokens[next].tok, KW_NEW) {
            next += 1;
        }
        if next < n && (match &tokens[next].tok {
            Tok::LParen => true,
            _ => false,
        }) {
            let close = match find_close(tokens, next, tokens[next].line) {
                Ok(c) => c,
                Err(m) => return Err(m),
            };
            let args = match parse_bracket_items(tokens, next, close, line) {
                Ok(v) => v,
                Err(m) => return Err(m),
            };
            let mut after = close + 1;
            if after < n && ident_eq(&tokens[after].tok, KW_NEW) {
                after += 1;
            }
            return Ok((Expr::NewObj(s.clone(), args, tokens[pos].line), after));
        }
        Ok((Expr::Ident(s.clone()), pos + 1))
    }
}

/// The `{` case of `parse_primary_at`: a dict literal when a `။` stands
/// inside the braces, a set literal otherwise.
fn parse_brace_at(tokens: &[Token], pos: usize, line: usize) -> (r: Result<(Expr, usize), String>)
    requires
        pos < tokens@.len(),
        tokens@[pos as int].tok is LBrace,
    ensures
        expr_at_res(r, p_primary_at(tokens@, pos as int, line as nat)),
        r matches Ok((_, i)) ==> pos < i <= tokens@.len(),
    decreases tokens@.len(), tokens@.len() - pos - 1, 3int,
{
    let close = match find_close(tokens, pos, tokens[pos].line) {
        Ok(c) => c,
        Err(m) => return Err(m),
    };
    let inner = slice_subrange(tokens, pos + 1, close);
    if has_end_tok(inner) {
        let entries = split_top_level(inner, Delim::End);
        let pairs = match parse_dict_entries(inner, &entries, line) {
            Ok(v) => v,
            Err(m) => return Err(m),
        };
        Ok((Expr::DictLit(pairs), close + 1))
    } else {
        let elems = match parse_bracket_items(tokens, pos, close, line) {
            Ok(v) => v,
            Err(m) => return Err(m),
        };
        Ok((Expr::SetLit(elems), close + 1))
    }
}

pub(crate) fn parse_primary_at(tokens: &[Token], pos: usize, line: usize) -> (r: Result<(Expr, usize), String>)
    requires
        pos <= tokens@.len(),
    ensures
        expr_at_res(r, p_primary_at(tokens@, pos as int, line as nat)),
        r matches Ok((_, i)) ==> pos < i <= tokens@.len(),
    decreases tokens@.len(), tokens@.len() - pos, 0int,
{
    let n = tokens.len();
    if pos >= n {
        return Err(generic_syntax_err(line));
    }
    match &tokens[pos].tok {
        Tok::Op(c) => {
            if *c == '-' {
                let op_line = tokens[pos].line;
                let (inner, next) = match parse_term_at(tokens, pos + 1, line) {
                    Ok(x) => x,
                    Err(m) => return Err(m),
                };
                Ok((Expr::Neg(Box::new(inner), op_line), next))
            } else {
                Err(generic_syntax_err(line))
            }
        },
        Tok::Num(s) => Ok((Expr::NumLit(s.clone()), pos + 1)),
        Tok::Str(s) => Ok((Expr::StrLit(s.clone()), pos + 1)),
        Tok::Ident(s) => parse_ident_at(tokens, pos, s, line),
        Tok::LBracket => {
            let close = match find_close(tokens, pos, tokens[pos].line) {
                Ok(c) => c,
                Err(m) => return Err(m),
            };
            let elems = match parse_bracket_items(tokens, pos, close, line) {
                Ok(v) => v,
                Err(m) => return Err(m),
            };
            Ok((Expr::ListLit(elems), close + 1))
        },
        Tok::LParen => {
            let close = match find_close(tokens, pos, tokens[pos].line) {
                Ok(c) => c,
                Err(m) => return Err(m),
            };
            let elems = match parse_bracket_items(tokens, pos, close, line) {
                Ok(v) => v,
                Err(m) => return Err(m),
            };
            Ok((Expr::TupleLit(elems), close + 1))
        },
        Tok::LBrace => parse_brace_at(tokens, pos, line),
        _ => Err(generic_syntax_err(line)),
    }
}

} // verus!
