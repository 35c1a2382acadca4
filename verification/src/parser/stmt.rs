//! Statements that are not blocks: function calls, print, input,
//! conversion, math assignment, field and variable assignment, and bare
//! expressions.
use vstd::prelude::*;
use vstd::slice::slice_subrange;

use crate::lexer::{Tok, Token};
use crate::parser::ast::{Expr, ExprM, Stmt, StmtM, stmt_m};
use crate::parser::expr::{expr_res, p_expr, p_term_at, parse_expr, parse_term_at};
use crate::parser::messages::{
    convert_missing_type_err, convert_missing_type_msg, convert_missing_value_err,
    convert_missing_value_msg, decl_missing_assign_err, decl_missing_assign_msg,
    decl_missing_value_err, decl_missing_value_msg, fn_missing_particle_err,
    fn_missing_particle_msg, fn_missing_value_err, fn_missing_value_msg, func_call_bad_name_err,
    func_call_bad_name_msg, func_call_missing_arg_err, func_call_missing_arg_msg,
    func_call_missing_by_err, func_call_missing_by_msg, func_call_missing_particle_err,
    func_call_missing_particle_msg, generic_syntax_err, generic_syntax_msg,
    math_missing_value_err, math_missing_value_msg, missing_period_err, missing_period_msg,
    self_missing_assign_err, self_missing_assign_msg, self_missing_value_err,
    self_missing_value_msg,
};
use crate::parser::scan::{
    KW_ASSIGN, KW_ASSIGN_COLLECTION, KW_BY, KW_CALL, KW_CALL_WITH, KW_CONVERT, KW_FOR, KW_INPUT,
    KW_IS, KW_PARTICLE, KW_PRINT, KW_SELF, KW_TO, find_kw, find_kw_spec, find_kw_top_level,
    ident_eq, ident_is,
};
use crate::text::str_eq;

verus! {

pub const TYPE_INT: &'static str = "ကိန်းပြည့်";
pub const TYPE_FLOAT: &'static str = "ဒဿမကိန်း";
pub const TYPE_FLOAT_SHORT: &'static str = "ဒဿမ";
pub const TYPE_STR: &'static str = "စာသား";
pub const TYPE_LIST: &'static str = "စာရင်း";
pub const TYPE_TUPLE: &'static str = "အစု";
pub const TYPE_SET: &'static str = "အုပ်စု";
pub const TYPE_DICT: &'static str = "အဘိဓာန်";
pub const TYPE_TABLE: &'static str = "ဇယား";

pub const MATH_FN_INC: &'static str = "တိုးပါ";
pub const MATH_FN_DEC: &'static str = "လျော့ပါ";
pub const MATH_FN_MUL: &'static str = "မြှောက်ပါ";
pub const MATH_FN_DIV: &'static str = "စားပါ";

pub const LOOP_FN_INC: &'static str = "တိုးခြင်းဖြင့်";
pub const LOOP_FN_DEC: &'static str = "လျော့ခြင်းဖြင့်";
pub const LOOP_FN_MUL: &'static str = "မြှောက်ခြင်းဖြင့်";
pub const LOOP_FN_DIV: &'static str = "စားခြင်းဖြင့်";

// ---------------------------------------------------------------------
// Keyword tables
// ---------------------------------------------------------------------

/// The operator of a math-assignment keyword ("တိုးပါ" +, "လျော့ပါ" -,
/// "မြှောက်ပါ" *, "စားပါ" /).
pub open spec fn math_fn_spec(kw: Seq<char>) -> Option<char> {
    if kw == MATH_FN_INC@ {
        Some('+')
    } else if kw == MATH_FN_DEC@ {
        Some('-')
    } else if kw == MATH_FN_MUL@ {
        Some('*')
    } else if kw == MATH_FN_DIV@ {
        Some('/')
    } else {
        None
    }
}

pub(crate) fn math_fn_op(kw: &str) -> (r: Option<char>)
    ensures
        r == math_fn_spec(kw@),
{
    if str_eq(kw, MATH_FN_INC) {
        Some('+')
    } else if str_eq(kw, MATH_FN_DEC) {
        Some('-')
    } else if str_eq(kw, MATH_FN_MUL) {
        Some('*')
    } else if str_eq(kw, MATH_FN_DIV) {
        Some('/')
    } else {
        None
    }
}

/// The operator of a for-loop step keyword ("တိုးခြင်းဖြင့်" +,
/// "လျော့ခြင်းဖြင့်" -, "မြှောက်ခြင်းဖြင့်" *, "စားခြင်းဖြင့်" /).
pub open spec fn loop_fn_spec(kw: Seq<char>) -> Option<char> {
    if kw == LOOP_FN_INC@ {
        Some('+')
    } else if kw == LOOP_FN_DEC@ {
        Some('-')
    } else if kw == LOOP_FN_MUL@ {
        Some('*')
    } else if kw == LOOP_FN_DIV@ {
        Some('/')
    } else {
        None
    }
}

pub(crate) fn loop_fn_op(kw: &str) -> (r: Option<char>)
    ensures
        r == loop_fn_spec(kw@),
{
    if str_eq(kw, LOOP_FN_INC) {
        Some('+')
    } else if str_eq(kw, LOOP_FN_DEC) {
        Some('-')
    } else if str_eq(kw, LOOP_FN_MUL) {
        Some('*')
    } else if str_eq(kw, LOOP_FN_DIV) {
        Some('/')
    } else {
        None
    }
}

/// The names that a conversion may target.
pub open spec fn is_type_keyword_spec(s: Seq<char>) -> bool {
    s == TYPE_INT@ || s == TYPE_FLOAT@ || s == TYPE_STR@ || s == TYPE_LIST@ || s == TYPE_TUPLE@
        || s == TYPE_SET@ || s == TYPE_DICT@ || s == TYPE_TABLE@ || s == "မှန်/မှား"@
        || s == "ဘူလ်"@ || s == TYPE_FLOAT_SHORT@
}

/// Tells whether `s` names a type that a conversion may target.
pub fn is_type_keyword(s: &str) -> (r: bool)
    ensures
        r == is_type_keyword_spec(s@),
{
    str_eq(s, TYPE_INT) || str_eq(s, TYPE_FLOAT) || str_eq(s, TYPE_STR) || str_eq(s, TYPE_LIST)
        || str_eq(s, TYPE_TUPLE) || str_eq(s, TYPE_SET) || str_eq(s, TYPE_DICT) || str_eq(
        s,
        TYPE_TABLE,
    ) || str_eq(s, "မှန်/မှား") || str_eq(s, "ဘူလ်") || str_eq(s, TYPE_FLOAT_SHORT)
}

// ---------------------------------------------------------------------
// Faults
// ---------------------------------------------------------------------

/// Why a statement was not parsed: a message, or a keyword used as a
/// name, where a slice of the statement would start past its end (see
/// `parse_would_panic`).
pub enum Fault {
    Msg(String),
    Panic,
}

pub enum FaultM {
    Msg(Seq<char>),
    Panic,
}

pub open spec fn fault_m(f: Fault) -> FaultM {
    match f {
        Fault::Msg(s) => FaultM::Msg(s@),
        Fault::Panic => FaultM::Panic,
    }
}

pub open spec fn msg(m: Seq<char>) -> Result<StmtM, FaultM> {
    Err(FaultM::Msg(m))
}

pub open spec fn stmt_res(r: Result<Stmt, Fault>, s: Result<StmtM, FaultM>) -> bool {
    match (r, s) {
        (Ok(x), Ok(m)) => stmt_m(x) == m,
        (Err(f), Err(m)) => fault_m(f) == m,
        _ => false,
    }
}

// ---------------------------------------------------------------------
// Particle calls: "<value> ကို <FUNC>"
// ---------------------------------------------------------------------

/// The value of a "<value> ကို <FUNC>" statement, where `fn_idx` is the
/// index of the function keyword `fname`.
pub open spec fn particle_call_spec(body: Seq<Token>, fn_idx: int, fname: Seq<char>, line: nat) -> Result<
    ExprM,
    Seq<char>,
> {
    let before = body.subrange(0, fn_idx);
    if before.len() > 0 && ident_is(before.last().tok, KW_PARTICLE@) {
        let vt = before.drop_last();
        if vt.len() == 0 {
            Err(fn_missing_value_msg(line, fname))
        } else {
            p_expr(vt, line)
        }
    } else if before.len() == 0 {
        Err(fn_missing_value_msg(line, fname))
    } else {
        Err(fn_missing_particle_msg(line, fname))
    }
}

/// Parses "value ကို <FUNC>" shaped statements (print, input), where `body`
/// excludes the trailing `။` and `fn_idx` is the function keyword's index.
pub(crate) fn parse_particle_call(body: &[Token], fn_idx: usize, fname: &str, line: usize) -> (r: Result<
    Expr,
    String,
>)
    requires
        fn_idx <= body@.len(),
    ensures
        expr_res(r, particle_call_spec(body@, fn_idx as int, fname@, line as nat)),
{
    let before = slice_subrange(body, 0, fn_idx);
    if before.len() > 0 && ident_eq(&before[before.len() - 1].tok, KW_PARTICLE) {
        let value_tokens = slice_subrange(before, 0, before.len() - 1);
        if value_tokens.len() == 0 {
            return Err(fn_missing_value_err(line, fname));
        }
        return parse_expr(value_tokens, line);
    }
    if before.len() == 0 {
        return Err(fn_missing_value_err(line, fname));
    }
    Err(fn_missing_particle_err(line, fname))
}


// ---------------------------------------------------------------------
// Function calls
// ---------------------------------------------------------------------

/// "<fn name> ကို လုပ်ရန် <argument> ဖြင့်။", with "လုပ်ရန်" at `call_idx`.
pub open spec fn call_with_spec(body: Seq<Token>, call_idx: int, end_present: bool, line: nat) -> Result<
    StmtM,
    FaultM,
> {
    if body.len() == 0 || body[0].tok !is Ident {
        msg(func_call_bad_name_msg(line))
    } else if call_idx != 2 || !ident_is(body[1].tok, KW_PARTICLE@) {
        msg(func_call_missing_particle_msg(line))
    } else {
        let after = body.subrange(call_idx + 1, body.len() as int);
        match find_kw_spec(after, KW_BY@) {
            None => msg(func_call_missing_by_msg(line)),
            Some(by_idx) => {
                let arg_t = after.subrange(0, by_idx);
                if arg_t.len() == 0 {
                    msg(func_call_missing_arg_msg(line))
                } else {
                    match p_expr(arg_t, line) {
                        Err(m) => msg(m),
                        Ok(arg) => if !end_present {
                            msg(missing_period_msg(line))
                        } else if by_idx + 1 != after.len() {
                            msg(generic_syntax_msg(line))
                        } else {
                            Ok(StmtM::FuncCall { name: body[0].tok->Ident_0@, arg: Some(arg), line })
                        },
                    }
                }
            },
        }
    }
}

fn parse_call_with(body: &[Token], call_idx: usize, end_present: bool, line: usize) -> (r: Result<Stmt, Fault>)
    requires
        call_idx < body@.len(),
    ensures
        stmt_res(r, call_with_spec(body@, call_idx as int, end_present, line as nat)),
{
    let n = body.len();
    let fn_name = match &body[0].tok {
        Tok::Ident(s) => s.clone(),
        _ => return Err(Fault::Msg(func_call_bad_name_err(line))),
    };
    if call_idx != 2 || !ident_eq(&body[1].tok, KW_PARTICLE) {
        return Err(Fault::Msg(func_call_missing_particle_err(line)));
    }
    let after_call = slice_subrange(body, call_idx + 1, n);
    let by_idx = match find_kw_top_level(after_call, KW_BY) {
        Some(k) => k,
        None => return Err(Fault::Msg(func_call_missing_by_err(line))),
    };
    let arg_tokens = slice_subrange(after_call, 0, by_idx);
    if arg_tokens.len() == 0 {
        return Err(Fault::Msg(func_call_missing_arg_err(line)));
    }
    let arg = match parse_expr(arg_tokens, line) {
        Ok(e) => e,
        Err(m) => return Err(Fault::Msg(m)),
    };
    if !end_present {
        return Err(Fault::Msg(missing_period_err(line)));
    }
    if by_idx + 1 != after_call.len() {
        return Err(Fault::Msg(generic_syntax_err(line)));
    }
    Ok(Stmt::FuncCall { name: fn_name, arg: Some(arg), line })
}

/// "<fn name> ကို လုပ်ပါ။", with "လုပ်ပါ" at `call_idx`.
pub open spec fn call_spec(body: Seq<Token>, call_idx: int, end_present: bool, line: nat) -> Result<
    StmtM,
    FaultM,
> {
    if body.len() == 0 || body[0].tok !is Ident {
        msg(func_call_bad_name_msg(line))
    } else if call_idx != 2 || !ident_is(body[1].tok, KW_PARTICLE@) {
        msg(func_call_missing_particle_msg(line))
    } else if !end_present {
        msg(missing_period_msg(line))
    } else if call_idx + 1 != body.len() {
        msg(generic_syntax_msg(line))
    } else {
        Ok(StmtM::FuncCall { name: body[0].tok->Ident_0@, arg: None, line })
    }
}

fn parse_call(body: &[Token], call_idx: usize, end_present: bool, line: usize) -> (r: Result<Stmt, Fault>)
    requires
        call_idx < body@.len(),
    ensures
        stmt_res(r, call_spec(body@, call_idx as int, end_present, line as nat)),
{
    let fn_name = match &body[0].tok {
        Tok::Ident(s) => s.clone(),
        _ => return Err(Fault::Msg(func_call_bad_name_err(line))),
    };
    if call_idx != 2 || !ident_eq(&body[1].tok, KW_PARTICLE) {
        return Err(Fault::Msg(func_call_missing_particle_err(line)));
    }
    if !end_present {
        return Err(Fault::Msg(missing_period_err(line)));
    }
    if call_idx + 1 != body.len() {
        return Err(Fault::Msg(generic_syntax_err(line)));
    }
    Ok(Stmt::FuncCall { name: fn_name, arg: None, line })
}

// ---------------------------------------------------------------------
// Print and input
// ---------------------------------------------------------------------

/// "<value> ကို ဖော်ပြပါ။", with "ဖော်ပြပါ" at `idx`.
pub open spec fn print_spec(body: Seq<Token>, idx: int, end_present: bool, line: nat) -> Result<
    StmtM,
    FaultM,
> {
    match particle_call_spec(body, idx, KW_PRINT@, line) {
        Err(m) => msg(m),
        Ok(value) => if !end_present {
            msg(missing_period_msg(line))
        } else if idx + 1 != body.len() {
            msg(generic_syntax_msg(line))
        } else {
            Ok(StmtM::Print { value, line })
        },
    }
}

fn parse_print(body: &[Token], idx: usize, end_present: bool, line: usize) -> (r: Result<Stmt, Fault>)
    requires
        idx < body@.len(),
    ensures
        stmt_res(r, print_spec(body@, idx as int, end_present, line as nat)),
{
    let n = body.len();
    let value = match parse_particle_call(body, idx, KW_PRINT, line) {
        Ok(e) => e,
        Err(m) => return Err(Fault::Msg(m)),
    };
    if !end_present {
        return Err(Fault::Msg(missing_period_err(line)));
    }
    if idx + 1 != n {
        return Err(Fault::Msg(generic_syntax_err(line)));
    }
    Ok(Stmt::Print { value, line })
}

/// "<prompt> ကို မေးပါ။" or "<name> အတွက် <prompt> ကို မေးပါ။", with "မေးပါ"
/// at `idx`.
pub open spec fn input_spec(body: Seq<Token>, idx: int, end_present: bool, line: nat) -> Result<
    StmtM,
    FaultM,
> {
    match find_kw_spec(body, KW_FOR@) {
        Some(for_idx) => if for_idx == 0 || body[0].tok !is Ident {
            msg(generic_syntax_msg(line))
        } else {
            let rest = body.subrange(for_idx + 1, body.len() as int);
            match find_kw_spec(rest, KW_INPUT@) {
                None => msg(generic_syntax_msg(line)),
                Some(ii) => match particle_call_spec(rest, ii, KW_INPUT@, line) {
                    Err(m) => msg(m),
                    Ok(value) => if !end_present {
                        msg(missing_period_msg(line))
                    } else if ii + 1 != rest.len() {
                        msg(generic_syntax_msg(line))
                    } else {
                        Ok(StmtM::InputAssign { name: body[0].tok->Ident_0@, value, line })
                    },
                },
            }
        },
        None => match particle_call_spec(body, idx, KW_INPUT@, line) {
            Err(m) => msg(m),
            Ok(value) => if !end_present {
                msg(missing_period_msg(line))
            } else if idx + 1 != body.len() {
                msg(generic_syntax_msg(line))
            } else {
                Ok(StmtM::InputNoAssign { value, line })
            },
        },
    }
}

fn parse_input(body: &[Token], idx: usize, end_present: bool, line: usize) -> (r: Result<Stmt, Fault>)
    requires
        idx < body@.len(),
    ensures
        stmt_res(r, input_spec(body@, idx as int, end_present, line as nat)),
{
    let n = body.len();
    if let Some(for_idx) = find_kw(body, KW_FOR) {
        if for_idx == 0 {
            return Err(Fault::Msg(generic_syntax_err(line)));
        }
        let name = match &body[0].tok {
            Tok::Ident(s) => s.clone(),
            _ => return Err(Fault::Msg(generic_syntax_err(line))),
        };
        let rest = slice_subrange(body, for_idx + 1, n);
        let inp = match find_kw(rest, KW_INPUT) {
            Some(k) => k,
            None => return Err(Fault::Msg(generic_syntax_err(line))),
        };
        let value = match parse_particle_call(rest, inp, KW_INPUT, line) {
            Ok(e) => e,
            Err(m) => return Err(Fault::Msg(m)),
        };
        if !end_present {
            return Err(Fault::Msg(missing_period_err(line)));
        }
        if inp + 1 != rest.len() {
            return Err(Fault::Msg(generic_syntax_err(line)));
        }
        Ok(Stmt::InputAssign { name, value, line })
    } else {
        let value = match parse_particle_call(body, idx, KW_INPUT, line) {
            Ok(e) => e,
            Err(m) => return Err(Fault::Msg(m)),
        };
        if !end_present {
            return Err(Fault::Msg(missing_period_err(line)));
        }
        if idx + 1 != n {
            return Err(Fault::Msg(generic_syntax_err(line)));
        }
        Ok(Stmt::InputNoAssign { value, line })
    }
}

// ---------------------------------------------------------------------
// Conversion
// ---------------------------------------------------------------------

/// "<value> ကို <type> သို့ ပြောင်းပါ။", with "ပြောင်းပါ" at `conv_idx`.
pub open spec fn convert_spec(body: Seq<Token>, conv_idx: int, end_present: bool, line: nat) -> Result<
    StmtM,
    FaultM,
> {
    if conv_idx == 0 || !ident_is(body[conv_idx - 1].tok, KW_TO@) {
        msg(generic_syntax_msg(line))
    } else if conv_idx - 1 == 0 {
        msg(convert_missing_type_msg(line))
    } else {
        let type_idx = conv_idx - 2;
        if ident_is(body[type_idx].tok, KW_PARTICLE@) {
            msg(convert_missing_type_msg(line))
        } else if !(body[type_idx].tok is Ident && is_type_keyword_spec(
            body[type_idx].tok->Ident_0@,
        )) {
            msg(convert_missing_type_msg(line))
        } else if type_idx == 0 || !ident_is(body[type_idx - 1].tok, KW_PARTICLE@) {
            msg(convert_missing_value_msg(line))
        } else {
            let vt = body.subrange(0, type_idx - 1);
            if vt.len() == 0 {
                msg(convert_missing_value_msg(line))
            } else {
                match p_expr(vt, line) {
                    Err(m) => msg(m),
                    Ok(value) => if !end_present {
                        msg(missing_period_msg(line))
                    } else if conv_idx + 1 != body.len() {
                        msg(generic_syntax_msg(line))
                    } else {
                        Ok(
                            StmtM::ConvertStmt {
                                value,
                                target_type: body[type_idx].tok->Ident_0@,
                                line,
                            },
                        )
                    },
                }
            }
        }
    }
}

fn parse_convert(body: &[Token], conv_idx: usize, end_present: bool, line: usize) -> (r: Result<Stmt, Fault>)
    requires
        conv_idx < body@.len(),
    ensures
        stmt_res(r, convert_spec(body@, conv_idx as int, end_present, line as nat)),
{
    if conv_idx == 0 || !ident_eq(&body[conv_idx - 1].tok, KW_TO) {
        return Err(Fault::Msg(generic_syntax_err(line)));
    }
    let to_idx = conv_idx - 1;
    if to_idx == 0 {
        return Err(Fault::Msg(convert_missing_type_err(line)));
    }
    let type_idx = to_idx - 1;
    if ident_eq(&body[type_idx].tok, KW_PARTICLE) {
        return Err(Fault::Msg(convert_missing_type_err(line)));
    }
    let tn = match &body[type_idx].tok {
        Tok::Ident(s) => {
            if is_type_keyword(s.as_str()) {
                s.clone()
            } else {
                return Err(Fault::Msg(convert_missing_type_err(line)));
            }
        },
        _ => return Err(Fault::Msg(convert_missing_type_err(line))),
    };
    if type_idx == 0 || !ident_eq(&body[type_idx - 1].tok, KW_PARTICLE) {
        return Err(Fault::Msg(convert_missing_value_err(line)));
    }
    let ko_idx = type_idx - 1;
    let value_tokens = slice_subrange(body, 0, ko_idx);
    if value_tokens.len() == 0 {
        return Err(Fault::Msg(convert_missing_value_err(line)));
    }
    let value = match parse_expr(value_tokens, line) {
        Ok(e) => e,
        Err(m) => return Err(Fault::Msg(m)),
    };
    if !end_present {
        return Err(Fault::Msg(missing_period_err(line)));
    }
    if conv_idx + 1 != body.len() {
        return Err(Fault::Msg(generic_syntax_err(line)));
    }
    Ok(Stmt::ConvertStmt { value, target_type: tn, line })
}


// ---------------------------------------------------------------------
// Math assignment
// ---------------------------------------------------------------------

/// The first index from `i` on whose token is a math-assignment keyword.
pub open spec fn first_math_from(body: Seq<Token>, i: int) -> Option<int>
    decreases body.len() - i,
{
    if i < 0 || i >= body.len() {
        None
    } else if body[i].tok is Ident && math_fn_spec(body[i].tok->Ident_0@) is Some {
        Some(i)
    } else {
        first_math_from(body, i + 1)
    }
}

/// The target of a math assignment whose amount starts at `amount_start`:
/// "<var> အတွက်" names a variable, "<expr> ကို" gives an expression.
pub open spec fn math_target_spec(body: Seq<Token>, amount_start: int, line: nat) -> Result<
    ExprM,
    Seq<char>,
> {
    if amount_start == 0 {
        Err(generic_syntax_msg(line))
    } else {
        let pi = amount_start - 1;
        if ident_is(body[pi].tok, KW_FOR@) {
            if pi != 1 || body[0].tok !is Ident {
                Err(generic_syntax_msg(line))
            } else {
                Ok(ExprM::Ident(body[0].tok->Ident_0@))
            }
        } else if ident_is(body[pi].tok, KW_PARTICLE@) {
            let tt = body.subrange(0, pi);
            if tt.len() == 0 {
                Err(generic_syntax_msg(line))
            } else {
                p_expr(tt, line)
            }
        } else {
            Err(generic_syntax_msg(line))
        }
    }
}

/// "<var or value> ကို <amount> <fn>ပါ။" or "<var> အတွက် <amount> <fn>ပါ။",
/// with the math keyword at `fn_idx`. The amount is a number, or a negated one.
pub open spec fn math_spec(body: Seq<Token>, fn_idx: int, end_present: bool, line: nat) -> Result<
    StmtM,
    FaultM,
> {
    let fname = body[fn_idx].tok->Ident_0@;
    let op = math_fn_spec(fname)->0;
    let amount_is_num = fn_idx > 0 && body[fn_idx - 1].tok is Num;
    let amount_is_neg_num = fn_idx >= 2 && body[fn_idx - 1].tok is Num && body[fn_idx - 2].tok
        == Tok::Op('-');
    if !amount_is_num && !amount_is_neg_num {
        msg(math_missing_value_msg(line, fname))
    } else {
        let amount_start = if amount_is_neg_num {
            fn_idx - 2
        } else {
            fn_idx - 1
        };
        match p_term_at(body, amount_start, line) {
            Err(m) => msg(m),
            Ok((amount, _)) => match math_target_spec(body, amount_start, line) {
                Err(m) => msg(m),
                Ok(target) => if !end_present {
                    msg(missing_period_msg(line))
                } else if fn_idx + 1 != body.len() {
                    msg(generic_syntax_msg(line))
                } else {
                    Ok(StmtM::MathAssign { target, op, amount, line })
                },
            },
        }
    }
}

fn find_math_fn(body: &[Token]) -> (r: Option<usize>)
    ensures
        r matches Some(k) ==> first_math_from(body@, 0) == Some(k as int) && k < body@.len()
            && body@[k as int].tok is Ident && math_fn_spec(body@[k as int].tok->Ident_0@) is Some,
        r is None ==> first_math_from(body@, 0) is None,
{
    let mut k: usize = 0;
    while k < body.len()
        invariant
            k <= body@.len(),
            first_math_from(body@, 0) == first_math_from(body@, k as int),
        decreases body@.len() - k,
    {
        match &body[k].tok {
            Tok::Ident(s) => {
                if math_fn_op(s.as_str()).is_some() {
                    return Some(k);
                }
            },
            _ => {},
        }
        k += 1;
    }
    None
}

fn parse_math_target(body: &[Token], amount_start: usize, line: usize) -> (r: Result<Expr, String>)
    requires
        amount_start < body@.len(),
    ensures
        expr_res(r, math_target_spec(body@, amount_start as int, line as nat)),
{
    if amount_start == 0 {
        return Err(generic_syntax_err(line));
    }
    let particle_idx = amount_start - 1;
    if ident_eq(&body[particle_idx].tok, KW_FOR) {
        if particle_idx != 1 {
            return Err(generic_syntax_err(line));
        }
        match &body[0].tok {
            Tok::Ident(s) => Ok(Expr::Ident(s.clone())),
            _ => Err(generic_syntax_err(line)),
        }
    } else if ident_eq(&body[particle_idx].tok, KW_PARTICLE) {
        let target_tokens = slice_subrange(body, 0, particle_idx);
        if target_tokens.len() == 0 {
            return Err(generic_syntax_err(line));
        }
        parse_expr(target_tokens, line)
    } else {
        Err(generic_syntax_err(line))
    }
}

fn parse_math(body: &[Token], fn_idx: usize, end_present: bool, line: usize) -> (r: Result<Stmt, Fault>)
    requires
        fn_idx < body@.len(),
        body@[fn_idx as int].tok is Ident,
        math_fn_spec(body@[fn_idx as int].tok->Ident_0@) is Some,
    ensures
        stmt_res(r, math_spec(body@, fn_idx as int, end_present, line as nat)),
{
    let n = body.len();
    let fname: &str = match &body[fn_idx].tok {
        Tok::Ident(s) => s.as_str(),
        _ => "",
    };
    let op = match math_fn_op(fname) {
        Some(c) => c,
        None => '+',
    };
    let amount_is_num = fn_idx > 0 && (match &body[fn_idx - 1].tok {
        Tok::Num(_) => true,
        _ => false,
    });
    let amount_is_neg_num = fn_idx >= 2 && (match &body[fn_idx - 1].tok {
        Tok::Num(_) => true,
        _ => false,
    }) && (match &body[fn_idx - 2].tok {
        Tok::Op(c) => *c == '-',
        _ => false,
    });
    if !amount_is_num && !amount_is_neg_num {
        return Err(Fault::Msg(math_missing_value_err(line, fname)));
    }
    let amount_start = if amount_is_neg_num {
        fn_idx - 2
    } else {
        fn_idx - 1
    };
    let (amount, _) = match parse_term_at(body, amount_start, line) {
        Ok(x) => x,
        Err(m) => return Err(Fault::Msg(m)),
    };
    let target = match parse_math_target(body, amount_start, line) {
        Ok(e) => e,
        Err(m) => return Err(Fault::Msg(m)),
    };
    if !end_present {
        return Err(Fault::Msg(missing_period_err(line)));
    }
    if fn_idx + 1 != n {
        return Err(Fault::Msg(generic_syntax_err(line)));
    }
    Ok(Stmt::MathAssign { target, op, amount, line })
}

// ---------------------------------------------------------------------
// Field and variable assignment
// ---------------------------------------------------------------------

/// "တန်ဖိုး <field> သည် <value> ဖြစ်၏။" inside a class method. A field
/// named "ဖြစ်၏" leaves a value slice that starts past its end: a fault.
pub open spec fn self_field_spec(body: Seq<Token>, end_present: bool, line: nat) -> Result<
    StmtM,
    FaultM,
> {
    if body.len() < 2 || body[1].tok !is Ident {
        msg(generic_syntax_msg(line))
    } else {
        let field = body[1].tok->Ident_0@;
        if body.len() < 3 || !ident_is(body[2].tok, KW_ASSIGN@) {
            msg(self_missing_assign_msg(line, field))
        } else {
            match find_kw_spec(body, KW_IS@) {
                None => msg(missing_period_msg(line)),
                Some(is_idx) => if is_idx < 3 {
                    Err(FaultM::Panic)
                } else {
                    let vt = body.subrange(3, is_idx);
                    if vt.len() == 0 {
                        msg(self_missing_value_msg(line, field))
                    } else if !end_present {
                        msg(missing_period_msg(line))
                    } else if is_idx + 1 != body.len() {
                        msg(generic_syntax_msg(line))
                    } else {
                        match p_expr(vt, line) {
                            Err(m) => msg(m),
                            Ok(value) => Ok(StmtM::SelfFieldSet { field, value, line }),
                        }
                    }
                },
            }
        }
    }
}

fn parse_self_field(body: &[Token], end_present: bool, line: usize) -> (r: Result<Stmt, Fault>)
    ensures
        stmt_res(r, self_field_spec(body@, end_present, line as nat)),
{
    let n = body.len();
    if n < 2 {
        return Err(Fault::Msg(generic_syntax_err(line)));
    }
    let field_name = match &body[1].tok {
        Tok::Ident(s) => s.clone(),
        _ => return Err(Fault::Msg(generic_syntax_err(line))),
    };
    if n < 3 || !ident_eq(&body[2].tok, KW_ASSIGN) {
        return Err(Fault::Msg(self_missing_assign_err(line, field_name.as_str())));
    }
    let is_idx = match find_kw(body, KW_IS) {
        Some(k) => k,
        None => return Err(Fault::Msg(missing_period_err(line))),
    };
    if is_idx < 3 {
        return Err(Fault::Panic);
    }
    let value_tokens = slice_subrange(body, 3, is_idx);
    if value_tokens.len() == 0 {
        return Err(Fault::Msg(self_missing_value_err(line, field_name.as_str())));
    }
    if !end_present {
        return Err(Fault::Msg(missing_period_err(line)));
    }
    if is_idx + 1 != n {
        return Err(Fault::Msg(generic_syntax_err(line)));
    }
    let value = match parse_expr(value_tokens, line) {
        Ok(e) => e,
        Err(m) => return Err(Fault::Msg(m)),
    };
    Ok(Stmt::SelfFieldSet { field: field_name, value, line })
}

/// "<name> သည် <value> ဖြစ်၏။" or "<name> မှာ <collection> ဖြစ်၏။", with
/// "ဖြစ်၏" at `is_idx`. A variable named "ဖြစ်၏" leaves a value slice that
/// starts past its end: a fault.
pub open spec fn decl_spec(body: Seq<Token>, is_idx: int, end_present: bool, line: nat) -> Result<
    StmtM,
    FaultM,
> {
    if body.len() == 0 || body[0].tok !is Ident {
        msg(generic_syntax_msg(line))
    } else {
        let name = body[0].tok->Ident_0@;
        if !(body.len() >= 2 && (ident_is(body[1].tok, KW_ASSIGN@) || ident_is(
            body[1].tok,
            KW_ASSIGN_COLLECTION@,
        ))) {
            msg(decl_missing_assign_msg(line))
        } else if is_idx < 2 {
            Err(FaultM::Panic)
        } else {
            let vt = body.subrange(2, is_idx);
            if vt.len() == 0 {
                msg(decl_missing_value_msg(line, name))
            } else if !end_present {
                msg(missing_period_msg(line))
            } else if is_idx + 1 != body.len() {
                msg(generic_syntax_msg(line))
            } else {
                match p_expr(vt, line) {
                    Err(m) => msg(m),
                    Ok(value) => Ok(StmtM::VarDecl { name, value, line }),
                }
            }
        }
    }
}

fn parse_decl(body: &[Token], is_idx: usize, end_present: bool, line: usize) -> (r: Result<Stmt, Fault>)
    requires
        is_idx < body@.len(),
    ensures
        stmt_res(r, decl_spec(body@, is_idx as int, end_present, line as nat)),
{
    let n = body.len();
    let name = match &body[0].tok {
        Tok::Ident(s) => s.clone(),
        _ => return Err(Fault::Msg(generic_syntax_err(line))),
    };
    let assign_ok = n >= 2 && (ident_eq(&body[1].tok, KW_ASSIGN) || ident_eq(
        &body[1].tok,
        KW_ASSIGN_COLLECTION,
    ));
    if !assign_ok {
        return Err(Fault::Msg(decl_missing_assign_err(line)));
    }
    if is_idx < 2 {
        return Err(Fault::Panic);
    }
    let value_tokens = slice_subrange(body, 2, is_idx);
    if value_tokens.len() == 0 {
        return Err(Fault::Msg(decl_missing_value_err(line, name.as_str())));
    }
    if !end_present {
        return Err(Fault::Msg(missing_period_err(line)));
    }
    if is_idx + 1 != n {
        return Err(Fault::Msg(generic_syntax_err(line)));
    }
    let value = match parse_expr(value_tokens, line) {
        Ok(e) => e,
        Err(m) => return Err(Fault::Msg(m)),
    };
    Ok(Stmt::VarDecl { name, value, line })
}

// ---------------------------------------------------------------------
// Any statement that is not a block
// ---------------------------------------------------------------------

/// Some token of `s` is an arithmetic operator.
pub open spec fn has_op_token(s: Seq<Token>) -> bool {
    exists|k: int| 0 <= k < s.len() && (#[trigger] s[k]).tok is Op
}

fn has_op(tokens: &[Token]) -> (r: bool)
    ensures
        r == has_op_token(tokens@),
{
    let mut k: usize = 0;
    while k < tokens.len()
        invariant
            k <= tokens@.len(),
            forall|q: int| 0 <= q < k ==> (#[trigger] tokens@[q]).tok !is Op,
        decreases tokens@.len() - k,
    {
        match &tokens[k].tok {
            Tok::Op(_) => return true,
            _ => {},
        }
        k += 1;
    }
    false
}

/// A statement that is not a block, given its tokens without a trailing
/// `။` (`end_present` tells whether there was one). The forms are tried in
/// this order: call with argument, call, print, input, conversion, math
/// assignment, field assignment, declaration, bare expression.
#[verifier::opaque]
pub open spec fn simple_stmt_spec(body: Seq<Token>, end_present: bool, line: nat) -> Result<
    StmtM,
    FaultM,
> {
    match find_kw_spec(body, KW_CALL_WITH@) {
        Some(ci) => call_with_spec(body, ci, end_present, line),
        None => match find_kw_spec(body, KW_CALL@) {
            Some(ci) => call_spec(body, ci, end_present, line),
            None => match find_kw_spec(body, KW_PRINT@) {
                Some(pi) => print_spec(body, pi, end_present, line),
                None => match find_kw_spec(body, KW_INPUT@) {
                    Some(ii) => input_spec(body, ii, end_present, line),
                    None => match find_kw_spec(body, KW_CONVERT@) {
                        Some(ki) => convert_spec(body, ki, end_present, line),
                        None => match first_math_from(body, 0) {
                            Some(fi) => math_spec(body, fi, end_present, line),
                            None => if body.len() > 0 && ident_is(body[0].tok, KW_SELF@) {
                                self_field_spec(body, end_present, line)
                            } else {
                                match find_kw_spec(body, KW_IS@) {
                                    Some(di) => decl_spec(body, di, end_present, line),
                                    None => if has_op_token(body) {
                                        match p_expr(body, line) {
                                            Ok(value) => Ok(StmtM::ExprStmt { value, line }),
                                            Err(m) => msg(m),
                                        }
                                    } else {
                                        msg(generic_syntax_msg(line))
                                    },
                                }
                            },
                        },
                    },
                },
            },
        },
    }
}

pub(crate) fn parse_simple_stmt(body: &[Token], end_present: bool, line: usize) -> (r: Result<Stmt, Fault>)
    ensures
        stmt_res(r, simple_stmt_spec(body@, end_present, line as nat)),
{
    reveal(simple_stmt_spec);
    if let Some(ci) = find_kw(body, KW_CALL_WITH) {
        return parse_call_with(body, ci, end_present, line);
    }
    if let Some(ci) = find_kw(body, KW_CALL) {
        return parse_call(body, ci, end_present, line);
    }
    if let Some(pi) = find_kw(body, KW_PRINT) {
        return parse_print(body, pi, end_present, line);
    }
    if let Some(ii) = find_kw(body, KW_INPUT) {
        return parse_input(body, ii, end_present, line);
    }
    if let Some(ki) = find_kw(body, KW_CONVERT) {
        return parse_convert(body, ki, end_present, line);
    }
    if let Some(fi) = find_math_fn(body) {
        return parse_math(body, fi, end_present, line);
    }
    if body.len() > 0 && ident_eq(&body[0].tok, KW_SELF) {
        return parse_self_field(body, end_present, line);
    }
    if let Some(di) = find_kw(body, KW_IS) {
        return parse_decl(body, di, end_present, line);
    }
    if has_op(body) {
        let value = match parse_expr(body, line) {
            Ok(e) => e,
            Err(m) => return Err(Fault::Msg(m)),
        };
        return Ok(Stmt::ExprStmt { value, line });
    }
    Err(Fault::Msg(generic_syntax_err(line)))
}

} // verus!
