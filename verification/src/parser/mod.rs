//! The parser: turns the lexer's tokens into statements.
//!
//! Statements end at a `။` outside every bracket and block, so collection
//! literals may span several lines. Block statements (for-loop, if/else,
//! while, function, class) open at their keyword and close at "ပြီး။".
pub mod ast;
pub mod block;
pub mod cond;
pub mod errors;
pub mod expr;
pub mod messages;
pub mod scan;
pub mod stmt;

use vstd::prelude::*;

use crate::lexer::Token;
use crate::parser::ast::{StmtM, stmts_m};
use crate::parser::block::{p_block, parse_block};
use crate::parser::stmt::{Fault, FaultM};

pub use crate::parser::ast::{CondAtom, CondChain, Expr, ForSource, IfBranch, LogicalOp, Stmt};
pub use crate::parser::stmt::is_type_keyword;

verus! {

/// What parsing a token sequence gives: its statements, the message of the
/// first statement that fails, or `FaultM::Panic` where a keyword stands
/// as a name, so that a slice of the statement would start past its end.
pub open spec fn parse_spec(t: Seq<Token>) -> Result<Seq<StmtM>, FaultM> {
    p_block(t)
}

/// Parsing `t` reaches a keyword used as a name: a variable, field or loop
/// variable named "ဖြစ်၏" / "ထဲမှ" where a slice would start after its end.
pub open spec fn parse_would_panic(t: Seq<Token>) -> bool {
    parse_spec(t) matches Err(FaultM::Panic)
}

/// The parse result `r` is the one that `s` describes.
pub open spec fn parse_result_is(r: Result<Vec<Stmt>, String>, s: Result<Seq<StmtM>, FaultM>) -> bool {
    match (r, s) {
        (Ok(v), Ok(m)) => stmts_m(v@) == m,
        (Err(e), Err(FaultM::Msg(m))) => e@ == m,
        _ => false,
    }
}

/// Parses a token sequence into statements.
pub fn parse(tokens: &[Token]) -> (r: Result<Vec<Stmt>, String>)
    requires
        !parse_would_panic(tokens@),
    ensures
        parse_result_is(r, parse_spec(tokens@)),
{
    match parse_block(tokens) {
        Ok(v) => Ok(v),
        Err(Fault::Msg(m)) => Err(m),
        Err(Fault::Panic) => Err(String::new()),
    }
}

/// Parses a token sequence, or gives `None` exactly where `parse` may not be
/// called because a keyword stands as a name (see `parse_would_panic`).
pub fn try_parse(tokens: &[Token]) -> (r: Option<Result<Vec<Stmt>, String>>)
    ensures
        r is None <==> parse_would_panic(tokens@),
        r matches Some(x) ==> parse_result_is(x, parse_spec(tokens@)),
{
    match parse_block(tokens) {
        Ok(v) => Some(Ok(v)),
        Err(Fault::Msg(m)) => Some(Err(m)),
        Err(Fault::Panic) => None,
    }
}

} // verus!
