//! The syntax tree that the parser builds, and its mathematical values.
use vstd::prelude::*;


verus! {

/// An expression.
#[derive(Debug)]
pub enum Expr {
    NumLit(String),
    StrLit(String),
    BoolLit(bool),
    Ident(String),
    /// Left operand, operator, right operand, line of the operator.
    Binary(Box<Expr>, char, Box<Expr>, usize),
    /// Unary minus and its line.
    Neg(Box<Expr>, usize),
    /// Inner expression, target type keyword, line.
    Convert(Box<Expr>, String, usize),
    ListLit(Vec<Expr>),
    TupleLit(Vec<Expr>),
    SetLit(Vec<Expr>),
    DictLit(Vec<(Expr, Expr)>),
    /// Postfix index: `xs[i]`, table `xs[row, col]`, or dict `xs[key]`.
    Index(Box<Expr>, Vec<Expr>),
    /// Object instantiation `<ClassName> [အသစ်] (arg1, arg2, ...)`.
    NewObj(String, Vec<Expr>, usize),
}

/// A statement.
#[derive(Debug)]
pub enum Stmt {
    VarDecl { name: String, value: Expr, line: usize },
    Print { value: Expr, line: usize },
    InputNoAssign { value: Expr, line: usize },
    InputAssign { name: String, value: Expr, line: usize },
    ConvertStmt { value: Expr, target_type: String, line: usize },
    ExprStmt { value: Expr, line: usize },
    MathAssign { target: Expr, op: char, amount: Expr, line: usize },
    ForLoop { var_name: String, source: ForSource, body: Vec<Stmt>, line: usize },
    If { branches: Vec<IfBranch>, line: usize },
    While { cond: CondChain, negate: bool, body: Vec<Stmt>, line: usize },
    FuncDef { name: String, params: Vec<String>, body: Vec<Stmt>, line: usize },
    FuncCall { name: String, arg: Option<Expr>, line: usize },
    ClassDef { name: String, body: Vec<Stmt>, line: usize },
    SelfFieldSet { field: String, value: Expr, line: usize },
    /// "စမ်းရန်": a body run under a catch clause (a code, `E` for any
    /// error, and an optional variable that receives the code) and a
    /// finally part.
    TryCatch {
        try_body: Vec<Stmt>,
        catch_err: Option<String>,
        catch_var: Option<String>,
        catch_body: Option<Vec<Stmt>>,
        finally_body: Option<Vec<Stmt>>,
        line: usize,
    },
}

/// One branch of an if/elif/else chain.
#[derive(Debug)]
pub struct IfBranch {
    /// `None` only for the final, unconditional "မဟုတ်လျှင်" (else) branch.
    pub cond: Option<CondChain>,
    /// The branch runs when the condition is false ("မဖြစ်လျှင်") rather
    /// than when it is true ("ဖြစ်လျှင်").
    pub negate: bool,
    pub body: Vec<Stmt>,
}

#[derive(Debug, Clone, Copy, PartialEq, Eq)]
pub enum LogicalOp {
    And,
    Or,
}

/// One parenthesised condition.
#[derive(Debug)]
pub struct CondAtom {
    pub lhs: Expr,
    /// `None` for a bare boolean check such as "(အလုပ်)"; `Some(op)` for a
    /// comparison "lhs op rhs".
    pub op: Option<String>,
    pub rhs: Option<Expr>,
    /// `Some(type_name)` for a type check "lhs သည် <type>". Excludes `op`/`rhs`.
    pub type_check: Option<String>,
    pub line: usize,
}

/// A chain of conditions joined by logical operators.
#[derive(Debug)]
pub struct CondChain {
    pub first: CondAtom,
    pub rest: Vec<(LogicalOp, CondAtom)>,
}

/// What a for-loop runs over.
#[derive(Debug)]
pub enum ForSource {
    Range { start: Option<Expr>, end: Expr, step: Expr, op: char },
    /// No step clause: a number ranges from 0 in steps of 1; a collection
    /// gives its elements (a dict its keys). Decided when the loop runs.
    Auto(Expr),
}

// ---------------------------------------------------------------------
// Mathematical values
// ---------------------------------------------------------------------

pub enum ExprM {
    NumLit(Seq<char>),
    StrLit(Seq<char>),
    BoolLit(bool),
    Ident(Seq<char>),
    Binary(Box<ExprM>, char, Box<ExprM>, nat),
    Neg(Box<ExprM>, nat),
    Convert(Box<ExprM>, Seq<char>, nat),
    ListLit(Seq<ExprM>),
    TupleLit(Seq<ExprM>),
    SetLit(Seq<ExprM>),
    DictLit(Seq<(ExprM, ExprM)>),
    Index(Box<ExprM>, Seq<ExprM>),
    NewObj(Seq<char>, Seq<ExprM>, nat),
}

pub enum StmtM {
    VarDecl { name: Seq<char>, value: ExprM, line: nat },
    Print { value: ExprM, line: nat },
    InputNoAssign { value: ExprM, line: nat },
    InputAssign { name: Seq<char>, value: ExprM, line: nat },
    ConvertStmt { value: ExprM, target_type: Seq<char>, line: nat },
    ExprStmt { value: ExprM, line: nat },
    MathAssign { target: ExprM, op: char, amount: ExprM, line: nat },
    ForLoop { var_name: Seq<char>, source: ForSourceM, body: Seq<StmtM>, line: nat },
    If { branches: Seq<IfBranchM>, line: nat },
    While { cond: CondChainM, negate: bool, body: Seq<StmtM>, line: nat },
    FuncDef { name: Seq<char>, params: Seq<Seq<char>>, body: Seq<StmtM>, line: nat },
    FuncCall { name: Seq<char>, arg: Option<ExprM>, line: nat },
    ClassDef { name: Seq<char>, body: Seq<StmtM>, line: nat },
    SelfFieldSet { field: Seq<char>, value: ExprM, line: nat },
    TryCatch {
        try_body: Seq<StmtM>,
        catch_err: Option<Seq<char>>,
        catch_var: Option<Seq<char>>,
        catch_body: Option<Seq<StmtM>>,
        finally_body: Option<Seq<StmtM>>,
        line: nat,
    },
}

pub struct IfBranchM {
    pub cond: Option<CondChainM>,
    pub negate: bool,
    pub body: Seq<StmtM>,
}

pub struct CondAtomM {
    pub lhs: ExprM,
    pub op: Option<Seq<char>>,
    pub rhs: Option<ExprM>,
    pub type_check: Option<Seq<char>>,
    pub line: nat,
}

pub struct CondChainM {
    pub first: CondAtomM,
    pub rest: Seq<(LogicalOp, CondAtomM)>,
}

pub enum ForSourceM {
    Range { start: Option<ExprM>, end: ExprM, step: ExprM, op: char },
    Auto(ExprM),
}

pub open spec fn expr_m(e: Expr) -> ExprM
    decreases e,
{
    match e {
        Expr::NumLit(s) => ExprM::NumLit(s@),
        Expr::StrLit(s) => ExprM::StrLit(s@),
        Expr::BoolLit(b) => ExprM::BoolLit(b),
        Expr::Ident(s) => ExprM::Ident(s@),
        Expr::Binary(l, c, r, line) => ExprM::Binary(
            Box::new(expr_m(*l)),
            c,
            Box::new(expr_m(*r)),
            line as nat,
        ),
        Expr::Neg(x, line) => ExprM::Neg(Box::new(expr_m(*x)), line as nat),
        Expr::Convert(x, t, line) => ExprM::Convert(Box::new(expr_m(*x)), t@, line as nat),
        Expr::ListLit(v) => ExprM::ListLit(exprs_m(v@)),
        Expr::TupleLit(v) => ExprM::TupleLit(exprs_m(v@)),
        Expr::SetLit(v) => ExprM::SetLit(exprs_m(v@)),
        Expr::DictLit(v) => ExprM::DictLit(pairs_m(v@)),
        Expr::Index(b, v) => ExprM::Index(Box::new(expr_m(*b)), exprs_m(v@)),
        Expr::NewObj(n, v, line) => ExprM::NewObj(n@, exprs_m(v@), line as nat),
    }
}

pub open spec fn exprs_m(s: Seq<Expr>) -> Seq<ExprM>
    decreases s,
{
    if s.len() == 0 {
        Seq::empty()
    } else {
        exprs_m(s.drop_last()).push(expr_m(s.last()))
    }
}

pub open spec fn pairs_m(s: Seq<(Expr, Expr)>) -> Seq<(ExprM, ExprM)>
    decreases s,
{
    if s.len() == 0 {
        Seq::empty()
    } else {
        pairs_m(s.drop_last()).push((expr_m(s.last().0), expr_m(s.last().1)))
    }
}

pub open spec fn opt_expr_m(e: Option<Expr>) -> Option<ExprM> {
    match e {
        Some(x) => Some(expr_m(x)),
        None => None,
    }
}

/// The characters of each string, in order.
pub open spec fn strings_m(s: Seq<String>) -> Seq<Seq<char>> {
    s.map_values(|x: String| x@)
}

pub open spec fn opt_string_m(s: Option<String>) -> Option<Seq<char>> {
    match s {
        Some(x) => Some(x@),
        None => None,
    }
}


pub open spec fn atom_m(a: CondAtom) -> CondAtomM {
    CondAtomM {
        lhs: expr_m(a.lhs),
        op: opt_string_m(a.op),
        rhs: opt_expr_m(a.rhs),
        type_check: opt_string_m(a.type_check),
        line: a.line as nat,
    }
}

pub open spec fn atoms_m(s: Seq<(LogicalOp, CondAtom)>) -> Seq<(LogicalOp, CondAtomM)> {
    s.map_values(|p: (LogicalOp, CondAtom)| (p.0, atom_m(p.1)))
}

pub open spec fn chain_m(c: CondChain) -> CondChainM {
    CondChainM { first: atom_m(c.first), rest: atoms_m(c.rest@) }
}

pub open spec fn opt_chain_m(c: Option<CondChain>) -> Option<CondChainM> {
    match c {
        Some(x) => Some(chain_m(x)),
        None => None,
    }
}

pub open spec fn source_m(s: ForSource) -> ForSourceM {
    match s {
        ForSource::Range { start, end, step, op } => ForSourceM::Range {
            start: opt_expr_m(start),
            end: expr_m(end),
            step: expr_m(step),
            op,
        },
        ForSource::Auto(e) => ForSourceM::Auto(expr_m(e)),
    }
}

pub open spec fn stmt_m(s: Stmt) -> StmtM
    decreases s,
{
    match s {
        Stmt::VarDecl { name, value, line } => StmtM::VarDecl {
            name: name@,
            value: expr_m(value),
            line: line as nat,
        },
        Stmt::Print { value, line } => StmtM::Print { value: expr_m(value), line: line as nat },
        Stmt::InputNoAssign { value, line } => StmtM::InputNoAssign {
            value: expr_m(value),
            line: line as nat,
        },
        Stmt::InputAssign { name, value, line } => StmtM::InputAssign {
            name: name@,
            value: expr_m(value),
            line: line as nat,
        },
        Stmt::ConvertStmt { value, target_type, line } => StmtM::ConvertStmt {
            value: expr_m(value),
            target_type: target_type@,
            line: line as nat,
        },
        Stmt::ExprStmt { value, line } => StmtM::ExprStmt { value: expr_m(value), line: line as nat },
        Stmt::MathAssign { target, op, amount, line } => StmtM::MathAssign {
            target: expr_m(target),
            op,
            amount: expr_m(amount),
            line: line as nat,
        },
        Stmt::ForLoop { var_name, source, body, line } => StmtM::ForLoop {
            var_name: var_name@,
            source: source_m(source),
            body: stmts_m(body@),
            line: line as nat,
        },
        Stmt::If { branches, line } => StmtM::If { branches: branches_m(branches@), line: line as nat },
        Stmt::While { cond, negate, body, line } => StmtM::While {
            cond: chain_m(cond),
            negate,
            body: stmts_m(body@),
            line: line as nat,
        },
        Stmt::FuncDef { name, params, body, line } => StmtM::FuncDef {
            name: name@,
            params: strings_m(params@),
            body: stmts_m(body@),
            line: line as nat,
        },
        Stmt::FuncCall { name, arg, line } => StmtM::FuncCall {
            name: name@,
            arg: opt_expr_m(arg),
            line: line as nat,
        },
        Stmt::ClassDef { name, body, line } => StmtM::ClassDef {
            name: name@,
            body: stmts_m(body@),
            line: line as nat,
        },
        Stmt::SelfFieldSet { field, value, line } => StmtM::SelfFieldSet {
            field: field@,
            value: expr_m(value),
            line: line as nat,
        },
        Stmt::TryCatch { try_body, catch_err, catch_var, catch_body, finally_body, line } =>
            StmtM::TryCatch {
            try_body: stmts_m(try_body@),
            catch_err: opt_string_m(catch_err),
            catch_var: opt_string_m(catch_var),
            catch_body: match catch_body {
                Some(b) => Some(stmts_m(b@)),
                None => None,
            },
            finally_body: match finally_body {
                Some(b) => Some(stmts_m(b@)),
                None => None,
            },
            line: line as nat,
        },
    }
}

pub open spec fn stmts_m(s: Seq<Stmt>) -> Seq<StmtM>
    decreases s,
{
    if s.len() == 0 {
        Seq::empty()
    } else {
        stmts_m(s.drop_last()).push(stmt_m(s.last()))
    }
}

pub open spec fn branch_m(b: IfBranch) -> IfBranchM
    decreases b,
{
    IfBranchM { cond: opt_chain_m(b.cond), negate: b.negate, body: stmts_m(b.body@) }
}

pub open spec fn branches_m(s: Seq<IfBranch>) -> Seq<IfBranchM>
    decreases s,
{
    if s.len() == 0 {
        Seq::empty()
    } else {
        branches_m(s.drop_last()).push(branch_m(s.last()))
    }
}

pub proof fn lemma_exprs_m_push(s: Seq<Expr>, e: Expr)
    ensures
        exprs_m(s.push(e)) == exprs_m(s).push(expr_m(e)),
{
    assert(s.push(e).drop_last() =~= s);
}

pub proof fn lemma_pairs_m_push(s: Seq<(Expr, Expr)>, p: (Expr, Expr))
    ensures
        pairs_m(s.push(p)) == pairs_m(s).push((expr_m(p.0), expr_m(p.1))),
{
    assert(s.push(p).drop_last() =~= s);
}

pub proof fn lemma_stmts_m_push(s: Seq<Stmt>, x: Stmt)
    ensures
        stmts_m(s.push(x)) == stmts_m(s).push(stmt_m(x)),
{
    assert(s.push(x).drop_last() =~= s);
}

pub proof fn lemma_branches_m_push(s: Seq<IfBranch>, x: IfBranch)
    ensures
        branches_m(s.push(x)) == branches_m(s).push(branch_m(x)),
{
    assert(s.push(x).drop_last() =~= s);
}

pub proof fn lemma_branches_m_index(s: Seq<IfBranch>)
    ensures
        branches_m(s).len() == s.len(),
        forall|q: int| 0 <= q < s.len() ==> branches_m(s)[q] == branch_m(#[trigger] s[q]),
    decreases s.len(),
{
    if s.len() > 0 {
        lemma_branches_m_index(s.drop_last());
        assert forall|q: int| 0 <= q < s.len() implies branches_m(s)[q] == branch_m(#[trigger] s[q]) by {
            if q < s.len() - 1 {
                assert(s.drop_last()[q] == s[q]);
            }
        }
    }
}

} // verus!
