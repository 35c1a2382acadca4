//! How a statement runs, as a sequence of steps. Evaluating expressions and
//! conditions works on values with fractional numbers and is done by the
//! program around the library; everything the running of a statement
//! decides from the answers is decided here: which branch runs, when a loop
//! stops, whether a call, a class or a field assignment is refused, where a
//! math assignment starts from, and what a "စမ်းရန်" statement catches.
use vstd::prelude::*;

use crate::parser::ast::{
    Expr, IfBranch, IfBranchM, opt_string_m, Stmt, StmtM, branches_m, lemma_branches_m_index, stmt_m, stmts_m,
};
use crate::parser::block::lemma_stmts_m_index;
use crate::runtime::{
    class_holds_non_method_err, class_holds_non_method_msg, class_without_method_err,
    class_without_method_msg, endless_while_err, endless_while_msg, error_code_spec,
    extract_error_code, field_outside_constructor_err, field_outside_constructor_msg,
    function_arity_err, function_arity_msg, unknown_function_err, unknown_function_msg,
};
use crate::text::str_eq;

verus! {

/// How many times a while loop may run its body.
pub const MAX_WHILE_ITERATIONS: u64 = 5000000;

/// The statements of a class body that are methods, by index; a body that
/// holds a statement that is no method, or no method at all, is refused.
pub open spec fn class_methods_spec(name: Seq<char>, body: Seq<StmtM>, line: nat) -> Result<
    Seq<usize>,
    Seq<char>,
> {
    if exists|k: int| 0 <= k < body.len() && !(#[trigger] body[k] is FuncDef) {
        Err(class_holds_non_method_msg(line, name))
    } else if body.len() == 0 {
        Err(class_without_method_msg(line, name))
    } else {
        Ok(Seq::new(body.len(), |i: int| i as usize))
    }
}

/// Checks the body of a class: the indexes of its methods, all of them.
pub fn class_methods(name: &str, body: &[Stmt], line: usize) -> (r: Result<Vec<usize>, String>)
    ensures
        match (r, class_methods_spec(name@, stmts_m(body@), line as nat)) {
            (Ok(v), Ok(w)) => v@ == w,
            (Err(m), Err(e)) => m@ == e,
            _ => false,
        },
{
    let ghost bm = stmts_m(body@);
    proof {
        lemma_stmts_m_index(body@);
    }
    let mut v: Vec<usize> = Vec::new();
    let mut i: usize = 0;
    while i < body.len()
        invariant
            i <= body@.len(),
            bm == stmts_m(body@),
            bm.len() == body@.len(),
            forall|q: int| 0 <= q < body@.len() ==> bm[q] == stmt_m(#[trigger] body@[q]),
            forall|k: int| 0 <= k < i ==> bm[k] is FuncDef,
            v@ == Seq::new(i as nat, |j: int| j as usize),
        decreases body.len() - i,
    {
        let is_method = match &body[i] {
            Stmt::FuncDef { .. } => true,
            _ => false,
        };
        assert(bm[i as int] == stmt_m(body@[i as int]));
        if !is_method {
            return Err(class_holds_non_method_err(line, name));
        }
        v.push(i);
        i += 1;
        proof {
            assert(v@ =~= Seq::new(i as nat, |j: int| j as usize));
        }
    }
    if body.len() == 0 {
        return Err(class_without_method_err(line, name));
    }
    Ok(v)
}

/// Whether a while loop runs its body again: when its condition (turned
/// over for the "မဖြစ်နေစဉ်" form) holds, and the body has run fewer than
/// `MAX_WHILE_ITERATIONS` times; past that, the loop fails (E046).
pub open spec fn while_continue_spec(iterations: nat, cond: bool, negate: bool, line: nat) -> Result<
    bool,
    Seq<char>,
> {
    if cond == negate {
        Ok(false)
    } else if iterations >= MAX_WHILE_ITERATIONS {
        Err(endless_while_msg(line))
    } else {
        Ok(true)
    }
}

/// Decides whether a while loop runs its body again.
pub fn while_continue(iterations: u64, cond: bool, negate: bool, line: usize) -> (r: Result<bool, String>)
    ensures
        match (r, while_continue_spec(iterations as nat, cond, negate, line as nat)) {
            (Ok(a), Ok(b)) => a == b,
            (Err(m), Err(e)) => m@ == e,
            _ => false,
        },
{
    if cond == negate {
        Ok(false)
    } else if iterations >= MAX_WHILE_ITERATIONS {
        Err(endless_while_err(line))
    } else {
        Ok(true)
    }
}

/// Whether a call of the function `name` may go ahead: the function must
/// be defined (`params` is its number of parameters; E031 otherwise) and
/// take as many arguments as the call gives (E033 otherwise).
pub open spec fn call_check_spec(name: Seq<char>, params: Option<usize>, has_arg: bool, line: nat) -> Result<
    (),
    Seq<char>,
> {
    match params {
        None => Err(unknown_function_msg(line, name)),
        Some(p) => if p != (if has_arg { 1usize } else { 0usize }) {
            Err(function_arity_msg(line, name, p as nat, if has_arg { 1nat } else { 0nat }))
        } else {
            Ok(())
        },
    }
}

/// Checks a call before its argument is evaluated.
pub fn call_check(name: &str, params: Option<usize>, has_arg: bool, line: usize) -> (r: Result<(), String>)
    ensures
        match (r, call_check_spec(name@, params, has_arg, line as nat)) {
            (Ok(()), Ok(())) => true,
            (Err(m), Err(e)) => m@ == e,
            _ => false,
        },
{
    match params {
        None => Err(unknown_function_err(line, name)),
        Some(p) => {
            let given: usize = if has_arg { 1 } else { 0 };
            if p != given {
                Err(function_arity_err(line, name, p, given))
            } else {
                Ok(())
            }
        },
    }
}

/// Whether a catch clause for `catch_err` catches the error `msg`: `E`
/// catches every error, any other code the errors with that code.
pub fn catch_matches(catch_err: &str, msg: &str) -> (r: bool)
    ensures
        r == (catch_err@ == "E"@ || catch_err@ == error_code_spec(msg@)),
{
    if str_eq(catch_err, "E") {
        return true;
    }
    let code = extract_error_code(msg);
    str_eq(catch_err, code.as_str())
}

// ---------------------------------------------------------------------
// Running a statement, step by step
// ---------------------------------------------------------------------

/// Where the running of a statement stands: which answer it waits for.
#[derive(Clone, Copy, Debug, PartialEq, Eq)]
pub enum Phase {
    /// Not started; waits for `ExecEvent::Start`.
    Begin,
    /// Waits for the evaluation of a part of the statement.
    Value,
    /// Waits to learn whether the target variable is declared.
    Lookup,
    /// Waits for the evaluation of a math assignment's target.
    Target,
    /// Waits to learn the called function's number of parameters.
    Call,
    /// Waits for the argument's binding to the parameter.
    Param,
    /// Waits to learn whether an object is being constructed.
    Check,
    /// Waits for the value of a condition.
    Cond,
    /// Waits for the end of a body: a branch, a loop's round, a function's.
    Body,
    /// Waits for the end of the statement's last outside action.
    Output,
    /// Waits for the end of the body under the catch clause.
    InTry,
    /// Waits for the binding of the caught error's code.
    CatchVar,
    /// Waits for the end of the catch body.
    InCatch,
    /// Waits for the end of the finally part.
    InFinally,
    /// The statement has ended.
    Finished,
}

/// The state of a statement being run.
#[derive(Debug)]
pub struct ExecState {
    pub phase: Phase,
    /// The if-branch under test or running.
    pub branch: usize,
    /// How many times a while loop has run its body.
    pub iterations: u64,
    /// An error of a "စမ်းရန်" statement, raised again once its finally
    /// part has run.
    pub pending: Option<String>,
}

pub struct ExecStateM {
    pub phase: Phase,
    pub branch: usize,
    pub iterations: u64,
    pub pending: Option<Seq<char>>,
}

impl View for ExecState {
    type V = ExecStateM;

    open spec fn view(&self) -> ExecStateM {
        ExecStateM {
            phase: self.phase,
            branch: self.branch,
            iterations: self.iterations,
            pending: opt_string_m(self.pending),
        }
    }
}

impl ExecState {
    /// The state of a statement that has not started.
    pub fn new() -> (r: Self)
        ensures
            r@ == (ExecStateM { phase: Phase::Begin, branch: 0, iterations: 0, pending: None }),
    {
        ExecState { phase: Phase::Begin, branch: 0, iterations: 0, pending: None }
    }
}

/// A part of a statement to evaluate.
#[derive(Clone, Copy, Debug, PartialEq, Eq)]
pub enum Part {
    /// The `value` expression (of a declaration, print, prompt, conversion,
    /// expression statement or field assignment).
    Value,
    /// The amount of a math assignment.
    Amount,
    /// The target of a math assignment that is no plain variable.
    Target,
    /// The argument of a function call.
    Arg,
}

/// The left operand of a math assignment.
#[derive(Clone, Copy, Debug, PartialEq, Eq)]
pub enum Operand {
    /// The variable's current value.
    Current,
    /// Zero, for a variable not declared yet.
    Zero,
    /// The evaluated target.
    Target,
}

/// A body to run.
#[derive(Clone, Copy, Debug, PartialEq, Eq)]
pub enum Body {
    /// The body of the if-branch with this index.
    Branch(usize),
    /// The body of a while loop, once.
    Loop,
    /// The body of the called function.
    Function,
    /// The body under a catch clause.
    Try,
    /// The catch body.
    Catch,
    /// The finally part.
    Finally,
}

/// What the program around the library does next for a statement.
#[derive(Debug, PartialEq, Eq)]
pub enum ExecAction {
    Eval(Part),
    /// Evaluate the condition of the if-branch with this index (0 for a
    /// while loop).
    EvalCond(usize),
    /// Store the evaluated value under the declared name.
    Bind,
    /// Print the evaluated value.
    Print,
    /// Print the evaluated prompt and read a line; with `true`, store what
    /// was read under the statement's name.
    Prompt(bool),
    /// Convert the evaluated value to the statement's target type.
    Convert,
    /// Tell whether the target variable is declared.
    LookupVar,
    /// Combine the operand with the evaluated amount by the statement's
    /// operator; a plain-variable target receives the result.
    Combine(Operand),
    /// Run the for loop.
    RunForLoop,
    /// Record the function.
    DefineFunction,
    /// Tell the number of parameters of the called function, if defined.
    LookupFunction,
    /// Bind the evaluated argument to the function's parameter.
    BindParam,
    /// Record the class with the methods at these indexes of its body.
    DefineClass(Vec<usize>),
    /// Tell whether an object is being constructed.
    CheckConstructing,
    /// Set the field of the object under construction.
    SetField,
    RunBody(Body),
    /// Store this error code under the catch variable.
    BindCatchVar(String),
    /// The statement fails with this message.
    Fail(String),
    /// The statement has run to its end.
    Done,
}

pub enum ActionM {
    Eval(Part),
    EvalCond(usize),
    Bind,
    Print,
    Prompt(bool),
    Convert,
    LookupVar,
    Combine(Operand),
    RunForLoop,
    DefineFunction,
    LookupFunction,
    BindParam,
    DefineClass(Seq<usize>),
    CheckConstructing,
    SetField,
    RunBody(Body),
    BindCatchVar(Seq<char>),
    Fail(Seq<char>),
    Done,
}

pub open spec fn action_m(a: ExecAction) -> ActionM {
    match a {
        ExecAction::Eval(p) => ActionM::Eval(p),
        ExecAction::EvalCond(k) => ActionM::EvalCond(k),
        ExecAction::Bind => ActionM::Bind,
        ExecAction::Print => ActionM::Print,
        ExecAction::Prompt(b) => ActionM::Prompt(b),
        ExecAction::Convert => ActionM::Convert,
        ExecAction::LookupVar => ActionM::LookupVar,
        ExecAction::Combine(o) => ActionM::Combine(o),
        ExecAction::RunForLoop => ActionM::RunForLoop,
        ExecAction::DefineFunction => ActionM::DefineFunction,
        ExecAction::LookupFunction => ActionM::LookupFunction,
        ExecAction::BindParam => ActionM::BindParam,
        ExecAction::DefineClass(v) => ActionM::DefineClass(v@),
        ExecAction::CheckConstructing => ActionM::CheckConstructing,
        ExecAction::SetField => ActionM::SetField,
        ExecAction::RunBody(b) => ActionM::RunBody(b),
        ExecAction::BindCatchVar(c) => ActionM::BindCatchVar(c@),
        ExecAction::Fail(m) => ActionM::Fail(m@),
        ExecAction::Done => ActionM::Done,
    }
}

/// What came of the last action.
#[derive(Debug)]
pub enum ExecEvent {
    /// The statement starts.
    Start,
    /// The action succeeded (and has nothing to tell).
    Performed,
    /// The condition evaluated to this.
    Cond(bool),
    /// Whether the target variable is declared.
    Declared(bool),
    /// The called function's number of parameters, `None` if undefined.
    Function(Option<usize>),
    /// Whether an object is being constructed.
    Constructing(bool),
    /// The action failed with this message.
    Failed(String),
}

pub enum EventM {
    Start,
    Performed,
    Cond(bool),
    Declared(bool),
    Function(Option<usize>),
    Constructing(bool),
    Failed(Seq<char>),
}

pub open spec fn event_m(e: ExecEvent) -> EventM {
    match e {
        ExecEvent::Start => EventM::Start,
        ExecEvent::Performed => EventM::Performed,
        ExecEvent::Cond(b) => EventM::Cond(b),
        ExecEvent::Declared(b) => EventM::Declared(b),
        ExecEvent::Function(p) => EventM::Function(p),
        ExecEvent::Constructing(b) => EventM::Constructing(b),
        ExecEvent::Failed(m) => EventM::Failed(m@),
    }
}

pub open spec fn with_phase(s: ExecStateM, phase: Phase) -> ExecStateM {
    ExecStateM { phase, branch: s.branch, iterations: s.iterations, pending: s.pending }
}

pub open spec fn go(s: ExecStateM, phase: Phase, a: ActionM) -> (ExecStateM, ActionM) {
    (with_phase(s, phase), a)
}

pub open spec fn done_m(s: ExecStateM) -> (ExecStateM, ActionM) {
    go(s, Phase::Finished, ActionM::Done)
}

pub open spec fn fail_m(s: ExecStateM, m: Seq<char>) -> (ExecStateM, ActionM) {
    go(s, Phase::Finished, ActionM::Fail(m))
}

/// A statement that evaluates its value, then does `after` with it (or
/// nothing, for `None`).
pub open spec fn value_step(after: Option<ActionM>, s: ExecStateM, ev: EventM) -> (ExecStateM, ActionM) {
    match (s.phase, ev) {
        (Phase::Begin, EventM::Start) => go(s, Phase::Value, ActionM::Eval(Part::Value)),
        (Phase::Value, EventM::Performed) => match after {
            Some(a) => go(s, Phase::Output, a),
            None => done_m(s),
        },
        _ => done_m(s),
    }
}

/// A statement that is one outside action.
pub open spec fn single_step(a: ActionM, s: ExecStateM, ev: EventM) -> (ExecStateM, ActionM) {
    match (s.phase, ev) {
        (Phase::Begin, EventM::Start) => go(s, Phase::Output, a),
        _ => done_m(s),
    }
}

/// A math assignment: the amount first; a plain variable then starts from
/// its value, or from 0 when it is not declared; another target is
/// evaluated.
pub open spec fn math_step(to_name: bool, s: ExecStateM, ev: EventM) -> (ExecStateM, ActionM) {
    match (s.phase, ev) {
        (Phase::Begin, EventM::Start) => go(s, Phase::Value, ActionM::Eval(Part::Amount)),
        (Phase::Value, EventM::Performed) => if to_name {
            go(s, Phase::Lookup, ActionM::LookupVar)
        } else {
            go(s, Phase::Target, ActionM::Eval(Part::Target))
        },
        (Phase::Lookup, EventM::Declared(d)) => go(
            s,
            Phase::Output,
            ActionM::Combine(if d { Operand::Current } else { Operand::Zero }),
        ),
        (Phase::Target, EventM::Performed) => go(s, Phase::Output, ActionM::Combine(Operand::Target)),
        _ => done_m(s),
    }
}

/// The first branch from index `k` on to test or to run: an unconditional
/// one runs at once; past the last branch the statement ends.
pub open spec fn if_choose(branches: Seq<IfBranchM>, s: ExecStateM, k: usize) -> (ExecStateM, ActionM) {
    if k >= branches.len() {
        done_m(s)
    } else if branches[k as int].cond is None {
        (ExecStateM { phase: Phase::Body, branch: k, iterations: s.iterations, pending: s.pending },
         ActionM::RunBody(Body::Branch(k)))
    } else {
        (ExecStateM { phase: Phase::Cond, branch: k, iterations: s.iterations, pending: s.pending },
         ActionM::EvalCond(k))
    }
}

/// An if statement runs the first branch whose condition holds (is false,
/// for a "မဖြစ်လျှင်" branch), and only that one.
pub open spec fn if_step(branches: Seq<IfBranchM>, s: ExecStateM, ev: EventM) -> (ExecStateM, ActionM) {
    match (s.phase, ev) {
        (Phase::Begin, EventM::Start) => if_choose(branches, s, 0),
        (Phase::Cond, EventM::Cond(c)) => if s.branch >= branches.len() {
            done_m(s)
        } else if c != branches[s.branch as int].negate {
            go(s, Phase::Body, ActionM::RunBody(Body::Branch(s.branch)))
        } else {
            if_choose(branches, s, (s.branch + 1) as usize)
        },
        _ => done_m(s),
    }
}

/// A while loop tests its condition before each round and counts its
/// rounds (see `while_continue_spec`).
pub open spec fn while_step(negate: bool, line: nat, s: ExecStateM, ev: EventM) -> (ExecStateM, ActionM) {
    match (s.phase, ev) {
        (Phase::Begin, EventM::Start) => (
            ExecStateM { phase: Phase::Cond, branch: s.branch, iterations: 0, pending: s.pending },
            ActionM::EvalCond(0),
        ),
        (Phase::Cond, EventM::Cond(c)) => match while_continue_spec(s.iterations as nat, c, negate, line) {
            Ok(true) => (
                ExecStateM {
                    phase: Phase::Body,
                    branch: s.branch,
                    iterations: (s.iterations + 1) as u64,
                    pending: s.pending,
                },
                ActionM::RunBody(Body::Loop),
            ),
            Ok(false) => done_m(s),
            Err(m) => fail_m(s, m),
        },
        (Phase::Body, EventM::Performed) => go(s, Phase::Cond, ActionM::EvalCond(0)),
        _ => done_m(s),
    }
}

/// A function call: the function is looked up and checked
/// (`call_check_spec`), its argument evaluated and bound, its body run.
pub open spec fn call_step(name: Seq<char>, has_arg: bool, line: nat, s: ExecStateM, ev: EventM) -> (
    ExecStateM,
    ActionM,
) {
    match (s.phase, ev) {
        (Phase::Begin, EventM::Start) => go(s, Phase::Call, ActionM::LookupFunction),
        (Phase::Call, EventM::Function(p)) => match call_check_spec(name, p, has_arg, line) {
            Err(m) => fail_m(s, m),
            Ok(_) => if has_arg {
                go(s, Phase::Value, ActionM::Eval(Part::Arg))
            } else {
                go(s, Phase::Body, ActionM::RunBody(Body::Function))
            },
        },
        (Phase::Value, EventM::Performed) => go(s, Phase::Param, ActionM::BindParam),
        (Phase::Param, EventM::Performed) => go(s, Phase::Body, ActionM::RunBody(Body::Function)),
        _ => done_m(s),
    }
}

/// A class definition is checked (`class_methods_spec`) and recorded.
pub open spec fn class_step(name: Seq<char>, body: Seq<StmtM>, line: nat, s: ExecStateM, ev: EventM) -> (
    ExecStateM,
    ActionM,
) {
    match (s.phase, ev) {
        (Phase::Begin, EventM::Start) => match class_methods_spec(name, body, line) {
            Ok(v) => go(s, Phase::Output, ActionM::DefineClass(v)),
            Err(m) => fail_m(s, m),
        },
        _ => done_m(s),
    }
}

/// A field assignment evaluates its value, then needs an object under
/// construction (E035 otherwise).
pub open spec fn field_step(line: nat, s: ExecStateM, ev: EventM) -> (ExecStateM, ActionM) {
    match (s.phase, ev) {
        (Phase::Begin, EventM::Start) => go(s, Phase::Value, ActionM::Eval(Part::Value)),
        (Phase::Value, EventM::Performed) => go(s, Phase::Check, ActionM::CheckConstructing),
        (Phase::Check, EventM::Constructing(b)) => if b {
            go(s, Phase::Output, ActionM::SetField)
        } else {
            fail_m(s, field_outside_constructor_msg(line))
        },
        _ => done_m(s),
    }
}

/// After the body under the catch clause, or the catch body: the finally
/// part runs if there is one, and the error `pending` (if any) is raised
/// after it.
pub open spec fn after_try(has_finally: bool, s: ExecStateM, pending: Option<Seq<char>>) -> (
    ExecStateM,
    ActionM,
) {
    if has_finally {
        (ExecStateM { phase: Phase::InFinally, branch: s.branch, iterations: s.iterations, pending },
         ActionM::RunBody(Body::Finally))
    } else {
        match pending {
            Some(m) => fail_m(s, m),
            None => done_m(s),
        }
    }
}

/// Whether a catch clause for `catch_err` catches the error `msg`.
pub open spec fn catches(catch_err: Seq<char>, msg: Seq<char>) -> bool {
    catch_err == "E"@ || catch_err == error_code_spec(msg)
}

/// A "စမ်းရန်" statement: an error of its body is caught when the catch
/// clause's code matches it (`catches`); the code goes to the catch
/// variable, if any, and the catch body runs. The finally part runs in
/// every case, and an error that was not caught, or that the catch body
/// raised, comes out after it; an error of the finally part itself comes
/// out in its place.
pub open spec fn try_step(
    catch_err: Option<Seq<char>>,
    has_catch_var: bool,
    has_catch_body: bool,
    has_finally: bool,
    s: ExecStateM,
    ev: EventM,
) -> (ExecStateM, ActionM) {
    match (s.phase, ev) {
        (Phase::Begin, EventM::Start) => (
            ExecStateM { phase: Phase::InTry, branch: s.branch, iterations: s.iterations, pending: None },
            ActionM::RunBody(Body::Try),
        ),
        (Phase::InTry, EventM::Performed) => after_try(has_finally, s, None),
        (Phase::InTry, EventM::Failed(m)) => match catch_err {
            Some(c) => if has_catch_body && catches(c, m) {
                if has_catch_var {
                    go(s, Phase::CatchVar, ActionM::BindCatchVar(error_code_spec(m)))
                } else {
                    go(s, Phase::InCatch, ActionM::RunBody(Body::Catch))
                }
            } else {
                after_try(has_finally, s, Some(m))
            },
            None => after_try(has_finally, s, Some(m)),
        },
        (Phase::CatchVar, EventM::Performed) => go(s, Phase::InCatch, ActionM::RunBody(Body::Catch)),
        (Phase::InCatch, EventM::Performed) => after_try(has_finally, s, None),
        (Phase::InCatch, EventM::Failed(m)) => after_try(has_finally, s, Some(m)),
        (Phase::InFinally, EventM::Performed) => match s.pending {
            Some(m) => fail_m(s, m),
            None => done_m(s),
        },
        (_, EventM::Failed(m)) => fail_m(s, m),
        _ => done_m(s),
    }
}

/// One step of running a statement: from where it stands and what came of
/// the last action, its next state and the next action. A failed action
/// fails the statement (a "စမ်းရန်" statement may catch it); the statement's
/// last action, once performed, ends it, and so does an event it does not
/// wait for; an ended statement stays ended.
pub open spec fn exec_step_spec(stmt: StmtM, s: ExecStateM, ev: EventM) -> (ExecStateM, ActionM) {
    if s.phase is Finished {
        done_m(s)
    } else if stmt is TryCatch {
        try_step(
            stmt->catch_err,
            stmt->catch_var is Some,
            stmt->catch_body is Some,
            stmt->finally_body is Some,
            s,
            ev,
        )
    } else if ev is Failed {
        fail_m(s, ev->Failed_0)
    } else if s.phase is Output && ev is Performed {
        done_m(s)
    } else {
        match stmt {
            StmtM::VarDecl { .. } => value_step(Some(ActionM::Bind), s, ev),
            StmtM::Print { .. } => value_step(Some(ActionM::Print), s, ev),
            StmtM::InputNoAssign { .. } => value_step(Some(ActionM::Prompt(false)), s, ev),
            StmtM::InputAssign { .. } => value_step(Some(ActionM::Prompt(true)), s, ev),
            StmtM::ConvertStmt { .. } => value_step(Some(ActionM::Convert), s, ev),
            StmtM::ExprStmt { .. } => value_step(None, s, ev),
            StmtM::MathAssign { target, .. } => math_step(target is Ident, s, ev),
            StmtM::ForLoop { .. } => single_step(ActionM::RunForLoop, s, ev),
            StmtM::If { branches, .. } => if_step(branches, s, ev),
            StmtM::While { negate, line, .. } => while_step(negate, line, s, ev),
            StmtM::FuncDef { .. } => single_step(ActionM::DefineFunction, s, ev),
            StmtM::FuncCall { name, arg, line } => call_step(name, arg is Some, line, s, ev),
            StmtM::ClassDef { name, body, line } => class_step(name, body, line, s, ev),
            StmtM::SelfFieldSet { line, .. } => field_step(line, s, ev),
            StmtM::TryCatch { .. } => done_m(s),
        }
    }
}


fn state_with(s: &ExecState, phase: Phase) -> (r: ExecState)
    ensures
        r@ == with_phase(s@, phase),
{
    let pending = match &s.pending {
        Some(m) => Some(m.clone()),
        None => None,
    };
    ExecState { phase, branch: s.branch, iterations: s.iterations, pending }
}

fn finish(s: &ExecState) -> (r: (ExecState, ExecAction))
    ensures
        (r.0@, action_m(r.1)) == done_m(s@),
{
    (state_with(s, Phase::Finished), ExecAction::Done)
}

fn fail_with(s: &ExecState, m: String) -> (r: (ExecState, ExecAction))
    ensures
        (r.0@, action_m(r.1)) == fail_m(s@, m@),
{
    (state_with(s, Phase::Finished), ExecAction::Fail(m))
}

pub open spec fn opt_action_m(a: Option<ExecAction>) -> Option<ActionM> {
    match a {
        Some(x) => Some(action_m(x)),
        None => None,
    }
}

fn value_exec(after: Option<ExecAction>, s: &ExecState, ev: &ExecEvent) -> (r: (ExecState, ExecAction))
    ensures
        (r.0@, action_m(r.1)) == value_step(opt_action_m(after), s@, event_m(*ev)),
{
    match (s.phase, ev) {
        (Phase::Begin, ExecEvent::Start) => (state_with(s, Phase::Value), ExecAction::Eval(Part::Value)),
        (Phase::Value, ExecEvent::Performed) => match after {
            Some(a) => (state_with(s, Phase::Output), a),
            None => finish(s),
        },
        _ => finish(s),
    }
}

fn single_exec(a: ExecAction, s: &ExecState, ev: &ExecEvent) -> (r: (ExecState, ExecAction))
    ensures
        (r.0@, action_m(r.1)) == single_step(action_m(a), s@, event_m(*ev)),
{
    match (s.phase, ev) {
        (Phase::Begin, ExecEvent::Start) => (state_with(s, Phase::Output), a),
        _ => finish(s),
    }
}

fn math_exec(to_name: bool, s: &ExecState, ev: &ExecEvent) -> (r: (ExecState, ExecAction))
    ensures
        (r.0@, action_m(r.1)) == math_step(to_name, s@, event_m(*ev)),
{
    match (s.phase, ev) {
        (Phase::Begin, ExecEvent::Start) => (state_with(s, Phase::Value), ExecAction::Eval(Part::Amount)),
        (Phase::Value, ExecEvent::Performed) => if to_name {
            (state_with(s, Phase::Lookup), ExecAction::LookupVar)
        } else {
            (state_with(s, Phase::Target), ExecAction::Eval(Part::Target))
        },
        (Phase::Lookup, ExecEvent::Declared(d)) => {
            let o = if *d { Operand::Current } else { Operand::Zero };
            (state_with(s, Phase::Output), ExecAction::Combine(o))
        },
        (Phase::Target, ExecEvent::Performed) => (
            state_with(s, Phase::Output),
            ExecAction::Combine(Operand::Target),
        ),
        _ => finish(s),
    }
}

fn if_choose_exec(branches: &Vec<IfBranch>, s: &ExecState, k: usize) -> (r: (ExecState, ExecAction))
    ensures
        (r.0@, action_m(r.1)) == if_choose(branches_m(branches@), s@, k),
{
    proof {
        lemma_branches_m_index(branches@);
    }
    let pending = match &s.pending {
        Some(m) => Some(m.clone()),
        None => None,
    };
    if k >= branches.len() {
        finish(s)
    } else if branches[k].cond.is_none() {
        (
            ExecState { phase: Phase::Body, branch: k, iterations: s.iterations, pending },
            ExecAction::RunBody(Body::Branch(k)),
        )
    } else {
        (
            ExecState { phase: Phase::Cond, branch: k, iterations: s.iterations, pending },
            ExecAction::EvalCond(k),
        )
    }
}

fn if_exec(branches: &Vec<IfBranch>, s: &ExecState, ev: &ExecEvent) -> (r: (ExecState, ExecAction))
    ensures
        (r.0@, action_m(r.1)) == if_step(branches_m(branches@), s@, event_m(*ev)),
{
    proof {
        lemma_branches_m_index(branches@);
    }
    match (s.phase, ev) {
        (Phase::Begin, ExecEvent::Start) => if_choose_exec(branches, s, 0),
        (Phase::Cond, ExecEvent::Cond(c)) => {
            if s.branch >= branches.len() {
                finish(s)
            } else if *c != branches[s.branch].negate {
                (state_with(s, Phase::Body), ExecAction::RunBody(Body::Branch(s.branch)))
            } else {
                if_choose_exec(branches, s, s.branch + 1)
            }
        },
        _ => finish(s),
    }
}

fn while_exec(negate: bool, line: usize, s: &ExecState, ev: &ExecEvent) -> (r: (ExecState, ExecAction))
    ensures
        (r.0@, action_m(r.1)) == while_step(negate, line as nat, s@, event_m(*ev)),
{
    let pending = match &s.pending {
        Some(m) => Some(m.clone()),
        None => None,
    };
    match (s.phase, ev) {
        (Phase::Begin, ExecEvent::Start) => (
            ExecState { phase: Phase::Cond, branch: s.branch, iterations: 0, pending },
            ExecAction::EvalCond(0),
        ),
        (Phase::Cond, ExecEvent::Cond(c)) => match while_continue(s.iterations, *c, negate, line) {
            Ok(true) => (
                ExecState { phase: Phase::Body, branch: s.branch, iterations: s.iterations + 1, pending },
                ExecAction::RunBody(Body::Loop),
            ),
            Ok(false) => finish(s),
            Err(m) => fail_with(s, m),
        },
        (Phase::Body, ExecEvent::Performed) => (state_with(s, Phase::Cond), ExecAction::EvalCond(0)),
        _ => finish(s),
    }
}

fn call_exec(name: &str, has_arg: bool, line: usize, s: &ExecState, ev: &ExecEvent) -> (r: (
    ExecState,
    ExecAction,
))
    ensures
        (r.0@, action_m(r.1)) == call_step(name@, has_arg, line as nat, s@, event_m(*ev)),
{
    match (s.phase, ev) {
        (Phase::Begin, ExecEvent::Start) => (state_with(s, Phase::Call), ExecAction::LookupFunction),
        (Phase::Call, ExecEvent::Function(p)) => match call_check(name, *p, has_arg, line) {
            Err(m) => fail_with(s, m),
            Ok(()) => if has_arg {
                (state_with(s, Phase::Value), ExecAction::Eval(Part::Arg))
            } else {
                (state_with(s, Phase::Body), ExecAction::RunBody(Body::Function))
            },
        },
        (Phase::Value, ExecEvent::Performed) => (state_with(s, Phase::Param), ExecAction::BindParam),
        (Phase::Param, ExecEvent::Performed) => (
            state_with(s, Phase::Body),
            ExecAction::RunBody(Body::Function),
        ),
        _ => finish(s),
    }
}

fn class_exec(name: &str, body: &[Stmt], line: usize, s: &ExecState, ev: &ExecEvent) -> (r: (
    ExecState,
    ExecAction,
))
    ensures
        (r.0@, action_m(r.1)) == class_step(name@, stmts_m(body@), line as nat, s@, event_m(*ev)),
{
    match (s.phase, ev) {
        (Phase::Begin, ExecEvent::Start) => match class_methods(name, body, line) {
            Ok(v) => (state_with(s, Phase::Output), ExecAction::DefineClass(v)),
            Err(m) => fail_with(s, m),
        },
        _ => finish(s),
    }
}

fn field_exec(line: usize, s: &ExecState, ev: &ExecEvent) -> (r: (ExecState, ExecAction))
    ensures
        (r.0@, action_m(r.1)) == field_step(line as nat, s@, event_m(*ev)),
{
    match (s.phase, ev) {
        (Phase::Begin, ExecEvent::Start) => (state_with(s, Phase::Value), ExecAction::Eval(Part::Value)),
        (Phase::Value, ExecEvent::Performed) => (state_with(s, Phase::Check), ExecAction::CheckConstructing),
        (Phase::Check, ExecEvent::Constructing(b)) => if *b {
            (state_with(s, Phase::Output), ExecAction::SetField)
        } else {
            fail_with(s, field_outside_constructor_err(line))
        },
        _ => finish(s),
    }
}

fn after_try_exec(has_finally: bool, s: &ExecState, pending: Option<String>) -> (r: (
    ExecState,
    ExecAction,
))
    ensures
        (r.0@, action_m(r.1)) == after_try(has_finally, s@, opt_string_m(pending)),
{
    if has_finally {
        (
            ExecState { phase: Phase::InFinally, branch: s.branch, iterations: s.iterations, pending },
            ExecAction::RunBody(Body::Finally),
        )
    } else {
        match pending {
            Some(m) => fail_with(s, m),
            None => finish(s),
        }
    }
}

fn try_exec(
    catch_err: &Option<String>,
    has_catch_var: bool,
    has_catch_body: bool,
    has_finally: bool,
    s: &ExecState,
    ev: &ExecEvent,
) -> (r: (ExecState, ExecAction))
    ensures
        (r.0@, action_m(r.1)) == try_step(
            opt_string_m(*catch_err),
            has_catch_var,
            has_catch_body,
            has_finally,
            s@,
            event_m(*ev),
        ),
{
    match (s.phase, ev) {
        (Phase::Begin, ExecEvent::Start) => (
            ExecState { phase: Phase::InTry, branch: s.branch, iterations: s.iterations, pending: None },
            ExecAction::RunBody(Body::Try),
        ),
        (Phase::InTry, ExecEvent::Performed) => after_try_exec(has_finally, s, None),
        (Phase::InTry, ExecEvent::Failed(m)) => match catch_err {
            Some(c) => if has_catch_body && catch_matches(c.as_str(), m.as_str()) {
                if has_catch_var {
                    (state_with(s, Phase::CatchVar), ExecAction::BindCatchVar(extract_error_code(m.as_str())))
                } else {
                    (state_with(s, Phase::InCatch), ExecAction::RunBody(Body::Catch))
                }
            } else {
                after_try_exec(has_finally, s, Some(m.clone()))
            },
            None => after_try_exec(has_finally, s, Some(m.clone())),
        },
        (Phase::CatchVar, ExecEvent::Performed) => (
            state_with(s, Phase::InCatch),
            ExecAction::RunBody(Body::Catch),
        ),
        (Phase::InCatch, ExecEvent::Performed) => after_try_exec(has_finally, s, None),
        (Phase::InCatch, ExecEvent::Failed(m)) => after_try_exec(has_finally, s, Some(m.clone())),
        (Phase::InFinally, ExecEvent::Performed) => match &s.pending {
            Some(m) => fail_with(s, m.clone()),
            None => finish(s),
        },
        (_, ExecEvent::Failed(m)) => fail_with(s, m.clone()),
        _ => finish(s),
    }
}

/// Runs one step of a statement (see `exec_step_spec`): the caller starts
/// with `ExecState::new()` and `ExecEvent::Start`, performs each action it
/// is given and hands back what came of it, until the action is `Done` or
/// `Fail`.
pub fn exec_step(stmt: &Stmt, state: &ExecState, event: ExecEvent) -> (r: (ExecState, ExecAction))
    ensures
        (r.0@, action_m(r.1)) == exec_step_spec(stmt_m(*stmt), state@, event_m(event)),
{
    if let Phase::Finished = state.phase {
        return finish(state);
    }
    match stmt {
        Stmt::TryCatch { catch_err, catch_var, catch_body, finally_body, .. } => {
            return try_exec(
                catch_err,
                catch_var.is_some(),
                catch_body.is_some(),
                finally_body.is_some(),
                state,
                &event,
            );
        },
        _ => {},
    }
    match &event {
        ExecEvent::Failed(m) => {
            return fail_with(state, m.clone());
        },
        ExecEvent::Performed => {
            if let Phase::Output = state.phase {
                return finish(state);
            }
        },
        _ => {},
    }
    match stmt {
        Stmt::VarDecl { .. } => value_exec(Some(ExecAction::Bind), state, &event),
        Stmt::Print { .. } => value_exec(Some(ExecAction::Print), state, &event),
        Stmt::InputNoAssign { .. } => value_exec(Some(ExecAction::Prompt(false)), state, &event),
        Stmt::InputAssign { .. } => value_exec(Some(ExecAction::Prompt(true)), state, &event),
        Stmt::ConvertStmt { .. } => value_exec(Some(ExecAction::Convert), state, &event),
        Stmt::ExprStmt { .. } => value_exec(None, state, &event),
        Stmt::MathAssign { target, .. } => {
            let to_name = match target {
                Expr::Ident(_) => true,
                _ => false,
            };
            math_exec(to_name, state, &event)
        },
        Stmt::ForLoop { .. } => single_exec(ExecAction::RunForLoop, state, &event),
        Stmt::If { branches, .. } => if_exec(branches, state, &event),
        Stmt::While { negate, line, .. } => while_exec(*negate, *line, state, &event),
        Stmt::FuncDef { .. } => single_exec(ExecAction::DefineFunction, state, &event),
        Stmt::FuncCall { name, arg, line } => call_exec(name.as_str(), arg.is_some(), *line, state, &event),
        Stmt::ClassDef { name, body, line } => class_exec(name.as_str(), body.as_slice(), *line, state, &event),
        Stmt::SelfFieldSet { line, .. } => field_exec(*line, state, &event),
        Stmt::TryCatch { .. } => finish(state),
    }
}


// ---------------------------------------------------------------------
// Laws of running a statement
// ---------------------------------------------------------------------

/// A math assignment to a variable that is not declared starts from 0:
/// once the amount is evaluated and the variable is found undeclared, the
/// amount is combined with zero.
pub proof fn law_math_undeclared_starts_at_zero(stmt: StmtM, s: ExecStateM)
    requires
        stmt is MathAssign,
        stmt->MathAssign_target is Ident,
        s.phase is Lookup,
    ensures
        exec_step_spec(stmt, s, EventM::Declared(false)).1 == ActionM::Combine(Operand::Zero),
        exec_step_spec(stmt, s, EventM::Declared(true)).1 == ActionM::Combine(Operand::Current),
{
}

/// A catch clause for `E` catches every error of the body under it.
pub proof fn law_catch_all(stmt: StmtM, s: ExecStateM, m: Seq<char>)
    requires
        stmt is TryCatch,
        stmt->catch_err == Some("E"@),
        stmt->catch_body is Some,
        s.phase is InTry,
    ensures
        ({
            let a = exec_step_spec(stmt, s, EventM::Failed(m)).1;
            a == ActionM::RunBody(Body::Catch) || a == ActionM::BindCatchVar(error_code_spec(m))
        }),
{
}

/// The finally part runs whatever came of the body under the catch clause
/// or of the catch body: success or error, caught or not.
pub proof fn law_finally_runs(stmt: StmtM, s: ExecStateM, ev: EventM)
    requires
        stmt is TryCatch,
        stmt->finally_body is Some,
        s.phase is InTry || s.phase is InCatch,
        ev is Performed || ev is Failed,
        !(s.phase is InTry && ev is Failed && stmt->catch_err is Some && stmt->catch_body is Some
            && catches(stmt->catch_err->0, ev->Failed_0)),
    ensures
        exec_step_spec(stmt, s, ev).1 == ActionM::RunBody(Body::Finally),
        exec_step_spec(stmt, s, ev).0.phase is InFinally,
{
}

/// An error that the catch clause does not catch comes out of the
/// statement unchanged: at once, or after the finally part has run.
pub proof fn law_uncaught_error_raised(stmt: StmtM, s: ExecStateM, m: Seq<char>)
    requires
        stmt is TryCatch,
        s.phase is InTry,
        !(stmt->catch_err is Some && stmt->catch_body is Some && catches(stmt->catch_err->0, m)),
    ensures
        stmt->finally_body is None ==> exec_step_spec(stmt, s, EventM::Failed(m)).1 == ActionM::Fail(m),
        stmt->finally_body is Some ==> ({
            let next = exec_step_spec(stmt, s, EventM::Failed(m)).0;
            exec_step_spec(stmt, next, EventM::Performed).1 == ActionM::Fail(m)
        }),
{
}

/// A while loop counts each round it runs and never runs more than
/// `MAX_WHILE_ITERATIONS` rounds.
pub proof fn law_while_bounded(stmt: StmtM, s: ExecStateM, ev: EventM)
    requires
        stmt is While,
        !(s.phase is Finished),
        exec_step_spec(stmt, s, ev).1 == ActionM::RunBody(Body::Loop),
    ensures
        exec_step_spec(stmt, s, ev).0.iterations == s.iterations + 1,
        exec_step_spec(stmt, s, ev).0.iterations <= MAX_WHILE_ITERATIONS,
{
}

/// An if statement runs one branch at most: once a branch's body has run,
/// the statement ends.
pub proof fn law_one_branch_runs(stmt: StmtM, s: ExecStateM)
    requires
        stmt is If,
        s.phase is Body,
    ensures
        exec_step_spec(stmt, s, EventM::Performed).1 == ActionM::Done,
        exec_step_spec(stmt, s, EventM::Performed).0.phase is Finished,
{
}

/// A statement that has ended stays ended, whatever it is told.
pub proof fn law_finished_stays(stmt: StmtM, s: ExecStateM, ev: EventM)
    requires
        s.phase is Finished,
    ensures
        exec_step_spec(stmt, s, ev) == done_m(s),
{
}

/// What a statement does with its evaluated value: a declaration binds it,
/// a print statement prints it, a prompt prints it and reads a line (and
/// stores the line for the assigning form), a conversion statement converts
/// it, an expression statement ends; each of them starts by evaluating it.
pub proof fn law_value_statement_actions(stmt: StmtM, s: ExecStateM)
    ensures
        s.phase is Begin ==> (stmt is VarDecl || stmt is Print || stmt is InputNoAssign
            || stmt is InputAssign || stmt is ConvertStmt || stmt is ExprStmt || stmt is SelfFieldSet)
            ==> exec_step_spec(stmt, s, EventM::Start).1 == ActionM::Eval(Part::Value),
        s.phase is Value ==> {
            let a = exec_step_spec(stmt, s, EventM::Performed).1;
            &&& stmt is VarDecl ==> a == ActionM::Bind
            &&& stmt is Print ==> a == ActionM::Print
            &&& stmt is InputNoAssign ==> a == ActionM::Prompt(false)
            &&& stmt is InputAssign ==> a == ActionM::Prompt(true)
            &&& stmt is ConvertStmt ==> a == ActionM::Convert
            &&& stmt is ExprStmt ==> a == ActionM::Done
            &&& stmt is SelfFieldSet ==> a == ActionM::CheckConstructing
        },
        s.phase is Output ==> !(stmt is TryCatch) ==> exec_step_spec(stmt, s, EventM::Performed).1
            == ActionM::Done,
{
}

/// Only a print statement prints, only a prompt reads a line, only a
/// conversion statement converts, and only a declaration binds a value.
pub proof fn law_actions_belong_to_statements(stmt: StmtM, s: ExecStateM, ev: EventM)
    ensures
        exec_step_spec(stmt, s, ev).1 == ActionM::Print ==> stmt is Print,
        exec_step_spec(stmt, s, ev).1 == ActionM::Convert ==> stmt is ConvertStmt,
        exec_step_spec(stmt, s, ev).1 == ActionM::Bind ==> stmt is VarDecl,
        exec_step_spec(stmt, s, ev).1 matches ActionM::Prompt(b) ==> (if b { stmt is InputAssign } else {
            stmt is InputNoAssign }),
{
}

/// An if statement tests its branches in order: the tested branch runs
/// when its condition holds ("ဖြစ်လျှင်") or fails ("မဖြစ်လျှင်"); otherwise
/// the next branch is tested, and an unconditional branch runs untested.
pub proof fn law_if_branch_choice(stmt: StmtM, s: ExecStateM, c: bool)
    requires
        stmt is If,
        s.phase is Cond,
        s.branch < stmt->If_branches.len() <= usize::MAX,
    ensures
        ({
            let bs = stmt->If_branches;
            let k = s.branch as int;
            let a = exec_step_spec(stmt, s, EventM::Cond(c)).1;
            &&& (c != bs[k].negate) ==> a == ActionM::RunBody(Body::Branch(s.branch))
            &&& (c == bs[k].negate && k + 1 < bs.len() && bs[k + 1].cond is Some) ==> a
                == ActionM::EvalCond((s.branch + 1) as usize)
            &&& (c == bs[k].negate && k + 1 < bs.len() && bs[k + 1].cond is None) ==> a
                == ActionM::RunBody(Body::Branch((s.branch + 1) as usize))
            &&& (c == bs[k].negate && k + 1 == bs.len()) ==> a == ActionM::Done
        }),
{
}

/// A while loop runs its body while its condition holds (fails, for the
/// "မဖြစ်နေစဉ်" form), and ends as soon as it does not.
pub proof fn law_while_condition(stmt: StmtM, s: ExecStateM, c: bool)
    requires
        stmt is While,
        s.phase is Cond,
        s.iterations < MAX_WHILE_ITERATIONS,
    ensures
        exec_step_spec(stmt, s, EventM::Cond(c)).1 == (if c != stmt->While_negate {
            ActionM::RunBody(Body::Loop)
        } else {
            ActionM::Done
        }),
{
}

} // verus!
