//! The parts of the interpreter's run-time that need no fractional numbers:
//! the names of operators, the error codes that a `try` block binds, the
//! run-time error messages, the bounds check of a sequence index, and the
//! reading of `{...}` placeholders in string literals.
use vstd::prelude::*;

use crate::text::{
    decimal, i64_to_string, is_whitespace, is_whitespace_spec, signed_decimal, string_from_chars,
    sub_chars, usize_to_string, ws_end, chars_of,
};

verus! {

/// The Burmese name of an arithmetic operator, as error messages use it.
pub open spec fn op_name_spec(op: char) -> Seq<char> {
    if op == '+' {
        "ပေါင်း"@
    } else if op == '-' {
        "နှတ်"@
    } else if op == '*' {
        "မြှောက်"@
    } else if op == '/' {
        "စား"@
    } else if op == '%' {
        "ကြွင်းကိန်းရှာ"@
    } else {
        "?"@
    }
}

/// The Burmese name of an arithmetic operator (`?` for any other character).
pub fn op_name_mm(op: char) -> (r: &'static str)
    ensures
        r@ == op_name_spec(op),
{
    if op == '+' {
        "ပေါင်း"
    } else if op == '-' {
        "နှတ်"
    } else if op == '*' {
        "မြှောက်"
    } else if op == '/' {
        "စား"
    } else if op == '%' {
        "ကြွင်းကိန်းရှာ"
    } else {
        "?"
    }
}

/// The kinds of values a program computes with.
#[derive(Clone, Copy, Debug)]
pub enum ValueKind {
    Str,
    Int,
    Float,
    Bool,
    List,
    Tuple,
    /// A set (of distinct values).
    Group,
    Dict,
    Object,
}

/// The Burmese name of a kind of value, as error messages use it.
pub open spec fn kind_name_spec(k: ValueKind) -> Seq<char> {
    match k {
        ValueKind::Str => "စာသား"@,
        ValueKind::Int => "ကိန်းပြည့်"@,
        ValueKind::Float => "ဒဿမကိန်း"@,
        ValueKind::Bool => "မှန်/မှား"@,
        ValueKind::List => "စာရင်း"@,
        ValueKind::Tuple => "အစု"@,
        ValueKind::Group => "အုပ်စု"@,
        ValueKind::Dict => "အဘိဓာန်"@,
        ValueKind::Object => "class object"@,
    }
}

/// The Burmese name of a kind of value.
pub fn type_name_mm(k: ValueKind) -> (r: &'static str)
    ensures
        r@ == kind_name_spec(k),
{
    match k {
        ValueKind::Str => "စာသား",
        ValueKind::Int => "ကိန်းပြည့်",
        ValueKind::Float => "ဒဿမကိန်း",
        ValueKind::Bool => "မှန်/မှား",
        ValueKind::List => "စာရင်း",
        ValueKind::Tuple => "အစု",
        ValueKind::Group => "အုပ်စု",
        ValueKind::Dict => "အဘိဓာန်",
        ValueKind::Object => "class object",
    }
}

/// The end of the run of characters without white space that starts at `i`.
pub open spec fn word_end_at(s: Seq<char>, i: int) -> int
    decreases s.len() - i,
{
    if i < 0 || i >= s.len() || is_whitespace_spec(s[i]) {
        i
    } else {
        word_end_at(s, i + 1)
    }
}

/// The error code of a run-time error message: its first word (messages
/// read "E### ..."), or `E` when the message holds no word at all.
pub open spec fn error_code_spec(msg: Seq<char>) -> Seq<char> {
    let a = ws_end(msg, 0);
    if a >= msg.len() {
        "E"@
    } else {
        msg.subrange(a, word_end_at(msg, a))
    }
}

/// The error code of a run-time error message: what the catch clause of a
/// "စမ်းရန်" statement is matched against, and what it binds to its variable.
pub fn extract_error_code(msg: &str) -> (r: String)
    ensures
        r@ == error_code_spec(msg@),
{
    let s = chars_of(msg);
    let n = s.len();
    let mut a: usize = 0;
    while a < n && is_whitespace(s[a])
        invariant
            n == s@.len(),
            a <= n,
            ws_end(s@, 0) == ws_end(s@, a as int),
        decreases n - a,
    {
        a += 1;
    }
    if a >= n {
        return String::from_str("E");
    }
    let mut b: usize = a;
    while b < n && !is_whitespace(s[b])
        invariant
            n == s@.len(),
            a <= b <= n,
            word_end_at(s@, a as int) == word_end_at(s@, b as int),
        decreases n - b,
    {
        b += 1;
    }
    let w = sub_chars(s.as_slice(), a, b);
    string_from_chars(w.as_slice())
}

pub open spec fn loop_not_numeric_msg(line: nat) -> Seq<char> {
    "E044 လိုင်း "@ + decimal(line)
        + " တွင် for loop ၏ အစ/အဆုံး/step တန်ဖိုးများသည် ကိန်းဂဏန်း ဖြစ်ရပါမည်။"@
}

/// The error for a counting loop whose start, end or step is not a number.
pub fn loop_not_numeric_err(line: usize) -> (r: String)
    ensures
        r@ == loop_not_numeric_msg(line as nat),
{
    let mut s = String::from_str("E044 လိုင်း ");
    s.append(usize_to_string(line).as_str());
    s.append(" တွင် for loop ၏ အစ/အဆုံး/step တန်ဖိုးများသည် ကိန်းဂဏန်း ဖြစ်ရပါမည်။");
    s
}

pub open spec fn loop_not_iterable_msg(line: nat, kind_name: Seq<char>) -> Seq<char> {
    "E045 လိုင်း "@ + decimal(line) + " တွင် "@ + kind_name
        + " ကို for loop ဖြင့် ထပ်ခါထပ်ခါ လည်ပတ်၍မရပါ။"@
}

/// The error for a `for` loop over a value of a type that holds no items.
pub fn loop_not_iterable_err(line: usize, kind_name: &str) -> (r: String)
    ensures
        r@ == loop_not_iterable_msg(line as nat, kind_name@),
{
    let mut s = String::from_str("E045 လိုင်း ");
    s.append(usize_to_string(line).as_str());
    s.append(" တွင် ");
    s.append(kind_name);
    s.append(" ကို for loop ဖြင့် ထပ်ခါထပ်ခါ လည်ပတ်၍မရပါ။");
    s
}

pub open spec fn comparison_type_msg(
    line: usize,
    t1: Seq<char>,
    t2: Seq<char>,
    op: Seq<char>,
) -> Seq<char> {
    "E042 လိုင်း "@ + decimal(line as nat) + " တွင် "@ + t1 + " နှင့် "@ + t2 + " ကို \""@ + op
        + "\" ဖြင့် နှိုင်းယှဉ်၍မရပါ။"@
}

/// The error for an ordering comparison between values of two types that
/// cannot be ordered against each other.
pub fn cmp_type_err(line: usize, t1: &str, t2: &str, op: &str) -> (r: String)
    ensures
        r@ == comparison_type_msg(line, t1@, t2@, op@),
{
    let mut s = String::from_str("E042 လိုင်း ");
    s.append(usize_to_string(line).as_str());
    s.append(" တွင် ");
    s.append(t1);
    s.append(" နှင့် ");
    s.append(t2);
    s.append(" ကို \"");
    s.append(op);
    s.append("\" ဖြင့် နှိုင်းယှဉ်၍မရပါ။");
    s
}

pub open spec fn index_range_msg(line: nat, idx: int) -> Seq<char> {
    "E049 လိုင်း "@ + decimal(line) + " တွင် index "@ + signed_decimal(idx)
        + " သည် အကွာအဝေးပြင်ပတွင် ရှိနေပါသည်။"@
}

/// Checks an index into a sequence of `len` items: the position it names,
/// or the error for an index that is negative or past the end.
pub fn seq_index(len: usize, idx: i64, line: usize) -> (r: Result<usize, String>)
    ensures
        0 <= idx < len ==> r == Ok::<usize, String>(idx as usize),
        !(0 <= idx < len) ==> (r matches Err(m) && m@ == index_range_msg(line as nat, idx as int)),
{
    if idx >= 0 && (idx as u64) < (len as u64) {
        return Ok(idx as usize);
    }
    let mut s = String::from_str("E049 လိုင်း ");
    s.append(usize_to_string(line).as_str());
    s.append(" တွင် index ");
    s.append(i64_to_string(idx).as_str());
    s.append(" သည် အကွာအဝေးပြင်ပတွင် ရှိနေပါသည်။");
    Err(s)
}

// ---------------------------------------------------------------------
// Run-time errors of the evaluator
// ---------------------------------------------------------------------

pub open spec fn class_holds_non_method_msg(line: nat, class: Seq<char>) -> Seq<char> {
    "E027 လိုင်း "@ + decimal(line) + " တွင် \""@ + class + "\" class အတွင်း method (function) များသာ ပါဝင်နိုင်ပါသည်။"@
}

/// A class whose body holds a statement that is no method.
pub fn class_holds_non_method_err(line: usize, class: &str) -> (r: String)
    ensures
        r@ == class_holds_non_method_msg(line as nat, class@),
{
    let mut m = String::from_str("E027 လိုင်း ");
    m.append(usize_to_string(line).as_str());
    m.append(" တွင် \"");
    m.append(class);
    m.append("\" class အတွင်း method (function) များသာ ပါဝင်နိုင်ပါသည်။");
    m
}

pub open spec fn class_without_method_msg(line: nat, class: Seq<char>) -> Seq<char> {
    "E028 လိုင်း "@ + decimal(line) + " တွင် \""@ + class + "\" class သည် constructor method အနည်းဆုံး တစ်ခု လိုအပ်ပါသည်။"@
}

/// A class with no method to construct its objects.
pub fn class_without_method_err(line: usize, class: &str) -> (r: String)
    ensures
        r@ == class_without_method_msg(line as nat, class@),
{
    let mut m = String::from_str("E028 လိုင်း ");
    m.append(usize_to_string(line).as_str());
    m.append(" တွင် \"");
    m.append(class);
    m.append("\" class သည် constructor method အနည်းဆုံး တစ်ခု လိုအပ်ပါသည်။");
    m
}

pub open spec fn unknown_var_msg(line: nat, name: Seq<char>) -> Seq<char> {
    "E030 လိုင်း "@ + decimal(line) + " တွင် \""@ + name + "\" ဆိုသော variable ကို ရှာမတွေ့ပါ။"@
}

/// A variable that is not defined.
pub fn unknown_var_err(line: usize, name: &str) -> (r: String)
    ensures
        r@ == unknown_var_msg(line as nat, name@),
{
    let mut m = String::from_str("E030 လိုင်း ");
    m.append(usize_to_string(line).as_str());
    m.append(" တွင် \"");
    m.append(name);
    m.append("\" ဆိုသော variable ကို ရှာမတွေ့ပါ။");
    m
}

pub open spec fn unknown_function_msg(line: nat, name: Seq<char>) -> Seq<char> {
    "E031 လိုင်း "@ + decimal(line) + " တွင် \""@ + name + "\" ဆိုသော function ကို ရှာမတွေ့ပါ။"@
}

/// A call of a function that is not defined.
pub fn unknown_function_err(line: usize, name: &str) -> (r: String)
    ensures
        r@ == unknown_function_msg(line as nat, name@),
{
    let mut m = String::from_str("E031 လိုင်း ");
    m.append(usize_to_string(line).as_str());
    m.append(" တွင် \"");
    m.append(name);
    m.append("\" ဆိုသော function ကို ရှာမတွေ့ပါ။");
    m
}

pub open spec fn unknown_class_msg(line: nat, name: Seq<char>) -> Seq<char> {
    "E032 လိုင်း "@ + decimal(line) + " တွင် \""@ + name + "\" ဆိုသော class ကို ရှာမတွေ့ပါ။"@
}

/// An object of a class that is not defined.
pub fn unknown_class_err(line: usize, name: &str) -> (r: String)
    ensures
        r@ == unknown_class_msg(line as nat, name@),
{
    let mut m = String::from_str("E032 လိုင်း ");
    m.append(usize_to_string(line).as_str());
    m.append(" တွင် \"");
    m.append(name);
    m.append("\" ဆိုသော class ကို ရှာမတွေ့ပါ။");
    m
}

pub open spec fn function_arity_msg(line: nat, name: Seq<char>, expected: nat, given: nat) -> Seq<char> {
    "E033 လိုင်း "@ + decimal(line) + " တွင် \""@ + name + "\" function သည် argument "@ + decimal(expected) + " ခု လိုအပ်ပါသည်၊ "@ + decimal(given) + " ခု ပေးထားပါသည်။"@
}

/// A call with another number of arguments than the function has parameters.
pub fn function_arity_err(line: usize, name: &str, expected: usize, given: usize) -> (r: String)
    ensures
        r@ == function_arity_msg(line as nat, name@, expected as nat, given as nat),
{
    let mut m = String::from_str("E033 လိုင်း ");
    m.append(usize_to_string(line).as_str());
    m.append(" တွင် \"");
    m.append(name);
    m.append("\" function သည် argument ");
    m.append(usize_to_string(expected).as_str());
    m.append(" ခု လိုအပ်ပါသည်၊ ");
    m.append(usize_to_string(given).as_str());
    m.append(" ခု ပေးထားပါသည်။");
    m
}

pub open spec fn constructor_arity_msg(line: nat, class: Seq<char>, expected: nat, given: nat) -> Seq<char> {
    "E034 လိုင်း "@ + decimal(line) + " တွင် \""@ + class + "\" class ၏ constructor သည် argument "@ + decimal(expected) + " ခု လိုအပ်ပါသည်၊ "@ + decimal(given) + " ခု ပေးထားပါသည်။"@
}

/// A new object with another number of arguments than its constructor has parameters.
pub fn constructor_arity_err(line: usize, class: &str, expected: usize, given: usize) -> (r: String)
    ensures
        r@ == constructor_arity_msg(line as nat, class@, expected as nat, given as nat),
{
    let mut m = String::from_str("E034 လိုင်း ");
    m.append(usize_to_string(line).as_str());
    m.append(" တွင် \"");
    m.append(class);
    m.append("\" class ၏ constructor သည် argument ");
    m.append(usize_to_string(expected).as_str());
    m.append(" ခု လိုအပ်ပါသည်၊ ");
    m.append(usize_to_string(given).as_str());
    m.append(" ခု ပေးထားပါသည်။");
    m
}

pub open spec fn field_outside_constructor_msg(line: nat) -> Seq<char> {
    "E035 လိုင်း "@ + decimal(line) + " တွင် \"တန်ဖိုး\" ကို class constructor အတွင်းမှာသာ သုံးနိုင်ပါသည်။"@
}

/// A field assignment where no object is under construction.
pub fn field_outside_constructor_err(line: usize) -> (r: String)
    ensures
        r@ == field_outside_constructor_msg(line as nat),
{
    let mut m = String::from_str("E035 လိုင်း ");
    m.append(usize_to_string(line).as_str());
    m.append(" တွင် \"တန်ဖိုး\" ကို class constructor အတွင်းမှာသာ သုံးနိုင်ပါသည်။");
    m
}

pub open spec fn int_division_by_zero_msg(line: nat) -> Seq<char> {
    "E036 လိုင်း "@ + decimal(line) + " တွင် သုညဖြင့် စား၍မရပါ။"@
}

/// An integer divided by zero.
pub fn int_division_by_zero_err(line: usize) -> (r: String)
    ensures
        r@ == int_division_by_zero_msg(line as nat),
{
    let mut m = String::from_str("E036 လိုင်း ");
    m.append(usize_to_string(line).as_str());
    m.append(" တွင် သုညဖြင့် စား၍မရပါ။");
    m
}

pub open spec fn division_by_zero_msg(line: nat) -> Seq<char> {
    "E037 လိုင်း "@ + decimal(line) + " တွင် သုညဖြင့် စား၍မရပါ။"@
}

/// A number with a fraction divided by zero.
pub fn division_by_zero_err(line: usize) -> (r: String)
    ensures
        r@ == division_by_zero_msg(line as nat),
{
    let mut m = String::from_str("E037 လိုင်း ");
    m.append(usize_to_string(line).as_str());
    m.append(" တွင် သုညဖြင့် စား၍မရပါ။");
    m
}

pub open spec fn int_remainder_by_zero_msg(line: nat) -> Seq<char> {
    "E038 လိုင်း "@ + decimal(line) + " တွင် သုညဖြင့် ကြွင်းကိန်းရှာ၍မရပါ။"@
}

/// The remainder of an integer by zero.
pub fn int_remainder_by_zero_err(line: usize) -> (r: String)
    ensures
        r@ == int_remainder_by_zero_msg(line as nat),
{
    let mut m = String::from_str("E038 လိုင်း ");
    m.append(usize_to_string(line).as_str());
    m.append(" တွင် သုညဖြင့် ကြွင်းကိန်းရှာ၍မရပါ။");
    m
}

pub open spec fn remainder_by_zero_msg(line: nat) -> Seq<char> {
    "E039 လိုင်း "@ + decimal(line) + " တွင် သုညဖြင့် ကြွင်းကိန်းရှာ၍မရပါ။"@
}

/// The remainder of a number with a fraction by zero.
pub fn remainder_by_zero_err(line: usize) -> (r: String)
    ensures
        r@ == remainder_by_zero_msg(line as nat),
{
    let mut m = String::from_str("E039 လိုင်း ");
    m.append(usize_to_string(line).as_str());
    m.append(" တွင် သုညဖြင့် ကြွင်းကိန်းရှာ၍မရပါ။");
    m
}

pub open spec fn operand_types_msg(line: nat, t1: Seq<char>, t2: Seq<char>, op_name: Seq<char>) -> Seq<char> {
    "E040 လိုင်း "@ + decimal(line) + " တွင် "@ + t1 + " နှင့် "@ + t2 + " ကို "@ + op_name + "၍မရပါ။"@
}

/// An operator applied to values of kinds it does not take.
pub fn operand_types_err(line: usize, t1: &str, t2: &str, op_name: &str) -> (r: String)
    ensures
        r@ == operand_types_msg(line as nat, t1@, t2@, op_name@),
{
    let mut m = String::from_str("E040 လိုင်း ");
    m.append(usize_to_string(line).as_str());
    m.append(" တွင် ");
    m.append(t1);
    m.append(" နှင့် ");
    m.append(t2);
    m.append(" ကို ");
    m.append(op_name);
    m.append("၍မရပါ။");
    m
}

pub open spec fn operand_types_in_msg(line: nat, var: Seq<char>, t1: Seq<char>, t2: Seq<char>, op_name: Seq<char>) -> Seq<char> {
    "E040 လိုင်း "@ + decimal(line) + " ၏ \""@ + var + "\"၌ "@ + t1 + " နှင့် "@ + t2 + " ကို "@ + op_name + "၍မရပါ။"@
}

/// An operator applied to values of kinds it does not take, in the value of a variable.
pub fn operand_types_in_err(line: usize, var: &str, t1: &str, t2: &str, op_name: &str) -> (r: String)
    ensures
        r@ == operand_types_in_msg(line as nat, var@, t1@, t2@, op_name@),
{
    let mut m = String::from_str("E040 လိုင်း ");
    m.append(usize_to_string(line).as_str());
    m.append(" ၏ \"");
    m.append(var);
    m.append("\"၌ ");
    m.append(t1);
    m.append(" နှင့် ");
    m.append(t2);
    m.append(" ကို ");
    m.append(op_name);
    m.append("၍မရပါ။");
    m
}

pub open spec fn negate_type_msg(line: nat, kind: Seq<char>) -> Seq<char> {
    "E041 လိုင်း "@ + decimal(line) + " တွင် "@ + kind + " ကို အနုတ် (-) လုပ်၍မရပါ။"@
}

/// A minus sign before a value that is no number.
pub fn negate_type_err(line: usize, kind: &str) -> (r: String)
    ensures
        r@ == negate_type_msg(line as nat, kind@),
{
    let mut m = String::from_str("E041 လိုင်း ");
    m.append(usize_to_string(line).as_str());
    m.append(" တွင် ");
    m.append(kind);
    m.append(" ကို အနုတ် (-) လုပ်၍မရပါ။");
    m
}

pub open spec fn condition_type_msg(line: nat, kind: Seq<char>) -> Seq<char> {
    "E043 လိုင်း "@ + decimal(line) + " တွင် "@ + kind + " တန်ဖိုးကို condition အဖြစ် (မှန်/မှား စစ်ရန်) သုံး၍မရပါ။"@
}

/// A condition whose value is no boolean.
pub fn condition_type_err(line: usize, kind: &str) -> (r: String)
    ensures
        r@ == condition_type_msg(line as nat, kind@),
{
    let mut m = String::from_str("E043 လိုင်း ");
    m.append(usize_to_string(line).as_str());
    m.append(" တွင် ");
    m.append(kind);
    m.append(" တန်ဖိုးကို condition အဖြစ် (မှန်/မှား စစ်ရန်) သုံး၍မရပါ။");
    m
}

pub open spec fn endless_while_msg(line: nat) -> Seq<char> {
    "E046 လိုင်း "@ + decimal(line) + " ၏ while loop သည် ကြိမ်ရေ အလွန်များနေပါသည် (loop ထဲက variable ကို update မလုပ်ထားလို့ အဆုံးမရှိ ပတ်နေခြင်း ဖြစ်နိုင်ပါသည်)။"@
}

/// A while loop that runs too many times.
pub fn endless_while_err(line: usize) -> (r: String)
    ensures
        r@ == endless_while_msg(line as nat),
{
    let mut m = String::from_str("E046 လိုင်း ");
    m.append(usize_to_string(line).as_str());
    m.append(" ၏ while loop သည် ကြိမ်ရေ အလွန်များနေပါသည် (loop ထဲက variable ကို update မလုပ်ထားလို့ အဆုံးမရှိ ပတ်နေခြင်း ဖြစ်နိုင်ပါသည်)။");
    m
}

pub open spec fn bad_number_msg(line: nat) -> Seq<char> {
    "E047 လိုင်း "@ + decimal(line) + " တွင် ကိန်းဂဏန်း တန်ဖိုးမှားနေသည်။"@
}

/// A numeral that does not fit a number.
pub fn bad_number_err(line: usize) -> (r: String)
    ensures
        r@ == bad_number_msg(line as nat),
{
    let mut m = String::from_str("E047 လိုင်း ");
    m.append(usize_to_string(line).as_str());
    m.append(" တွင် ကိန်းဂဏန်း တန်ဖိုးမှားနေသည်။");
    m
}

pub open spec fn index_not_int_msg(line: nat) -> Seq<char> {
    "E048 လိုင်း "@ + decimal(line) + " တွင် index သည် ကိန်းပြည့် ဖြစ်ရပါမည်။"@
}

/// An index that is no whole number.
pub fn index_not_int_err(line: usize) -> (r: String)
    ensures
        r@ == index_not_int_msg(line as nat),
{
    let mut m = String::from_str("E048 လိုင်း ");
    m.append(usize_to_string(line).as_str());
    m.append(" တွင် index သည် ကိန်းပြည့် ဖြစ်ရပါမည်။");
    m
}

pub open spec fn index_count_msg(line: nat) -> Seq<char> {
    "E050 လိုင်း "@ + decimal(line) + " တွင် index အရေအတွက်မှားနေပါသည်။"@
}

/// A sequence indexed by neither one nor two indexes.
pub fn index_count_err(line: usize) -> (r: String)
    ensures
        r@ == index_count_msg(line as nat),
{
    let mut m = String::from_str("E050 လိုင်း ");
    m.append(usize_to_string(line).as_str());
    m.append(" တွင် index အရေအတွက်မှားနေပါသည်။");
    m
}

pub open spec fn not_indexable_msg(line: nat, kind: Seq<char>) -> Seq<char> {
    "E051 လိုင်း "@ + decimal(line) + " တွင် "@ + kind + " ကို index ယူ၍မရပါ။"@
}

/// An index into a value that holds no items.
pub fn not_indexable_err(line: usize, kind: &str) -> (r: String)
    ensures
        r@ == not_indexable_msg(line as nat, kind@),
{
    let mut m = String::from_str("E051 လိုင်း ");
    m.append(usize_to_string(line).as_str());
    m.append(" တွင် ");
    m.append(kind);
    m.append(" ကို index ယူ၍မရပါ။");
    m
}

pub open spec fn dict_key_count_msg(line: nat) -> Seq<char> {
    "E052 လိုင်း "@ + decimal(line) + " တွင် အဘိဓာန် (dict) ကို key တစ်ခုဖြင့်သာ index ယူရပါမည်။"@
}

/// A dict indexed by more or fewer than one key.
pub fn dict_key_count_err(line: usize) -> (r: String)
    ensures
        r@ == dict_key_count_msg(line as nat),
{
    let mut m = String::from_str("E052 လိုင်း ");
    m.append(usize_to_string(line).as_str());
    m.append(" တွင် အဘိဓာန် (dict) ကို key တစ်ခုဖြင့်သာ index ယူရပါမည်။");
    m
}

pub open spec fn missing_key_msg(line: nat, key: Seq<char>) -> Seq<char> {
    "E053 လိုင်း "@ + decimal(line) + " တွင် key "@ + key + " ကို ရှာမတွေ့ပါ။"@
}

/// A dict key that is not there, as the key is written.
pub fn missing_key_err(line: usize, key: &str) -> (r: String)
    ensures
        r@ == missing_key_msg(line as nat, key@),
{
    let mut m = String::from_str("E053 လိုင်း ");
    m.append(usize_to_string(line).as_str());
    m.append(" တွင် key ");
    m.append(key);
    m.append(" ကို ရှာမတွေ့ပါ။");
    m
}

pub open spec fn row_column_index_msg(line: nat, kind: Seq<char>) -> Seq<char> {
    "E054 လိုင်း "@ + decimal(line) + " တွင် "@ + kind + " ကို [row, column] ဖြင့် index ယူ၍မရပါ။"@
}

/// A row and column index into a row that is no list or tuple.
pub fn row_column_index_err(line: usize, kind: &str) -> (r: String)
    ensures
        r@ == row_column_index_msg(line as nat, kind@),
{
    let mut m = String::from_str("E054 လိုင်း ");
    m.append(usize_to_string(line).as_str());
    m.append(" တွင် ");
    m.append(kind);
    m.append(" ကို [row, column] ဖြင့် index ယူ၍မရပါ။");
    m
}

pub open spec fn conversion_msg(line: nat, value: Seq<char>, target: Seq<char>) -> Seq<char> {
    "E055 လိုင်း "@ + decimal(line) + " တွင် "@ + value + " ကို "@ + target + "သို့ ပြောင်းလဲ၍ မရပါ။"@
}

/// A value that cannot be converted to the type asked for.
pub fn conversion_err(line: usize, value: &str, target: &str) -> (r: String)
    ensures
        r@ == conversion_msg(line as nat, value@, target@),
{
    let mut m = String::from_str("E055 လိုင်း ");
    m.append(usize_to_string(line).as_str());
    m.append(" တွင် ");
    m.append(value);
    m.append(" ကို ");
    m.append(target);
    m.append("သို့ ပြောင်းလဲ၍ မရပါ။");
    m
}

proof fn lemma_word_end_at_code(code: Seq<char>, rest: Seq<char>, i: int)
    requires
        0 <= i <= code.len(),
        forall|k: int| 0 <= k < code.len() ==> !is_whitespace_spec(#[trigger] code[k]),
        rest.len() == 0 || is_whitespace_spec(rest[0]),
    ensures
        word_end_at(code + rest, i) == code.len(),
    decreases code.len() - i,
{
    let m = code + rest;
    if i < code.len() {
        assert(m[i] == code[i]);
        lemma_word_end_at_code(code, rest, i + 1);
    } else if rest.len() > 0 {
        assert(m[i] == rest[0]);
    }
}

/// Run-time errors read "E### <message>": the code of such a message is
/// its leading word.
pub proof fn law_error_code_of_message(code: Seq<char>, rest: Seq<char>)
    requires
        code.len() > 0,
        forall|k: int| 0 <= k < code.len() ==> !is_whitespace_spec(#[trigger] code[k]),
        rest.len() == 0 || is_whitespace_spec(rest[0]),
    ensures
        error_code_spec(code + rest) == code,
{
    let m = code + rest;
    assert(m[0] == code[0]);
    lemma_word_end_at_code(code, rest, 0);
    assert(m.subrange(0, code.len() as int) =~= code);
}

} // verus!
