//! The parser's error messages. Each `*_msg` spec function says what the
//! message of the function of the same stem is.
use vstd::prelude::*;

use crate::text::{decimal, string_from_chars, usize_to_string};

verus! {

/// The closing bracket of an opening one (`?` for anything else).
pub open spec fn closing_bracket(open: char) -> char {
    if open == '[' { ']' } else if open == '(' { ')' } else if open == '{' { '}' } else { '?' }
}

fn char_string(c: char) -> (r: String)
    ensures
        r@ == seq![c],
{
    let mut v: Vec<char> = Vec::new();
    v.push(c);
    proof {
        assert(v@ =~= seq![c]);
    }
    string_from_chars(v.as_slice())
}

/// A statement that does not end in `။` (code E002).
pub open spec fn missing_period_msg(line: nat) -> Seq<char> {
    "E002 လိုင်း "@ + decimal(line) + " ၏စာကြောင်းအဆုံးတွင် '။' မရှိပါ။"@
}

pub(crate) fn missing_period_err(line: usize) -> (r: String)
    ensures
        r@ == missing_period_msg(line as nat),
{
    let mut s = String::from_str("E002 လိုင်း ");
    s.append(usize_to_string(line).as_str());
    s.append(" ၏စာကြောင်းအဆုံးတွင် '။' မရှိပါ။");
    s
}

/// A statement (or part of one) that matches no form (code E001).
pub open spec fn generic_syntax_msg(line: nat) -> Seq<char> {
    "E001 လိုင်း "@ + decimal(line) + " သည် ရေးသားပုံစည်းမျဉ်းမမှန်ကန်ပါ။"@
}

pub(crate) fn generic_syntax_err(line: usize) -> (r: String)
    ensures
        r@ == generic_syntax_msg(line as nat),
{
    let mut s = String::from_str("E001 လိုင်း ");
    s.append(usize_to_string(line).as_str());
    s.append(" သည် ရေးသားပုံစည်းမျဉ်းမမှန်ကန်ပါ။");
    s
}

pub open spec fn unclosed_bracket_msg(line: nat, open: char) -> Seq<char> {
    "လိုင်း "@ + decimal(line) + " တွင် '"@ + seq![open] + "' ကိုပိတ်ရန် '"@ + seq![closing_bracket(open)] + "' မရှိပါ။"@
}

pub(crate) fn unclosed_bracket_err(line: usize, open: char) -> (r: String)
    ensures
        r@ == unclosed_bracket_msg(line as nat, open),
{
    let mut s = String::from_str("လိုင်း ");
    s.append(usize_to_string(line).as_str());
    s.append(" တွင် '");
    s.append(char_string(open).as_str());
    s.append("' ကိုပိတ်ရန် '");
    s.append(char_string(closing_bracket_of(open)).as_str());
    s.append("' မရှိပါ။");
    s
}

pub open spec fn mismatched_bracket_msg(line: nat) -> Seq<char> {
    "လိုင်း "@ + decimal(line) + " တွင် ကွင်းများ ({}/[]/()) မှန်ကန်စွာ မတွဲထားပါ။"@
}

pub(crate) fn mismatched_bracket_err(line: usize) -> (r: String)
    ensures
        r@ == mismatched_bracket_msg(line as nat),
{
    let mut s = String::from_str("လိုင်း ");
    s.append(usize_to_string(line).as_str());
    s.append(" တွင် ကွင်းများ ({}/[]/()) မှန်ကန်စွာ မတွဲထားပါ။");
    s
}

pub open spec fn dict_entry_msg(line: nat) -> Seq<char> {
    "လိုင်း "@ + decimal(line) + " တွင် အဘိဓာန် (dict) အတွင်း <key> သည် <value> ဖြစ်၏။ ပုံစံဖြင့် ရေးရပါမည်။"@
}

pub(crate) fn dict_entry_err(line: usize) -> (r: String)
    ensures
        r@ == dict_entry_msg(line as nat),
{
    let mut s = String::from_str("လိုင်း ");
    s.append(usize_to_string(line).as_str());
    s.append(" တွင် အဘိဓာန် (dict) အတွင်း <key> သည် <value> ဖြစ်၏။ ပုံစံဖြင့် ရေးရပါမည်။");
    s
}

pub open spec fn fn_missing_particle_msg(line: nat, fname: Seq<char>) -> Seq<char> {
    "လိုင်း "@ + decimal(line) + "၌ \""@ + (fname + "။"@) + "\" လုပ်ဆောင်ရန်  \""@ + (fname + "။"@) + "\" ၏အရှေ့၌ \"ကို\" ခံရေးရန်လိုအပ်သည်။"@
}

pub(crate) fn fn_missing_particle_err(line: usize, fname: &str) -> (r: String)
    ensures
        r@ == fn_missing_particle_msg(line as nat, fname@),
{
    let mut s = String::from_str("လိုင်း ");
    s.append(usize_to_string(line).as_str());
    s.append("၌ \"");
    s.append(fname);
    s.append("။");
    s.append("\" လုပ်ဆောင်ရန်  \"");
    s.append(fname);
    s.append("။");
    s.append("\" ၏အရှေ့၌ \"ကို\" ခံရေးရန်လိုအပ်သည်။");
    s
}

pub open spec fn fn_missing_value_msg(line: nat, fname: Seq<char>) -> Seq<char> {
    "လိုင်း "@ + decimal(line) + "၌ \""@ + (fname + "။"@) + "\" လုပ်ဆောင်ရန်  value မရှိသဖြင့် \""@ + (fname + "။"@) + "\" ကို မလုပ်ဆောင်နိုင်ပါ။"@
}

pub(crate) fn fn_missing_value_err(line: usize, fname: &str) -> (r: String)
    ensures
        r@ == fn_missing_value_msg(line as nat, fname@),
{
    let mut s = String::from_str("လိုင်း ");
    s.append(usize_to_string(line).as_str());
    s.append("၌ \"");
    s.append(fname);
    s.append("။");
    s.append("\" လုပ်ဆောင်ရန်  value မရှိသဖြင့် \"");
    s.append(fname);
    s.append("။");
    s.append("\" ကို မလုပ်ဆောင်နိုင်ပါ။");
    s
}

pub open spec fn convert_missing_value_msg(line: nat) -> Seq<char> {
    "လိုင်း "@ + decimal(line) + " တွင် ပြောင်းလဲရန် တန်ဖိုး လိုအပ်ပါသည်။ အသုံးပြုပုံ — <value> ကို <type> သို့ ပြောင်းပါ။"@
}

pub(crate) fn convert_missing_value_err(line: usize) -> (r: String)
    ensures
        r@ == convert_missing_value_msg(line as nat),
{
    let mut s = String::from_str("လိုင်း ");
    s.append(usize_to_string(line).as_str());
    s.append(" တွင် ပြောင်းလဲရန် တန်ဖိုး လိုအပ်ပါသည်။ အသုံးပြုပုံ — <value> ကို <type> သို့ ပြောင်းပါ။");
    s
}

pub open spec fn convert_missing_type_msg(line: nat) -> Seq<char> {
    "လိုင်း "@ + decimal(line) + " တွင် ပြောင်းလဲရန် အမျိုးအစား လိုအပ်ပါသည်။ အသုံးပြုပုံ — <value> ကို <type> သို့ ပြောင်းပါ။"@
}

pub(crate) fn convert_missing_type_err(line: usize) -> (r: String)
    ensures
        r@ == convert_missing_type_msg(line as nat),
{
    let mut s = String::from_str("လိုင်း ");
    s.append(usize_to_string(line).as_str());
    s.append(" တွင် ပြောင်းလဲရန် အမျိုးအစား လိုအပ်ပါသည်။ အသုံးပြုပုံ — <value> ကို <type> သို့ ပြောင်းပါ။");
    s
}

pub open spec fn math_missing_value_msg(line: nat, fname: Seq<char>) -> Seq<char> {
    "လိုင်း "@ + decimal(line) + " တွင် \""@ + fname + "\" ကိုလုပ်ဆောင်ရန် value မရှိသဖြင့် \""@ + fname + "\" ကိုမလုပ်ဆောင်နိုင်ပါ။"@
}

pub(crate) fn math_missing_value_err(line: usize, fname: &str) -> (r: String)
    ensures
        r@ == math_missing_value_msg(line as nat, fname@),
{
    let mut s = String::from_str("လိုင်း ");
    s.append(usize_to_string(line).as_str());
    s.append(" တွင် \"");
    s.append(fname);
    s.append("\" ကိုလုပ်ဆောင်ရန် value မရှိသဖြင့် \"");
    s.append(fname);
    s.append("\" ကိုမလုပ်ဆောင်နိုင်ပါ။");
    s
}

pub open spec fn if_missing_condition_msg(line: nat) -> Seq<char> {
    "လိုင်း "@ + decimal(line) + " တွင် \"အကယ်၍\"/\"သို့မဟုတ်\" အတွက် condition (စည်းကမ်းချက်) လိုအပ်ပါသည်။"@
}

pub(crate) fn if_missing_condition_err(line: usize) -> (r: String)
    ensures
        r@ == if_missing_condition_msg(line as nat),
{
    let mut s = String::from_str("လိုင်း ");
    s.append(usize_to_string(line).as_str());
    s.append(" တွင် \"အကယ်၍\"/\"သို့မဟုတ်\" အတွက် condition (စည်းကမ်းချက်) လိုအပ်ပါသည်။");
    s
}

pub open spec fn if_condition_syntax_msg(line: nat) -> Seq<char> {
    "လိုင်း "@ + decimal(line) + " တွင် condition ရေးသားပုံ မှားနေပါသည်။ အသုံးပြုပုံ — (<value> <တန်ဖိုးနှိုင်းယှဉ်ခြင်း> <value>) (နှင့်|သို့) (...) ဖြစ်လျှင်"@
}

pub(crate) fn if_condition_syntax_err(line: usize) -> (r: String)
    ensures
        r@ == if_condition_syntax_msg(line as nat),
{
    let mut s = String::from_str("လိုင်း ");
    s.append(usize_to_string(line).as_str());
    s.append(" တွင် condition ရေးသားပုံ မှားနေပါသည်။ အသုံးပြုပုံ — (<value> <တန်ဖိုးနှိုင်းယှဉ်ခြင်း> <value>) (နှင့်|သို့) (...) ဖြစ်လျှင်");
    s
}

pub open spec fn if_missing_then_msg(line: nat) -> Seq<char> {
    "လိုင်း "@ + decimal(line) + " တွင် condition အပြီးမှာ \"ဖြစ်လျှင်\" သို့မဟုတ် \"မဖြစ်လျှင်\" လိုအပ်ပါသည်။"@
}

pub(crate) fn if_missing_then_err(line: usize) -> (r: String)
    ensures
        r@ == if_missing_then_msg(line as nat),
{
    let mut s = String::from_str("လိုင်း ");
    s.append(usize_to_string(line).as_str());
    s.append(" တွင် condition အပြီးမှာ \"ဖြစ်လျှင်\" သို့မဟုတ် \"မဖြစ်လျှင်\" လိုအပ်ပါသည်။");
    s
}

pub open spec fn if_else_not_last_msg(line: nat) -> Seq<char> {
    "လိုင်း "@ + decimal(line) + " တွင် \"မဟုတ်လျှင်\" (else) ကို \"အကယ်၍\"/\"သို့မဟုတ်\" branch အားလုံးအပြီးမှာသာ တစ်ခုတည်း ထားနိုင်ပါသည်။"@
}

pub(crate) fn if_else_not_last_err(line: usize) -> (r: String)
    ensures
        r@ == if_else_not_last_msg(line as nat),
{
    let mut s = String::from_str("လိုင်း ");
    s.append(usize_to_string(line).as_str());
    s.append(" တွင် \"မဟုတ်လျှင်\" (else) ကို \"အကယ်၍\"/\"သို့မဟုတ်\" branch အားလုံးအပြီးမှာသာ တစ်ခုတည်း ထားနိုင်ပါသည်။");
    s
}

pub open spec fn while_missing_condition_msg(line: nat) -> Seq<char> {
    "လိုင်း "@ + decimal(line) + " တွင် \"အခြေအနေ\" အတွက် condition (စည်းကမ်းချက်) လိုအပ်ပါသည်။"@
}

pub(crate) fn while_missing_condition_err(line: usize) -> (r: String)
    ensures
        r@ == while_missing_condition_msg(line as nat),
{
    let mut s = String::from_str("လိုင်း ");
    s.append(usize_to_string(line).as_str());
    s.append(" တွင် \"အခြေအနေ\" အတွက် condition (စည်းကမ်းချက်) လိုအပ်ပါသည်။");
    s
}

pub open spec fn while_condition_syntax_msg(line: nat) -> Seq<char> {
    "လိုင်း "@ + decimal(line) + " တွင် condition ရေးသားပုံ မှားနေပါသည်။ အသုံးပြုပုံ — အခြေအနေ (<value> <တန်ဖိုးနှိုင်းယှဉ်ခြင်း> <value>) (နှင့်|သို့) (...) ဖြစ်နေစဉ်"@
}

pub(crate) fn while_condition_syntax_err(line: usize) -> (r: String)
    ensures
        r@ == while_condition_syntax_msg(line as nat),
{
    let mut s = String::from_str("လိုင်း ");
    s.append(usize_to_string(line).as_str());
    s.append(" တွင် condition ရေးသားပုံ မှားနေပါသည်။ အသုံးပြုပုံ — အခြေအနေ (<value> <တန်ဖိုးနှိုင်းယှဉ်ခြင်း> <value>) (နှင့်|သို့) (...) ဖြစ်နေစဉ်");
    s
}

pub open spec fn while_missing_then_msg(line: nat) -> Seq<char> {
    "လိုင်း "@ + decimal(line) + " တွင် condition အပြီးမှာ \"ဖြစ်နေစဉ်\" သို့မဟုတ် \"မဖြစ်နေစဉ်\" လိုအပ်ပါသည်။"@
}

pub(crate) fn while_missing_then_err(line: usize) -> (r: String)
    ensures
        r@ == while_missing_then_msg(line as nat),
{
    let mut s = String::from_str("လိုင်း ");
    s.append(usize_to_string(line).as_str());
    s.append(" တွင် condition အပြီးမှာ \"ဖြစ်နေစဉ်\" သို့မဟုတ် \"မဖြစ်နေစဉ်\" လိုအပ်ပါသည်။");
    s
}

pub open spec fn func_missing_name_msg(line: nat) -> Seq<char> {
    "လိုင်း "@ + decimal(line) + " တွင် \"လုပ်ငန်း\" (function) အတွက် အမည် လိုအပ်ပါသည်။ အသုံးပြုပုံ — လုပ်ငန်း <fn name> အတွက် <parameter> ဖြင့်"@
}

pub(crate) fn func_missing_name_err(line: usize) -> (r: String)
    ensures
        r@ == func_missing_name_msg(line as nat),
{
    let mut s = String::from_str("လိုင်း ");
    s.append(usize_to_string(line).as_str());
    s.append(" တွင် \"လုပ်ငန်း\" (function) အတွက် အမည် လိုအပ်ပါသည်။ အသုံးပြုပုံ — လုပ်ငန်း <fn name> အတွက် <parameter> ဖြင့်");
    s
}

pub open spec fn func_bad_param_msg(line: nat) -> Seq<char> {
    "လိုင်း "@ + decimal(line) + " တွင် \"လုပ်ငန်း\" ၏ parameter ရေးသားပုံ မှားနေပါသည်။ အသုံးပြုပုံ — လုပ်ငန်း <fn name> အတွက် <parameter> ဖြင့်"@
}

pub(crate) fn func_bad_param_err(line: usize) -> (r: String)
    ensures
        r@ == func_bad_param_msg(line as nat),
{
    let mut s = String::from_str("လိုင်း ");
    s.append(usize_to_string(line).as_str());
    s.append(" တွင် \"လုပ်ငန်း\" ၏ parameter ရေးသားပုံ မှားနေပါသည်။ အသုံးပြုပုံ — လုပ်ငန်း <fn name> အတွက် <parameter> ဖြင့်");
    s
}

pub open spec fn func_missing_by_msg(line: nat) -> Seq<char> {
    "လိုင်း "@ + decimal(line) + " တွင် \"လုပ်ငန်း\" ၏ header အပြီးမှာ \"ဖြင့်\" (parameter ပါလျှင်) သို့မဟုတ် \"သည်\" (parameter မပါလျှင်) လိုအပ်ပါသည်။"@
}

pub(crate) fn func_missing_by_err(line: usize) -> (r: String)
    ensures
        r@ == func_missing_by_msg(line as nat),
{
    let mut s = String::from_str("လိုင်း ");
    s.append(usize_to_string(line).as_str());
    s.append(" တွင် \"လုပ်ငန်း\" ၏ header အပြီးမှာ \"ဖြင့်\" (parameter ပါလျှင်) သို့မဟုတ် \"သည်\" (parameter မပါလျှင်) လိုအပ်ပါသည်။");
    s
}

pub open spec fn func_call_bad_name_msg(line: nat) -> Seq<char> {
    "လိုင်း "@ + decimal(line) + " တွင် ခေါ်လိုသော function ၏ အမည် မှားနေပါသည်။"@
}

pub(crate) fn func_call_bad_name_err(line: usize) -> (r: String)
    ensures
        r@ == func_call_bad_name_msg(line as nat),
{
    let mut s = String::from_str("လိုင်း ");
    s.append(usize_to_string(line).as_str());
    s.append(" တွင် ခေါ်လိုသော function ၏ အမည် မှားနေပါသည်။");
    s
}

pub open spec fn func_call_missing_particle_msg(line: nat) -> Seq<char> {
    "လိုင်း "@ + decimal(line) + " တွင် function ခေါ်ရန် \"<fn name> ကို လုပ်ပါ။\" သို့မဟုတ် \"<fn name> ကို လုပ်ရန် <argument> ဖြင့်\" ပုံစံဖြင့် ရေးရပါမည်။"@
}

pub(crate) fn func_call_missing_particle_err(line: usize) -> (r: String)
    ensures
        r@ == func_call_missing_particle_msg(line as nat),
{
    let mut s = String::from_str("လိုင်း ");
    s.append(usize_to_string(line).as_str());
    s.append(" တွင် function ခေါ်ရန် \"<fn name> ကို လုပ်ပါ။\" သို့မဟုတ် \"<fn name> ကို လုပ်ရန် <argument> ဖြင့်\" ပုံစံဖြင့် ရေးရပါမည်။");
    s
}

pub open spec fn func_call_missing_by_msg(line: nat) -> Seq<char> {
    "လိုင်း "@ + decimal(line) + " တွင် \"လုပ်ရန်\" ၏ argument အပြီးမှာ \"ဖြင့်\" လိုအပ်ပါသည်။"@
}

pub(crate) fn func_call_missing_by_err(line: usize) -> (r: String)
    ensures
        r@ == func_call_missing_by_msg(line as nat),
{
    let mut s = String::from_str("လိုင်း ");
    s.append(usize_to_string(line).as_str());
    s.append(" တွင် \"လုပ်ရန်\" ၏ argument အပြီးမှာ \"ဖြင့်\" လိုအပ်ပါသည်။");
    s
}

pub open spec fn func_call_missing_arg_msg(line: nat) -> Seq<char> {
    "လိုင်း "@ + decimal(line) + " တွင် \"လုပ်ရန်\" ရန် argument (value) လိုအပ်ပါသည်။"@
}

pub(crate) fn func_call_missing_arg_err(line: usize) -> (r: String)
    ensures
        r@ == func_call_missing_arg_msg(line as nat),
{
    let mut s = String::from_str("လိုင်း ");
    s.append(usize_to_string(line).as_str());
    s.append(" တွင် \"လုပ်ရန်\" ရန် argument (value) လိုအပ်ပါသည်။");
    s
}

pub open spec fn class_missing_name_msg(line: nat) -> Seq<char> {
    "လိုင်း "@ + decimal(line) + " တွင် \"နည်းလမ်း\" (class) အတွက် အမည် လိုအပ်ပါသည်။ အသုံးပြုပုံ — နည်းလမ်း <class name>။"@
}

pub(crate) fn class_missing_name_err(line: usize) -> (r: String)
    ensures
        r@ == class_missing_name_msg(line as nat),
{
    let mut s = String::from_str("လိုင်း ");
    s.append(usize_to_string(line).as_str());
    s.append(" တွင် \"နည်းလမ်း\" (class) အတွက် အမည် လိုအပ်ပါသည်။ အသုံးပြုပုံ — နည်းလမ်း <class name>။");
    s
}

pub open spec fn class_missing_period_msg(line: nat) -> Seq<char> {
    "လိုင်း "@ + decimal(line) + " တွင် \"နည်းလမ်း <class name>\" ၏ အပြီးမှာ \"သည်\" သို့မဟုတ် '။' လိုအပ်ပါသည်။"@
}

pub(crate) fn class_missing_period_err(line: usize) -> (r: String)
    ensures
        r@ == class_missing_period_msg(line as nat),
{
    let mut s = String::from_str("လိုင်း ");
    s.append(usize_to_string(line).as_str());
    s.append(" တွင် \"နည်းလမ်း <class name>\" ၏ အပြီးမှာ \"သည်\" သို့မဟုတ် '။' လိုအပ်ပါသည်။");
    s
}

pub open spec fn class_body_not_method_msg(line: nat) -> Seq<char> {
    "လိုင်း "@ + decimal(line) + " တွင် \"နည်းလမ်း\" (class) အတွင်း \"လုပ်ငန်း\" (method) များသာ ပါဝင်နိုင်ပါသည်။"@
}

pub(crate) fn class_body_not_method_err(line: usize) -> (r: String)
    ensures
        r@ == class_body_not_method_msg(line as nat),
{
    let mut s = String::from_str("လိုင်း ");
    s.append(usize_to_string(line).as_str());
    s.append(" တွင် \"နည်းလမ်း\" (class) အတွင်း \"လုပ်ငန်း\" (method) များသာ ပါဝင်နိုင်ပါသည်။");
    s
}

pub open spec fn class_missing_constructor_msg(line: nat, name: Seq<char>) -> Seq<char> {
    "လိုင်း "@ + decimal(line) + " တွင် \""@ + name + "\" class သည် constructor အနေဖြင့် method (function) အနည်းဆုံး တစ်ခု လိုအပ်ပါသည်။"@
}

pub(crate) fn class_missing_constructor_err(line: usize, name: &str) -> (r: String)
    ensures
        r@ == class_missing_constructor_msg(line as nat, name@),
{
    let mut s = String::from_str("လိုင်း ");
    s.append(usize_to_string(line).as_str());
    s.append(" တွင် \"");
    s.append(name);
    s.append("\" class သည် constructor အနေဖြင့် method (function) အနည်းဆုံး တစ်ခု လိုအပ်ပါသည်။");
    s
}

pub open spec fn new_obj_missing_class_msg(line: nat) -> Seq<char> {
    "လိုင်း "@ + decimal(line) + " တွင် object အသစ်ဖန်တီးမည့် class ကို ရေးပုံ မှားနေပါသည်။ အသုံးပြုပုံ — <class name> (<argument>, ...)"@
}

pub(crate) fn new_obj_missing_class_err(line: usize) -> (r: String)
    ensures
        r@ == new_obj_missing_class_msg(line as nat),
{
    let mut s = String::from_str("လိုင်း ");
    s.append(usize_to_string(line).as_str());
    s.append(" တွင် object အသစ်ဖန်တီးမည့် class ကို ရေးပုံ မှားနေပါသည်။ အသုံးပြုပုံ — <class name> (<argument>, ...)");
    s
}

pub open spec fn self_missing_assign_msg(line: nat, field: Seq<char>) -> Seq<char> {
    "လိုင်း "@ + decimal(line) + " တွင် "@ + "တန်ဖိုး"@ + " "@ + field + " ကို တန်ဖိုးသတ်မှတ်ရာမှာ 'သည်' လိုအပ်ပါသည်။"@
}

pub(crate) fn self_missing_assign_err(line: usize, field: &str) -> (r: String)
    ensures
        r@ == self_missing_assign_msg(line as nat, field@),
{
    let mut s = String::from_str("လိုင်း ");
    s.append(usize_to_string(line).as_str());
    s.append(" တွင် ");
    s.append("တန်ဖိုး");
    s.append(" ");
    s.append(field);
    s.append(" ကို တန်ဖိုးသတ်မှတ်ရာမှာ 'သည်' လိုအပ်ပါသည်။");
    s
}

pub open spec fn self_missing_value_msg(line: nat, field: Seq<char>) -> Seq<char> {
    "လိုင်း "@ + decimal(line) + " တွင် "@ + "တန်ဖိုး"@ + " "@ + field + " သည် တန်ဖိုးသတ်မှတ်ထားခြင်းမရှိပါ။"@
}

pub(crate) fn self_missing_value_err(line: usize, field: &str) -> (r: String)
    ensures
        r@ == self_missing_value_msg(line as nat, field@),
{
    let mut s = String::from_str("လိုင်း ");
    s.append(usize_to_string(line).as_str());
    s.append(" တွင် ");
    s.append("တန်ဖိုး");
    s.append(" ");
    s.append(field);
    s.append(" သည် တန်ဖိုးသတ်မှတ်ထားခြင်းမရှိပါ။");
    s
}

pub open spec fn decl_missing_assign_msg(line: nat) -> Seq<char> {
    "လိုင်း "@ + decimal(line) + " တွင် တန်ဖိုးသတ်မှတ်ရာမှာ 'သည်' လိုအပ်ပါသည်။"@
}

pub(crate) fn decl_missing_assign_err(line: usize) -> (r: String)
    ensures
        r@ == decl_missing_assign_msg(line as nat),
{
    let mut s = String::from_str("လိုင်း ");
    s.append(usize_to_string(line).as_str());
    s.append(" တွင် တန်ဖိုးသတ်မှတ်ရာမှာ 'သည်' လိုအပ်ပါသည်။");
    s
}

pub open spec fn decl_missing_value_msg(line: nat, name: Seq<char>) -> Seq<char> {
    "လိုင်း "@ + decimal(line) + " တွင် "@ + name + " သည် တန်ဖိုးသတ်မှတ်ထားခြင်းမရှိပါ။"@
}

pub(crate) fn decl_missing_value_err(line: usize, name: &str) -> (r: String)
    ensures
        r@ == decl_missing_value_msg(line as nat, name@),
{
    let mut s = String::from_str("လိုင်း ");
    s.append(usize_to_string(line).as_str());
    s.append(" တွင် ");
    s.append(name);
    s.append(" သည် တန်ဖိုးသတ်မှတ်ထားခြင်းမရှိပါ။");
    s
}

fn closing_bracket_of(open: char) -> (c: char)
    ensures
        c == closing_bracket(open),
{
    if open == '[' { ']' } else if open == '(' { ')' } else if open == '{' { '}' } else { '?' }
}

} // verus!
