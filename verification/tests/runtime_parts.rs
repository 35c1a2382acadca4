use akkhara::runtime::{
    conversion_err, endless_while_err, function_arity_err, missing_key_err, operand_types_err,
    operand_types_in_err, unknown_var_err,
    cmp_type_err, extract_error_code, loop_not_iterable_err, loop_not_numeric_err, op_name_mm,
    seq_index, type_name_mm, ValueKind,
};
use akkhara::template::{
    field_outside_method_err, parse_template, unknown_field_err, unknown_variable_err, Piece,
};
use akkhara::text::{i64_to_string, usize_to_string};

#[test]
fn operator_names() {
    assert_eq!(op_name_mm('+'), "ပေါင်း");
    assert_eq!(op_name_mm('-'), "နှတ်");
    assert_eq!(op_name_mm('*'), "မြှောက်");
    assert_eq!(op_name_mm('/'), "စား");
    assert_eq!(op_name_mm('%'), "ကြွင်းကိန်းရှာ");
    assert_eq!(op_name_mm('^'), "?");
}

#[test]
fn value_kind_names() {
    assert_eq!(type_name_mm(ValueKind::Str), "စာသား");
    assert_eq!(type_name_mm(ValueKind::Int), "ကိန်းပြည့်");
    assert_eq!(type_name_mm(ValueKind::Float), "ဒဿမကိန်း");
    assert_eq!(type_name_mm(ValueKind::Bool), "မှန်/မှား");
    assert_eq!(type_name_mm(ValueKind::List), "စာရင်း");
    assert_eq!(type_name_mm(ValueKind::Tuple), "အစု");
    assert_eq!(type_name_mm(ValueKind::Group), "အုပ်စု");
    assert_eq!(type_name_mm(ValueKind::Dict), "အဘိဓာန်");
    assert_eq!(type_name_mm(ValueKind::Object), "class object");
}

#[test]
fn error_codes() {
    assert_eq!(extract_error_code("E030 လိုင်း 3 တွင် ..."), "E030");
    assert_eq!(extract_error_code("  E031\tx"), "E031");
    assert_eq!(extract_error_code("E099"), "E099");
    assert_eq!(extract_error_code(""), "E");
    assert_eq!(extract_error_code("   "), "E");
}

#[test]
fn runtime_messages() {
    assert_eq!(
        loop_not_numeric_err(4),
        "E044 လိုင်း 4 တွင် for loop ၏ အစ/အဆုံး/step တန်ဖိုးများသည် ကိန်းဂဏန်း ဖြစ်ရပါမည်။"
    );
    assert_eq!(
        loop_not_iterable_err(12, "ကိန်းပြည့်"),
        "E045 လိုင်း 12 တွင် ကိန်းပြည့် ကို for loop ဖြင့် ထပ်ခါထပ်ခါ လည်ပတ်၍မရပါ။"
    );
    assert_eq!(
        cmp_type_err(7, "စာသား", "ကိန်းပြည့်", "<"),
        "E042 လိုင်း 7 တွင် စာသား နှင့် ကိန်းပြည့် ကို \"<\" ဖြင့် နှိုင်းယှဉ်၍မရပါ။"
    );
}

#[test]
fn sequence_index_bounds() {
    assert_eq!(seq_index(3, 0, 1), Ok(0));
    assert_eq!(seq_index(3, 2, 1), Ok(2));
    assert_eq!(
        seq_index(3, 3, 5).unwrap_err(),
        "E049 လိုင်း 5 တွင် index 3 သည် အကွာအဝေးပြင်ပတွင် ရှိနေပါသည်။"
    );
    assert_eq!(
        seq_index(3, -1, 5).unwrap_err(),
        "E049 လိုင်း 5 တွင် index -1 သည် အကွာအဝေးပြင်ပတွင် ရှိနေပါသည်။"
    );
    assert!(seq_index(0, 0, 1).is_err());
}

#[test]
fn decimal_rendering() {
    assert_eq!(usize_to_string(0), "0");
    assert_eq!(usize_to_string(1234567), "1234567");
    assert_eq!(i64_to_string(-42), "-42");
    assert_eq!(i64_to_string(i64::MIN), i64::MIN.to_string());
    assert_eq!(i64_to_string(i64::MAX), i64::MAX.to_string());
}

fn describe(p: &Piece) -> String {
    match p {
        Piece::Text(t) => format!("T[{}]", t),
        Piece::Var(v) => format!("V[{}]", v),
        Piece::Field { field, placeholder } => format!("F[{}|{}]", field, placeholder),
    }
}

#[test]
fn template_plain_literal() {
    let (ps, err) = parse_template("Hello, World!", 1);
    assert!(err.is_none());
    assert_eq!(ps.iter().map(describe).collect::<Vec<_>>(), vec!["T[Hello, World!]"]);
    let (ps, err) = parse_template("", 1);
    assert!(ps.is_empty() && err.is_none());
}

#[test]
fn template_placeholders() {
    let (ps, err) = parse_template("Hello!, { Name }} and {တန်ဖိုး  အမည် }", 1);
    assert!(err.is_none());
    assert_eq!(
        ps.iter().map(describe).collect::<Vec<_>>(),
        vec!["T[Hello!, ]", "V[Name]", "T[} and ]", "F[အမည်|တန်ဖိုး  အမည်]"]
    );
}

#[test]
fn template_errors_come_after_earlier_pieces() {
    let (ps, err) = parse_template("a{x}b{", 9);
    assert_eq!(ps.iter().map(describe).collect::<Vec<_>>(), vec!["T[a]", "V[x]", "T[b]"]);
    assert_eq!(
        err.unwrap(),
        "E056 လိုင်း 9 တွင် string ထဲက \"{\" ကိုပိတ်ရန် \"}\" မရှိပါ။"
    );
    let (ps, err) = parse_template("x{  }y", 2);
    assert_eq!(ps.iter().map(describe).collect::<Vec<_>>(), vec!["T[x]"]);
    assert_eq!(
        err.unwrap(),
        "E057 လိုင်း 2 တွင် string interpolation \"{}\" ထဲမှာ variable အမည် လိုအပ်ပါသည်။"
    );
}

#[test]
fn template_lookup_messages() {
    assert_eq!(
        unknown_variable_err(3, "Name"),
        "E058 လိုင်း 3 တွင် string ထဲက \"{Name}\" ၌ \"Name\" ဆိုသော variable ကို ရှာမတွေ့ပါ။"
    );
    assert_eq!(
        field_outside_method_err(4, "တန်ဖိုး a"),
        "E060 လိုင်း 4 တွင် \"{တန်ဖိုး a}\" ကို class method အတွင်းမှာသာ သုံးနိုင်ပါသည်။"
    );
    assert_eq!(
        unknown_field_err(5, "တန်ဖိုး a", "a"),
        "E059 လိုင်း 5 တွင် string ထဲက \"{တန်ဖိုး a}\" ၌ \"a\" ဆိုသော field ကို ရှာမတွေ့ပါ။"
    );
}

#[test]
fn evaluator_messages() {
    assert_eq!(
        unknown_var_err(3, "x"),
        "E030 လိုင်း 3 တွင် \"x\" ဆိုသော variable ကို ရှာမတွေ့ပါ။"
    );
    assert_eq!(
        function_arity_err(2, "f", 1, 0),
        "E033 လိုင်း 2 တွင် \"f\" function သည် argument 1 ခု လိုအပ်ပါသည်၊ 0 ခု ပေးထားပါသည်။"
    );
    assert_eq!(
        operand_types_err(4, "စာသား", "ကိန်းပြည့်", "ပေါင်း"),
        "E040 လိုင်း 4 တွင် စာသား နှင့် ကိန်းပြည့် ကို ပေါင်း၍မရပါ။"
    );
    assert_eq!(
        operand_types_in_err(4, "y", "စာသား", "ကိန်းပြည့်", "နှတ်"),
        "E040 လိုင်း 4 ၏ \"y\"၌ စာသား နှင့် ကိန်းပြည့် ကို နှတ်၍မရပါ။"
    );
    assert_eq!(missing_key_err(1, "\"k\""), "E053 လိုင်း 1 တွင် key \"k\" ကို ရှာမတွေ့ပါ။");
    assert_eq!(
        conversion_err(6, "\"a\"", "ကိန်းပြည့်"),
        "E055 လိုင်း 6 တွင် \"a\" ကို ကိန်းပြည့်သို့ ပြောင်းလဲ၍ မရပါ။"
    );
    assert!(endless_while_err(9).starts_with("E046 လိုင်း 9 ၏ while loop"));
}
