//! `{...}` placeholders in string literals. A literal is read into a list
//! of pieces: text to copy, a variable to show, or a field of the object
//! under construction (`{တန်ဖိုး <field>}`). The interpreter fills them in
//! order; a malformed placeholder ends the list with its error, which counts
//! only once the pieces before it have been filled.
use vstd::prelude::*;

use crate::text::{
    chars_of, decimal, has_prefix, starts_with, string_from_chars, sub_chars, trim_chars,
    trim_spec, usize_to_string,
};

verus! {

/// One piece of a string literal.
pub enum Piece {
    /// Text copied as it stands.
    Text(String),
    /// `{name}`: the value of a variable.
    Var(String),
    /// `{တန်ဖိုး field}`: a field of the object under construction;
    /// `placeholder` is what stood between the braces, trimmed.
    Field { field: String, placeholder: String },
}

/// The model of a piece.
pub enum PieceM {
    Text(Seq<char>),
    Var(Seq<char>),
    Field(Seq<char>, Seq<char>),
}

pub open spec fn piece_m(p: Piece) -> PieceM {
    match p {
        Piece::Text(t) => PieceM::Text(t@),
        Piece::Var(v) => PieceM::Var(v@),
        Piece::Field { field, placeholder } => PieceM::Field(field@, placeholder@),
    }
}

pub open spec fn pieces_m(ps: Seq<Piece>) -> Seq<PieceM> {
    ps.map_values(|p: Piece| piece_m(p))
}

/// What marks a placeholder as a field of the object under construction.
pub open spec fn self_prefix() -> Seq<char> {
    "တန်ဖိုး "@
}

pub open spec fn unclosed_brace_msg(line: nat) -> Seq<char> {
    "E056 လိုင်း "@ + decimal(line) + " တွင် string ထဲက \"{\" ကိုပိတ်ရန် \"}\" မရှိပါ။"@
}

pub open spec fn empty_name_msg(line: nat) -> Seq<char> {
    "E057 လိုင်း "@ + decimal(line)
        + " တွင် string interpolation \"{}\" ထဲမှာ variable အမည် လိုအပ်ပါသည်။"@
}

pub open spec fn empty_field_msg(line: nat, placeholder: Seq<char>) -> Seq<char> {
    "E059 လိုင်း "@ + decimal(line) + " တွင် string interpolation \"{"@ + placeholder
        + "}\" ထဲမှာ field အမည် လိုအပ်ပါသည်။"@
}

/// The index of the first `}` at or after `j`, or the end of `s`.
pub open spec fn brace_close(s: Seq<char>, j: int) -> int
    decreases s.len() - j,
{
    if j < 0 || j >= s.len() || s[j] == '}' {
        j
    } else {
        brace_close(s, j + 1)
    }
}

/// `brace_close` stays within `s` and does not go back.
pub proof fn lemma_brace_close(s: Seq<char>, j: int)
    requires
        0 <= j <= s.len(),
    ensures
        j <= brace_close(s, j) <= s.len(),
    decreases s.len() - j,
{
    if j < s.len() && s[j] != '}' {
        lemma_brace_close(s, j + 1);
    }
}

/// A text piece for `text`, unless it is empty.
pub open spec fn text_piece(text: Seq<char>) -> Seq<PieceM> {
    if text.len() == 0 {
        Seq::empty()
    } else {
        seq![PieceM::Text(text)]
    }
}

/// The pieces of `s` from index `i` on, with `text` read but not yet
/// placed; and the error of the first malformed placeholder, if any.
pub open spec fn template_from(s: Seq<char>, i: int, text: Seq<char>, line: nat) -> (
    Seq<PieceM>,
    Option<Seq<char>>,
)
    decreases s.len() - i,
{
    if i < 0 || i >= s.len() {
        (text_piece(text), None)
    } else if s[i] == '{' {
        let e = brace_close(s, i + 1);
        proof {
            lemma_brace_close(s, i + 1);
        }
        if e >= s.len() {
            (text_piece(text), Some(unclosed_brace_msg(line)))
        } else {
            let name = trim_spec(s.subrange(i + 1, e));
            let rest = template_from(s, e + 1, Seq::empty(), line);
            if name.len() == 0 {
                (text_piece(text), Some(empty_name_msg(line)))
            } else if has_prefix(name, self_prefix()) {
                let field = trim_spec(name.subrange(self_prefix().len() as int, name.len() as int));
                if field.len() == 0 {
                    (text_piece(text), Some(empty_field_msg(line, name)))
                } else {
                    (text_piece(text).push(PieceM::Field(field, name)) + rest.0, rest.1)
                }
            } else {
                (text_piece(text).push(PieceM::Var(name)) + rest.0, rest.1)
            }
        }
    } else {
        template_from(s, i + 1, text.push(s[i]), line)
    }
}

/// The pieces of the string literal `s` on line `line`.
pub open spec fn template_spec(s: Seq<char>, line: nat) -> (Seq<PieceM>, Option<Seq<char>>) {
    template_from(s, 0, Seq::empty(), line)
}

spec fn joined(ps: Seq<PieceM>, r: (Seq<PieceM>, Option<Seq<char>>)) -> (
    Seq<PieceM>,
    Option<Seq<char>>,
) {
    (ps + r.0, r.1)
}

fn push_text(pieces: &mut Vec<Piece>, text: Vec<char>)
    ensures
        pieces_m(final(pieces)@) == pieces_m(old(pieces)@) + text_piece(text@),
{
    if text.len() > 0 {
        let t = string_from_chars(text.as_slice());
        pieces.push(Piece::Text(t));
        proof {
            assert(pieces_m(final(pieces)@) =~= pieces_m(old(pieces)@) + text_piece(text@));
        }
    } else {
        proof {
            assert(pieces_m(old(pieces)@) + text_piece(text@) =~= pieces_m(old(pieces)@));
        }
    }
}

fn with_line(code_and_line: &str, line: usize, tail: &str) -> (r: String)
    ensures
        r@ == code_and_line@ + decimal(line as nat) + tail@,
{
    let mut s = String::from_str(code_and_line);
    s.append(usize_to_string(line).as_str());
    s.append(tail);
    s
}

/// Reads the placeholders of the string literal `s` on line `line`.
pub fn parse_template(s: &str, line: usize) -> (r: (Vec<Piece>, Option<String>))
    ensures
        pieces_m(r.0@) == template_spec(s@, line as nat).0,
        match (r.1, template_spec(s@, line as nat).1) {
            (None, None) => true,
            (Some(m), Some(e)) => m@ == e,
            _ => false,
        },
{
    let cs = chars_of(s);
    let n = cs.len();
    let ghost sv = cs@;
    let mut pieces: Vec<Piece> = Vec::new();
    let mut text: Vec<char> = Vec::new();
    let mut i: usize = 0;
    proof {
        assert(pieces_m(pieces@) =~= Seq::<PieceM>::empty());
        assert(joined(pieces_m(pieces@), template_from(sv, 0, text@, line as nat)) =~= template_from(sv, 0, text@, line as nat));
    }
    while i < n
        invariant
            sv == cs@,
            sv == s@,
            n == sv.len(),
            i <= n,
            template_spec(sv, line as nat) == joined(
                pieces_m(pieces@),
                template_from(sv, i as int, text@, line as nat),
            ),
        decreases n - i,
    {
        if cs[i] == '{' {
            let mut e = i + 1;
            while e < n && cs[e] != '}'
                invariant
                    sv == cs@,
                    n == sv.len(),
                    i < n,
                    i + 1 <= e <= n,
                    brace_close(sv, i + 1) == brace_close(sv, e as int),
                decreases n - e,
            {
                e += 1;
            }
            let ghost t0 = text@;
            let ghost p0 = pieces_m(pieces@);
            if e >= n {
                push_text(&mut pieces, text);
                proof {
                    assert(pieces_m(pieces@) == p0 + text_piece(t0));
                }
                return (pieces, Some(with_line("E056 လိုင်း ", line, " တွင် string ထဲက \"{\" ကိုပိတ်ရန် \"}\" မရှိပါ။")));
            }
            let raw = sub_chars(cs.as_slice(), i + 1, e);
            let name = trim_chars(raw.as_slice());
            if name.len() == 0 {
                push_text(&mut pieces, text);
                return (pieces, Some(with_line("E057 လိုင်း ", line, " တွင် string interpolation \"{}\" ထဲမှာ variable အမည် လိုအပ်ပါသည်။")));
            }
            let prefix = chars_of("တန်ဖိုး ");
            let ghost rest = template_from(sv, e + 1, Seq::empty(), line as nat);
            if starts_with(name.as_slice(), prefix.as_slice()) {
                let after = sub_chars(name.as_slice(), prefix.len(), name.len());
                let field = trim_chars(after.as_slice());
                let placeholder = string_from_chars(name.as_slice());
                if field.len() == 0 {
                    push_text(&mut pieces, text);
                    let mut m = with_line("E059 လိုင်း ", line, " တွင် string interpolation \"{");
                    m.append(placeholder.as_str());
                    m.append("}\" ထဲမှာ field အမည် လိုအပ်ပါသည်။");
                    return (pieces, Some(m));
                }
                push_text(&mut pieces, text);
                let ghost p1 = pieces@;
                pieces.push(Piece::Field { field: string_from_chars(field.as_slice()), placeholder });
                proof {
                    assert(pieces_m(pieces@) =~= pieces_m(p1).push(PieceM::Field(field@, name@)));
                    assert(template_from(sv, i as int, t0, line as nat) == (text_piece(t0).push(PieceM::Field(field@, name@)) + rest.0, rest.1));
                    assert(p0 + (text_piece(t0).push(PieceM::Field(field@, name@)) + rest.0) =~= pieces_m(pieces@) + rest.0);
                }
            } else {
                push_text(&mut pieces, text);
                let ghost p1 = pieces@;
                pieces.push(Piece::Var(string_from_chars(name.as_slice())));
                proof {
                    assert(pieces_m(pieces@) =~= pieces_m(p1).push(PieceM::Var(name@)));
                    assert(template_from(sv, i as int, t0, line as nat) == (text_piece(t0).push(PieceM::Var(name@)) + rest.0, rest.1));
                    assert(p0 + (text_piece(t0).push(PieceM::Var(name@)) + rest.0) =~= pieces_m(pieces@) + rest.0);
                }
            }
            text = Vec::new();
            i = e + 1;
        } else {
            text.push(cs[i]);
            i += 1;
        }
    }
    let ghost p0 = pieces_m(pieces@);
    let ghost t0 = text@;
    push_text(&mut pieces, text);
    proof {
        assert(p0 + text_piece(t0) =~= pieces_m(pieces@));
    }
    (pieces, None)
}

pub open spec fn unknown_variable_msg(line: nat, name: Seq<char>) -> Seq<char> {
    "E058 လိုင်း "@ + decimal(line) + " တွင် string ထဲက \"{"@ + name + "}\" ၌ \""@ + name
        + "\" ဆိုသော variable ကို ရှာမတွေ့ပါ။"@
}

/// The error for a `{name}` placeholder whose variable is not defined.
pub fn unknown_variable_err(line: usize, name: &str) -> (r: String)
    ensures
        r@ == unknown_variable_msg(line as nat, name@),
{
    let mut m = with_line("E058 လိုင်း ", line, " တွင် string ထဲက \"{");
    m.append(name);
    m.append("}\" ၌ \"");
    m.append(name);
    m.append("\" ဆိုသော variable ကို ရှာမတွေ့ပါ။");
    m
}

pub open spec fn field_outside_method_msg(line: nat, placeholder: Seq<char>) -> Seq<char> {
    "E060 လိုင်း "@ + decimal(line) + " တွင် \"{"@ + placeholder
        + "}\" ကို class method အတွင်းမှာသာ သုံးနိုင်ပါသည်။"@
}

/// The error for a field placeholder used where no object is under
/// construction.
pub fn field_outside_method_err(line: usize, placeholder: &str) -> (r: String)
    ensures
        r@ == field_outside_method_msg(line as nat, placeholder@),
{
    let mut m = with_line("E060 လိုင်း ", line, " တွင် \"{");
    m.append(placeholder);
    m.append("}\" ကို class method အတွင်းမှာသာ သုံးနိုင်ပါသည်။");
    m
}

pub open spec fn unknown_field_msg(line: nat, placeholder: Seq<char>, field: Seq<char>) -> Seq<
    char,
> {
    "E059 လိုင်း "@ + decimal(line) + " တွင် string ထဲက \"{"@ + placeholder + "}\" ၌ \""@ + field
        + "\" ဆိုသော field ကို ရှာမတွေ့ပါ။"@
}

/// The error for a field placeholder naming a field the object does not
/// have (yet).
pub fn unknown_field_err(line: usize, placeholder: &str, field: &str) -> (r: String)
    ensures
        r@ == unknown_field_msg(line as nat, placeholder@, field@),
{
    let mut m = with_line("E059 လိုင်း ", line, " တွင် string ထဲက \"{");
    m.append(placeholder);
    m.append("}\" ၌ \"");
    m.append(field);
    m.append("\" ဆိုသော field ကို ရှာမတွေ့ပါ။");
    m
}

proof fn lemma_plain_from(s: Seq<char>, i: int, text: Seq<char>, line: nat)
    requires
        0 <= i <= s.len(),
        forall|k: int| 0 <= k < s.len() ==> s[k] != '{',
    ensures
        template_from(s, i, text, line) == (text_piece(text + s.subrange(i, s.len() as int)), None::<
            Seq<char>,
        >),
    decreases s.len() - i,
{
    if i < s.len() {
        lemma_plain_from(s, i + 1, text.push(s[i]), line);
        assert(text.push(s[i]) + s.subrange(i + 1, s.len() as int) =~= text + s.subrange(
            i,
            s.len() as int,
        ));
    } else {
        assert(text + s.subrange(i, s.len() as int) =~= text);
    }
}

/// A literal without `{` is copied as it stands: a single text piece (none
/// for an empty literal) and no error.
pub proof fn law_plain_literal(s: Seq<char>, line: nat)
    requires
        forall|k: int| 0 <= k < s.len() ==> s[k] != '{',
    ensures
        template_spec(s, line) == (text_piece(s), None::<Seq<char>>),
{
    lemma_plain_from(s, 0, Seq::empty(), line);
    assert(Seq::<char>::empty() + s.subrange(0, s.len() as int) =~= s);
}

} // verus!
