//! Keywords and the bracket- and block-aware scans over token sequences
//! that the parser is built from.
use vstd::prelude::*;

use crate::lexer::{Tok, Token};
use crate::parser::messages::{
    mismatched_bracket_err, mismatched_bracket_msg, unclosed_bracket_err, unclosed_bracket_msg,
};
use crate::text::str_eq;

verus! {

pub const KW_ASSIGN: &'static str = "သည်";
pub const KW_ASSIGN_COLLECTION: &'static str = "မှာ";
pub const KW_IS: &'static str = "ဖြစ်၏";
pub const KW_PARTICLE: &'static str = "ကို";
pub const KW_PRINT: &'static str = "ဖော်ပြပါ";
pub const KW_INPUT: &'static str = "မေးပါ";
pub const KW_FOR: &'static str = "အတွက်";
pub const KW_TO: &'static str = "သို့";
pub const KW_CONVERT: &'static str = "ပြောင်းပါ";
pub const KW_LOOP_FROM: &'static str = "ထဲမှ";
pub const KW_LOOP_EACH: &'static str = "တစ်ခုစီ";
pub const KW_LOOP_END: &'static str = "ပြီး";
pub const KW_IF: &'static str = "အကယ်၍";
pub const KW_ELIF: &'static str = "သို့မဟုတ်";
pub const KW_ELSE: &'static str = "မဟုတ်လျှင်";
pub const KW_THEN_POS: &'static str = "ဖြစ်လျှင်";
pub const KW_THEN_NEG: &'static str = "မဖြစ်လျှင်";
pub const KW_AND: &'static str = "နှင့်";
pub const KW_OR: &'static str = "သို့";
pub const KW_WHILE: &'static str = "အခြေအနေ";
pub const KW_WHILE_POS: &'static str = "ဖြစ်နေစဉ်";
pub const KW_WHILE_NEG: &'static str = "မဖြစ်နေစဉ်";
pub const KW_FUNC_DEF: &'static str = "လုပ်ငန်း";
pub const KW_BY: &'static str = "ဖြင့်";
pub const KW_CALL: &'static str = "လုပ်ပါ";
pub const KW_CALL_WITH: &'static str = "လုပ်ရန်";
pub const KW_CLASS_DEF: &'static str = "နည်းလမ်း";
pub const KW_SELF: &'static str = "တန်ဖိုး";
pub const KW_NEW: &'static str = "အသစ်";
pub const KW_TRY: &'static str = "စမ်းရန်";
pub const KW_CATCH: &'static str = "ဖမ်းပါ";
pub const KW_CATCH_AS: &'static str = "အဖြစ်";
pub const KW_FINALLY: &'static str = "နောက်ဆုံး";

// ---------------------------------------------------------------------
// Token predicates
// ---------------------------------------------------------------------

/// The token is the identifier `kw`.
pub open spec fn ident_is(t: Tok, kw: Seq<char>) -> bool {
    t matches Tok::Ident(s) && s@ == kw
}

pub open spec fn is_open_spec(t: Tok) -> bool {
    t is LBracket || t is LParen || t is LBrace
}

pub open spec fn is_close_spec(t: Tok) -> bool {
    t is RBracket || t is RParen || t is RBrace
}

/// A keyword that opens a block closed by "ပြီး": a for-loop, if/else,
/// while, function, class or "စမ်းရန်" (try).
pub open spec fn is_block_open_spec(t: Tok) -> bool {
    ident_is(t, KW_LOOP_EACH@) || ident_is(t, KW_IF@) || ident_is(t, KW_WHILE@) || ident_is(
        t,
        KW_FUNC_DEF@,
    ) || ident_is(t, KW_CLASS_DEF@) || ident_is(t, KW_TRY@)
}

pub(crate) fn ident_eq(tok: &Tok, s: &str) -> (r: bool)
    ensures
        r == ident_is(*tok, s@),
{
    match tok {
        Tok::Ident(v) => str_eq(v.as_str(), s),
        _ => false,
    }
}

pub(crate) fn is_open(tok: &Tok) -> (r: bool)
    ensures
        r == is_open_spec(*tok),
{
    match tok {
        Tok::LBracket | Tok::LParen | Tok::LBrace => true,
        _ => false,
    }
}

pub(crate) fn is_close(tok: &Tok) -> (r: bool)
    ensures
        r == is_close_spec(*tok),
{
    match tok {
        Tok::RBracket | Tok::RParen | Tok::RBrace => true,
        _ => false,
    }
}

fn is_block_open(tok: &Tok) -> (r: bool)
    ensures
        r == is_block_open_spec(*tok),
{
    ident_eq(tok, KW_LOOP_EACH) || ident_eq(tok, KW_IF) || ident_eq(tok, KW_WHILE) || ident_eq(
        tok,
        KW_FUNC_DEF,
    ) || ident_eq(tok, KW_CLASS_DEF) || ident_eq(tok, KW_TRY)
}

// ---------------------------------------------------------------------
// Matching brackets
// ---------------------------------------------------------------------

/// The character of an opening bracket token.
pub open spec fn open_char_of(t: Tok) -> char {
    match t {
        Tok::LBracket => '[',
        Tok::LParen => '(',
        Tok::LBrace => '{',
        _ => '?',
    }
}

/// The opening bracket that a closing bracket token matches.
pub open spec fn partner_of(t: Tok) -> char {
    match t {
        Tok::RBracket => '[',
        Tok::RParen => '(',
        Tok::RBrace => '{',
        _ => '?',
    }
}

/// Scans from `i` with the brackets in `stack` still open; `open` is the
/// outermost one and `line` its line for the message when it never closes.
pub open spec fn close_from(t: Seq<Token>, i: int, stack: Seq<char>, open: char, line: nat) -> Result<
    int,
    Seq<char>,
>
    decreases t.len() - i,
{
    if i < 0 || i >= t.len() {
        Err(unclosed_bracket_msg(line, open))
    } else {
        let tok = t[i].tok;
        if is_open_spec(tok) {
            close_from(t, i + 1, stack.push(open_char_of(tok)), open, line)
        } else if is_close_spec(tok) {
            if stack.len() > 0 && stack.last() == partner_of(tok) {
                if stack.len() == 1 {
                    Ok(i)
                } else {
                    close_from(t, i + 1, stack.drop_last(), open, line)
                }
            } else {
                Err(mismatched_bracket_msg(t[i].line as nat))
            }
        } else {
            close_from(t, i + 1, stack, open, line)
        }
    }
}

/// The index of the bracket that closes the one at `open_idx`, or the
/// message for a mismatched or unclosed bracket.
pub open spec fn find_close_spec(t: Seq<Token>, open_idx: int, line: nat) -> Result<int, Seq<char>> {
    let c = open_char_of(t[open_idx].tok);
    close_from(t, open_idx + 1, seq![c], c, line)
}

proof fn lemma_close_from_bounds(t: Seq<Token>, i: int, stack: Seq<char>, open: char, line: nat)
    ensures
        close_from(t, i, stack, open, line) matches Ok(c) ==> i <= c < t.len(),
    decreases t.len() - i,
{
    if 0 <= i < t.len() {
        let tok = t[i].tok;
        if is_open_spec(tok) {
            lemma_close_from_bounds(t, i + 1, stack.push(open_char_of(tok)), open, line);
        } else if is_close_spec(tok) {
            if stack.len() > 0 && stack.last() == partner_of(tok) && stack.len() != 1 {
                lemma_close_from_bounds(t, i + 1, stack.drop_last(), open, line);
            }
        } else {
            lemma_close_from_bounds(t, i + 1, stack, open, line);
        }
    }
}

pub proof fn lemma_find_close_bounds(t: Seq<Token>, open_idx: int, line: nat)
    requires
        0 <= open_idx < t.len(),
    ensures
        find_close_spec(t, open_idx, line) matches Ok(c) ==> open_idx < c < t.len(),
{
    let c = open_char_of(t[open_idx].tok);
    lemma_close_from_bounds(t, open_idx + 1, seq![c], c, line);
}

proof fn lemma_close_from_matches(t: Seq<Token>, i: int, stack: Seq<char>, open: char, line: nat)
    requires
        stack.len() >= 1,
        stack[0] == open,
    ensures
        close_from(t, i, stack, open, line) matches Ok(c) ==> is_close_spec(t[c].tok)
            && partner_of(t[c].tok) == open,
    decreases t.len() - i,
{
    if 0 <= i < t.len() {
        let tok = t[i].tok;
        if is_open_spec(tok) {
            lemma_close_from_matches(t, i + 1, stack.push(open_char_of(tok)), open, line);
        } else if is_close_spec(tok) {
            if stack.len() > 0 && stack.last() == partner_of(tok) && stack.len() != 1 {
                lemma_close_from_matches(t, i + 1, stack.drop_last(), open, line);
            }
        } else {
            lemma_close_from_matches(t, i + 1, stack, open, line);
        }
    }
}

/// The bracket found closes the one it was asked for: a `]` for a `[`, a
/// `)` for a `(`, a `}` for a `{`, after it.
pub proof fn law_close_matches_open(t: Seq<Token>, open_idx: int, line: nat)
    requires
        0 <= open_idx < t.len(),
        is_open_spec(t[open_idx].tok),
    ensures
        find_close_spec(t, open_idx, line) matches Ok(c) ==> open_idx < c < t.len()
            && is_close_spec(t[c].tok) && partner_of(t[c].tok) == open_char_of(t[open_idx].tok),
{
    let c = open_char_of(t[open_idx].tok);
    lemma_find_close_bounds(t, open_idx, line);
    lemma_close_from_matches(t, open_idx + 1, seq![c], c, line);
}

/// Given the index of an opening bracket, finds the index of its matching
/// closing bracket, checking that the brackets between are properly nested.
pub(crate) fn find_close(tokens: &[Token], open_idx: usize, line: usize) -> (r: Result<usize, String>)
    requires
        open_idx < tokens@.len(),
        is_open_spec(tokens@[open_idx as int].tok),
    ensures
        match (r, find_close_spec(tokens@, open_idx as int, line as nat)) {
            (Ok(c), Ok(s)) => c == s,
            (Err(e), Err(m)) => e@ == m,
            _ => false,
        },
        r matches Ok(c) ==> open_idx < c < tokens@.len(),
{
    let open_char = match &tokens[open_idx].tok {
        Tok::LBracket => '[',
        Tok::LParen => '(',
        _ => '{',
    };
    let mut stack: Vec<char> = Vec::new();
    stack.push(open_char);
    let mut i = open_idx + 1;
    let n = tokens.len();
    proof {
        assert(stack@ =~= seq![open_char]);
        lemma_find_close_bounds(tokens@, open_idx as int, line as nat);
    }
    while i < n
        invariant
            n == tokens@.len(),
            open_idx < i <= n,
            open_char == open_char_of(tokens@[open_idx as int].tok),
            stack@.len() >= 1,
            find_close_spec(tokens@, open_idx as int, line as nat) == close_from(
                tokens@,
                i as int,
                stack@,
                open_char,
                line as nat,
            ),
        decreases n - i,
    {
        match &tokens[i].tok {
            Tok::LBracket => stack.push('['),
            Tok::LParen => stack.push('('),
            Tok::LBrace => stack.push('{'),
            Tok::RBracket | Tok::RParen | Tok::RBrace => {
                let expected = match &tokens[i].tok {
                    Tok::RBracket => '[',
                    Tok::RParen => '(',
                    _ => '{',
                };
                let ghost before = stack@;
                match stack.pop() {
                    Some(top) => {
                        if top == expected {
                            if stack.len() == 0 {
                                return Ok(i);
                            }
                        } else {
                            return Err(mismatched_bracket_err(tokens[i].line));
                        }
                    },
                    None => {
                        return Err(mismatched_bracket_err(tokens[i].line));
                    },
                }
                proof {
                    assert(stack@ =~= before.drop_last());
                }
            },
            _ => {},
        }
        i += 1;
    }
    Err(unclosed_bracket_err(line, open_char))
}

// ---------------------------------------------------------------------
// Splitting at top level
// ---------------------------------------------------------------------

/// The token kind that separates the parts in `split_top_level`.
pub enum Delim {
    Comma,
    End,
}

pub open spec fn is_delim(t: Tok, d: Delim) -> bool {
    match d {
        Delim::Comma => t is Comma,
        Delim::End => t is End,
    }
}

/// The parts, as index ranges, of `t` from `i` on, where `depth` is the
/// bracket depth at `i` and the current part began at `start`.
pub open spec fn split_from(t: Seq<Token>, i: int, depth: int, start: usize, d: Delim) -> Seq<
    (usize, usize),
>
    decreases t.len() - i,
{
    if i < 0 || i >= t.len() {
        if start < t.len() {
            seq![(start, t.len() as usize)]
        } else {
            Seq::empty()
        }
    } else {
        let tok = t[i].tok;
        if is_open_spec(tok) {
            split_from(t, i + 1, depth + 1, start, d)
        } else if is_close_spec(tok) {
            split_from(t, i + 1, depth - 1, start, d)
        } else if depth == 0 && is_delim(tok, d) {
            seq![(start, i as usize)] + split_from(t, i + 1, depth, (i + 1) as usize, d)
        } else {
            split_from(t, i + 1, depth, start, d)
        }
    }
}

/// The parts of `t` between delimiters at bracket depth 0, as index ranges.
/// A trailing empty part (after a trailing delimiter, or of an empty input)
/// is dropped, so `[]` and `[1,]` behave sensibly.
pub open spec fn split_top_level_spec(t: Seq<Token>, d: Delim) -> Seq<(usize, usize)> {
    split_from(t, 0, 0, 0, d)
}

/// Every range of `parts` lies inside a sequence of length `n`, in order.
pub open spec fn ranges_within(parts: Seq<(usize, usize)>, n: int) -> bool {
    forall|k: int| 0 <= k < parts.len() ==> (#[trigger] parts[k]).0 <= parts[k].1 <= n
}

proof fn lemma_split_from_within(t: Seq<Token>, i: int, depth: int, start: usize, d: Delim)
    requires
        0 <= start <= i <= t.len(),
        t.len() <= usize::MAX,
    ensures
        ranges_within(split_from(t, i, depth, start, d), t.len() as int),
    decreases t.len() - i,
{
    if i < t.len() {
        let tok = t[i].tok;
        if is_open_spec(tok) {
            lemma_split_from_within(t, i + 1, depth + 1, start, d);
        } else if is_close_spec(tok) {
            lemma_split_from_within(t, i + 1, depth - 1, start, d);
        } else if depth == 0 && is_delim(tok, d) {
            lemma_split_from_within(t, i + 1, depth, (i + 1) as usize, d);
            let rest = split_from(t, i + 1, depth, (i + 1) as usize, d);
            let all = seq![(start, i as usize)] + rest;
            assert forall|k: int| 0 <= k < all.len() implies (#[trigger] all[k]).0 <= all[k].1
                <= t.len() by {
                if k > 0 {
                    assert(all[k] == rest[k - 1]);
                }
            }
        } else {
            lemma_split_from_within(t, i + 1, depth, start, d);
        }
    }
}

pub proof fn lemma_split_within(t: Seq<Token>, d: Delim)
    requires
        t.len() <= usize::MAX,
    ensures
        ranges_within(split_top_level_spec(t, d), t.len() as int),
{
    lemma_split_from_within(t, 0, 0, 0, d);
}

/// Splits `tokens` at the delimiters that stand at bracket depth 0.
pub(crate) fn split_top_level(tokens: &[Token], d: Delim) -> (r: Vec<(usize, usize)>)
    ensures
        r@ == split_top_level_spec(tokens@, d),
        ranges_within(r@, tokens@.len() as int),
{
    let n = tokens.len();
    let mut parts: Vec<(usize, usize)> = Vec::new();
    let mut opens: usize = 0;
    let mut closes: usize = 0;
    let mut start: usize = 0;
    let mut i: usize = 0;
    proof {
        lemma_split_within(tokens@, d);
    }
    while i < n
        invariant
            n == tokens@.len(),
            i <= n,
            start <= i,
            opens + closes <= i,
            split_top_level_spec(tokens@, d) == parts@ + split_from(
                tokens@,
                i as int,
                opens - closes,
                start,
                d,
            ),
        decreases n - i,
    {
        let t = &tokens[i].tok;
        let ghost before = parts@;
        if is_open(t) {
            opens += 1;
        } else if is_close(t) {
            closes += 1;
        } else if opens == closes && (match (t, &d) {
            (Tok::Comma, Delim::Comma) => true,
            (Tok::End, Delim::End) => true,
            _ => false,
        }) {
            let ghost old_start = start;
            parts.push((start, i));
            start = i + 1;
            proof {
                let rest = split_from(tokens@, i + 1, opens - closes, start, d);
                assert(before + (seq![(old_start, i)] + rest) =~= parts@ + rest);
            }
        }
        i += 1;
    }
    if start < n {
        parts.push((start, n));
    }
    proof {
        assert(parts@ =~= split_top_level_spec(tokens@, d));
    }
    parts
}

// ---------------------------------------------------------------------
// Finding keywords
// ---------------------------------------------------------------------

/// The first index from `i` on at bracket depth 0 (with `depth` the depth at
/// `i`) that holds the identifier `kw`.
pub open spec fn kw_from(t: Seq<Token>, i: int, depth: int, kw: Seq<char>) -> Option<int>
    decreases t.len() - i,
{
    if i < 0 || i >= t.len() {
        None
    } else {
        let tok = t[i].tok;
        if is_open_spec(tok) {
            kw_from(t, i + 1, depth + 1, kw)
        } else if is_close_spec(tok) {
            kw_from(t, i + 1, depth - 1, kw)
        } else if depth == 0 && ident_is(tok, kw) {
            Some(i)
        } else {
            kw_from(t, i + 1, depth, kw)
        }
    }
}

/// The first index at bracket depth 0 that holds the identifier `kw`.
pub open spec fn find_kw_spec(t: Seq<Token>, kw: Seq<char>) -> Option<int> {
    kw_from(t, 0, 0, kw)
}

proof fn lemma_kw_from(t: Seq<Token>, i: int, depth: int, kw: Seq<char>)
    requires
        0 <= i,
    ensures
        kw_from(t, i, depth, kw) matches Some(k) ==> i <= k < t.len() && ident_is(t[k].tok, kw),
    decreases t.len() - i,
{
    if i < t.len() {
        let tok = t[i].tok;
        if is_open_spec(tok) {
            lemma_kw_from(t, i + 1, depth + 1, kw);
        } else if is_close_spec(tok) {
            lemma_kw_from(t, i + 1, depth - 1, kw);
        } else if !(depth == 0 && ident_is(tok, kw)) {
            lemma_kw_from(t, i + 1, depth, kw);
        }
    }
}

pub proof fn lemma_find_kw(t: Seq<Token>, kw: Seq<char>)
    ensures
        find_kw_spec(t, kw) matches Some(k) ==> 0 <= k < t.len() && ident_is(t[k].tok, kw),
{
    lemma_kw_from(t, 0, 0, kw);
}

/// Finds the first top-level (bracket depth 0) index holding `kw`.
pub(crate) fn find_kw_top_level(tokens: &[Token], kw: &str) -> (r: Option<usize>)
    ensures
        r matches Some(k) ==> find_kw_spec(tokens@, kw@) == Some(k as int),
        r is None ==> find_kw_spec(tokens@, kw@) is None,
        r matches Some(k) ==> k < tokens@.len() && ident_is(tokens@[k as int].tok, kw@),
{
    let n = tokens.len();
    let mut opens: usize = 0;
    let mut closes: usize = 0;
    let mut i: usize = 0;
    proof {
        lemma_find_kw(tokens@, kw@);
    }
    while i < n
        invariant
            n == tokens@.len(),
            i <= n,
            opens + closes <= i,
            find_kw_spec(tokens@, kw@) == kw_from(tokens@, i as int, opens - closes, kw@),
        decreases n - i,
    {
        let t = &tokens[i].tok;
        if is_open(t) {
            opens += 1;
        } else if is_close(t) {
            closes += 1;
        } else if opens == closes && ident_eq(t, kw) {
            return Some(i);
        }
        i += 1;
    }
    None
}

pub(crate) fn find_kw(tokens: &[Token], kw: &str) -> (r: Option<usize>)
    ensures
        r matches Some(k) ==> find_kw_spec(tokens@, kw@) == Some(k as int),
        r is None ==> find_kw_spec(tokens@, kw@) is None,
        r matches Some(k) ==> k < tokens@.len() && ident_is(tokens@[k as int].tok, kw@),
{
    find_kw_top_level(tokens, kw)
}

/// The last token is the sentence terminator.
pub open spec fn has_end_spec(t: Seq<Token>) -> bool {
    t.len() > 0 && t.last().tok is End
}

pub(crate) fn has_end(tokens: &[Token]) -> (r: bool)
    ensures
        r == has_end_spec(tokens@),
{
    tokens.len() > 0 && (match &tokens[tokens.len() - 1].tok {
        Tok::End => true,
        _ => false,
    })
}


// ---------------------------------------------------------------------
// Statements and blocks
// ---------------------------------------------------------------------

/// The chunks, as index ranges, of `t` from `i` on, where `depth` counts open
/// brackets and open blocks at `i` and the current chunk began at `start`.
pub open spec fn stmts_from(t: Seq<Token>, i: int, depth: int, start: usize) -> Seq<(usize, usize)>
    decreases t.len() - i,
{
    if i < 0 || i >= t.len() {
        if start < t.len() {
            seq![(start, t.len() as usize)]
        } else {
            Seq::empty()
        }
    } else {
        let tok = t[i].tok;
        if is_open_spec(tok) || is_block_open_spec(tok) {
            stmts_from(t, i + 1, depth + 1, start)
        } else if is_close_spec(tok) || ident_is(tok, KW_LOOP_END@) {
            stmts_from(t, i + 1, depth - 1, start)
        } else if depth == 0 && tok is End {
            seq![(start, (i + 1) as usize)] + stmts_from(t, i + 1, depth, (i + 1) as usize)
        } else {
            stmts_from(t, i + 1, depth, start)
        }
    }
}

/// The statements of `t`, as index ranges: a `။` ends a statement when it
/// stands outside every bracket and every block (a block opens at the
/// keyword of a for-loop, if/else, while, function or class, and closes at
/// "ပြီး"). Tokens after the last such `။` form a last statement.
pub open spec fn split_statements_spec(t: Seq<Token>) -> Seq<(usize, usize)> {
    stmts_from(t, 0, 0, 0)
}

/// Every range of `parts` is non-empty and lies inside a sequence of length `n`.
pub open spec fn ranges_nonempty_within(parts: Seq<(usize, usize)>, n: int) -> bool {
    forall|k: int| 0 <= k < parts.len() ==> (#[trigger] parts[k]).0 < parts[k].1 <= n
}

proof fn lemma_stmts_from_within(t: Seq<Token>, i: int, depth: int, start: usize)
    requires
        0 <= start <= i <= t.len(),
        t.len() <= usize::MAX,
    ensures
        ranges_nonempty_within(stmts_from(t, i, depth, start), t.len() as int),
    decreases t.len() - i,
{
    if i < t.len() {
        let tok = t[i].tok;
        if is_open_spec(tok) || is_block_open_spec(tok) {
            lemma_stmts_from_within(t, i + 1, depth + 1, start);
        } else if is_close_spec(tok) || ident_is(tok, KW_LOOP_END@) {
            lemma_stmts_from_within(t, i + 1, depth - 1, start);
        } else if depth == 0 && tok is End {
            lemma_stmts_from_within(t, i + 1, depth, (i + 1) as usize);
            let rest = stmts_from(t, i + 1, depth, (i + 1) as usize);
            let all = seq![(start, (i + 1) as usize)] + rest;
            assert forall|k: int| 0 <= k < all.len() implies (#[trigger] all[k]).0 < all[k].1
                <= t.len() by {
                if k > 0 {
                    assert(all[k] == rest[k - 1]);
                }
            }
        } else {
            lemma_stmts_from_within(t, i + 1, depth, start);
        }
    }
}

pub proof fn lemma_split_statements_within(t: Seq<Token>)
    requires
        t.len() <= usize::MAX,
    ensures
        ranges_nonempty_within(split_statements_spec(t), t.len() as int),
{
    lemma_stmts_from_within(t, 0, 0, 0);
}

/// The ranges follow each other from `a` to `b` with no gap and no overlap:
/// the first begins at `a`, each of the others where the one before it
/// ends, and the last ends at `b`; there are none only when `a == b`.
pub open spec fn ranges_tile(parts: Seq<(usize, usize)>, a: int, b: int) -> bool {
    if parts.len() == 0 {
        a == b
    } else {
        &&& parts[0].0 == a
        &&& parts.last().1 == b
        &&& forall|k: int| 0 <= k < parts.len() - 1 ==> (#[trigger] parts[k]).1 == parts[k + 1].0
    }
}

proof fn lemma_stmts_from_tile(t: Seq<Token>, i: int, depth: int, start: usize)
    requires
        0 <= start <= i <= t.len(),
        t.len() <= usize::MAX,
    ensures
        ranges_tile(stmts_from(t, i, depth, start), start as int, t.len() as int),
    decreases t.len() - i,
{
    if i < t.len() {
        let tok = t[i].tok;
        if is_open_spec(tok) || is_block_open_spec(tok) {
            lemma_stmts_from_tile(t, i + 1, depth + 1, start);
        } else if is_close_spec(tok) || ident_is(tok, KW_LOOP_END@) {
            lemma_stmts_from_tile(t, i + 1, depth - 1, start);
        } else if depth == 0 && tok is End {
            lemma_stmts_from_tile(t, i + 1, depth, (i + 1) as usize);
            let rest = stmts_from(t, i + 1, depth, (i + 1) as usize);
            let all = seq![(start, (i + 1) as usize)] + rest;
            if rest.len() > 0 {
                assert(all.last() == rest.last());
                assert forall|k: int| 0 <= k < all.len() - 1 implies (#[trigger] all[k]).1 == all[k
                    + 1].0 by {
                    if k > 0 {
                        assert(all[k] == rest[k - 1]);
                        assert(all[k + 1] == rest[k]);
                    }
                }
            }
        } else {
            lemma_stmts_from_tile(t, i + 1, depth, start);
        }
    }
}

/// Splitting into statements loses no token and repeats none: the
/// statements follow each other from the first token to the last.
pub proof fn law_statements_tile(t: Seq<Token>)
    requires
        t.len() <= usize::MAX,
    ensures
        ranges_tile(split_statements_spec(t), 0, t.len() as int),
{
    lemma_stmts_from_tile(t, 0, 0, 0);
}

/// The nesting that statement splitting counts just before index `i`: the
/// brackets and blocks opened and not closed by the tokens before it.
pub open spec fn depth_at(t: Seq<Token>, i: int) -> int
    decreases i,
{
    if i <= 0 || i > t.len() {
        0
    } else {
        depth_at(t, i - 1) + depth_change(t[i - 1].tok)
    }
}

proof fn lemma_stmts_from_ends(t: Seq<Token>, i: int, depth: int, start: usize)
    requires
        0 <= start <= i <= t.len(),
        t.len() <= usize::MAX,
        depth == depth_at(t, i),
    ensures
        forall|k: int|
            0 <= k < stmts_from(t, i, depth, start).len() - 1 ==> #[trigger] t[stmts_from(
                t,
                i,
                depth,
                start,
            )[k].1 - 1].tok is End && depth_at(t, stmts_from(t, i, depth, start)[k].1 - 1) == 0,
    decreases t.len() - i,
{
    if i < t.len() {
        let tok = t[i].tok;
        assert(depth_at(t, i + 1) == depth + depth_change(tok));
        if is_open_spec(tok) || is_block_open_spec(tok) {
            lemma_stmts_from_ends(t, i + 1, depth + 1, start);
        } else if is_close_spec(tok) || ident_is(tok, KW_LOOP_END@) {
            lemma_stmts_from_ends(t, i + 1, depth - 1, start);
        } else if depth == 0 && tok is End {
            lemma_stmts_from_ends(t, i + 1, depth, (i + 1) as usize);
            let rest = stmts_from(t, i + 1, depth, (i + 1) as usize);
            let all = seq![(start, (i + 1) as usize)] + rest;
            assert forall|k: int| 0 <= k < all.len() - 1 implies #[trigger] t[all[k].1 - 1].tok is End
                && depth_at(t, all[k].1 - 1) == 0 by {
                if k > 0 {
                    assert(all[k] == rest[k - 1]);
                }
            }
        } else {
            lemma_stmts_from_ends(t, i + 1, depth, start);
        }
    }
}

/// Every statement but the last ends at a `။` that stands outside all
/// brackets and blocks (at nesting 0); only the tokens after the last such
/// `။` may form a statement without one.
pub proof fn law_statements_end_at_period(t: Seq<Token>)
    requires
        t.len() <= usize::MAX,
    ensures
        forall|k: int|
            0 <= k < split_statements_spec(t).len() - 1 ==> #[trigger] t[split_statements_spec(
                t,
            )[k].1 - 1].tok is End && depth_at(t, split_statements_spec(t)[k].1 - 1) == 0,
{
    lemma_stmts_from_ends(t, 0, 0, 0);
}

/// How a token changes the nesting that statement splitting counts: an
/// opening bracket or block keyword opens one level, a closing bracket or
/// "ပြီး" closes one.
pub open spec fn depth_change(tok: Tok) -> int {
    if is_open_spec(tok) || is_block_open_spec(tok) {
        1
    } else if is_close_spec(tok) || ident_is(tok, KW_LOOP_END@) {
        -1
    } else {
        0
    }
}

/// The nesting after the tokens of `t` from `i` on, starting from `d`.
pub open spec fn depth_after(t: Seq<Token>, i: int, d: int) -> int
    decreases t.len() - i,
{
    if i < 0 || i >= t.len() {
        d
    } else {
        depth_after(t, i + 1, d + depth_change(t[i].tok))
    }
}

/// The ranges moved `n` places on.
pub open spec fn shift_ranges(c: Seq<(usize, usize)>, n: int) -> Seq<(usize, usize)> {
    c.map_values(|r: (usize, usize)| ((r.0 + n) as usize, (r.1 + n) as usize))
}

proof fn lemma_stmts_from_shift(a: Seq<Token>, b: Seq<Token>, j: int, d: int, s: int)
    requires
        0 <= s <= j <= b.len(),
        (a + b).len() <= usize::MAX,
    ensures
        stmts_from(a + b, a.len() + j, d, (a.len() + s) as usize) == shift_ranges(
            stmts_from(b, j, d, s as usize),
            a.len() as int,
        ),
    decreases b.len() - j,
{
    let t = a + b;
    let n = a.len() as int;
    if j < b.len() {
        assert(t[n + j] == b[j]);
        let tok = b[j].tok;
        if is_open_spec(tok) || is_block_open_spec(tok) {
            lemma_stmts_from_shift(a, b, j + 1, d + 1, s);
        } else if is_close_spec(tok) || ident_is(tok, KW_LOOP_END@) {
            lemma_stmts_from_shift(a, b, j + 1, d - 1, s);
        } else if d == 0 && tok is End {
            lemma_stmts_from_shift(a, b, j + 1, d, j + 1);
            let rb = stmts_from(b, j + 1, d, (j + 1) as usize);
            assert(shift_ranges(seq![(s as usize, (j + 1) as usize)] + rb, n) =~= seq![
                ((n + s) as usize, (n + j + 1) as usize),
            ] + shift_ranges(rb, n));
        } else {
            lemma_stmts_from_shift(a, b, j + 1, d, s);
        }
    } else {
        if s < b.len() {
            assert(shift_ranges(seq![(s as usize, b.len() as usize)], n) =~= seq![
                ((n + s) as usize, t.len() as usize),
            ]);
        } else {
            assert(shift_ranges(Seq::<(usize, usize)>::empty(), n) =~= Seq::<(usize, usize)>::empty());
        }
    }
}

proof fn lemma_stmts_from_concat(a: Seq<Token>, b: Seq<Token>, i: int, d: int, st: int)
    requires
        0 <= st <= i < a.len(),
        (a + b).len() <= usize::MAX,
        a.last().tok is End,
        depth_after(a, i, d) == 0,
    ensures
        stmts_from(a + b, i, d, st as usize) == stmts_from(a, i, d, st as usize) + shift_ranges(
            stmts_from(b, 0, 0, 0),
            a.len() as int,
        ),
    decreases a.len() - i,
{
    let t = a + b;
    let n = a.len() as int;
    assert(t[i] == a[i]);
    let tok = a[i].tok;
    let sh = shift_ranges(stmts_from(b, 0, 0, 0), n);
    if i == n - 1 {
        assert(depth_after(a, i + 1, d + depth_change(tok)) == d + depth_change(tok));
        assert(d == 0);
        lemma_stmts_from_shift(a, b, 0, 0, 0);
        assert(stmts_from(a, n, 0, n as usize) =~= Seq::<(usize, usize)>::empty());
        assert(seq![(st as usize, n as usize)] + sh =~= (seq![(st as usize, n as usize)]
            + Seq::<(usize, usize)>::empty()) + sh);
    } else if is_open_spec(tok) || is_block_open_spec(tok) {
        lemma_stmts_from_concat(a, b, i + 1, d + 1, st);
    } else if is_close_spec(tok) || ident_is(tok, KW_LOOP_END@) {
        lemma_stmts_from_concat(a, b, i + 1, d - 1, st);
    } else if d == 0 && tok is End {
        lemma_stmts_from_concat(a, b, i + 1, d, i + 1);
        let ra = stmts_from(a, i + 1, d, (i + 1) as usize);
        assert(seq![(st as usize, (i + 1) as usize)] + (ra + sh) =~= (seq![
            (st as usize, (i + 1) as usize),
        ] + ra) + sh);
    } else {
        lemma_stmts_from_concat(a, b, i + 1, d, st);
    }
}

/// Statement splitting distributes over two runs of tokens when the first
/// ends in a `။` and opens as many brackets and blocks as it closes.
pub proof fn lemma_split_statements_concat(a: Seq<Token>, b: Seq<Token>)
    requires
        a.len() > 0,
        (a + b).len() <= usize::MAX,
        a.last().tok is End,
        depth_after(a, 0, 0) == 0,
    ensures
        split_statements_spec(a + b) == split_statements_spec(a) + shift_ranges(
            split_statements_spec(b),
            a.len() as int,
        ),
{
    lemma_stmts_from_concat(a, b, 0, 0, 0);
}

/// Splits tokens into statements (see `split_statements_spec`).
pub(crate) fn split_statements(tokens: &[Token]) -> (r: Vec<(usize, usize)>)
    ensures
        r@ == split_statements_spec(tokens@),
        ranges_nonempty_within(r@, tokens@.len() as int),
{
    let n = tokens.len();
    let mut stmts: Vec<(usize, usize)> = Vec::new();
    let mut opens: usize = 0;
    let mut closes: usize = 0;
    let mut start: usize = 0;
    let mut i: usize = 0;
    proof {
        lemma_split_statements_within(tokens@);
    }
    while i < n
        invariant
            n == tokens@.len(),
            i <= n,
            start <= i,
            opens + closes <= i,
            split_statements_spec(tokens@) == stmts@ + stmts_from(
                tokens@,
                i as int,
                opens - closes,
                start,
            ),
        decreases n - i,
    {
        let t = &tokens[i].tok;
        if is_open(t) || is_block_open(t) {
            opens += 1;
        } else if is_close(t) || ident_eq(t, KW_LOOP_END) {
            closes += 1;
        } else if opens == closes && (match t {
            Tok::End => true,
            _ => false,
        }) {
            let ghost before = stmts@;
            let ghost old_start = start;
            stmts.push((start, i + 1));
            start = i + 1;
            proof {
                let rest = stmts_from(tokens@, i + 1, opens - closes, start);
                assert(before + (seq![(old_start, (i + 1) as usize)] + rest) =~= stmts@ + rest);
            }
        }
        i += 1;
    }
    if start < n {
        stmts.push((start, n));
    }
    proof {
        assert(stmts@ =~= split_statements_spec(tokens@));
    }
    stmts
}

/// The first index from `i` on outside every bracket and block (with `depth`
/// the nesting at `i`) that holds the identifier `k0` or `k1`, with 0 or 1
/// telling which.
pub open spec fn block_kw_from(t: Seq<Token>, i: int, depth: int, k0: Seq<char>, k1: Seq<char>) -> Option<
    (int, int),
>
    decreases t.len() - i,
{
    if i < 0 || i >= t.len() {
        None
    } else {
        let tok = t[i].tok;
        if is_open_spec(tok) || is_block_open_spec(tok) {
            block_kw_from(t, i + 1, depth + 1, k0, k1)
        } else if is_close_spec(tok) || ident_is(tok, KW_LOOP_END@) {
            block_kw_from(t, i + 1, depth - 1, k0, k1)
        } else if depth == 0 && ident_is(tok, k0) {
            Some((i, 0))
        } else if depth == 0 && ident_is(tok, k1) {
            Some((i, 1))
        } else {
            block_kw_from(t, i + 1, depth, k0, k1)
        }
    }
}

pub open spec fn find_first_at_block_level_spec(t: Seq<Token>, k0: Seq<char>, k1: Seq<char>) -> Option<
    (int, int),
> {
    block_kw_from(t, 0, 0, k0, k1)
}

/// Finds the first occurrence of `k0` or `k1` outside every bracket and
/// block, with the same nesting rules as `split_statements`. Gives the
/// index and which keyword (0 or 1) stands there.
pub(crate) fn find_first_at_block_level(tokens: &[Token], k0: &str, k1: &str) -> (r: Option<
    (usize, usize),
>)
    ensures
        r matches Some((k, w)) ==> find_first_at_block_level_spec(tokens@, k0@, k1@) == Some(
            (k as int, w as int),
        ) && k < tokens@.len() && (w == 0 || w == 1),
        r is None ==> find_first_at_block_level_spec(tokens@, k0@, k1@) is None,
{
    let n = tokens.len();
    let mut opens: usize = 0;
    let mut closes: usize = 0;
    let mut i: usize = 0;
    while i < n
        invariant
            n == tokens@.len(),
            i <= n,
            opens + closes <= i,
            find_first_at_block_level_spec(tokens@, k0@, k1@) == block_kw_from(
                tokens@,
                i as int,
                opens - closes,
                k0@,
                k1@,
            ),
        decreases n - i,
    {
        let t = &tokens[i].tok;
        if is_open(t) || is_block_open(t) {
            opens += 1;
        } else if is_close(t) || ident_eq(t, KW_LOOP_END) {
            closes += 1;
        } else if opens == closes && ident_eq(t, k0) {
            return Some((i, 0));
        } else if opens == closes && ident_eq(t, k1) {
            return Some((i, 1));
        }
        i += 1;
    }
    None
}

} // verus!
