//! The lexer: turns source text into a flat stream of tokens, each tagged
//! with the source line it starts on. Statements are not split here; the
//! parser finds statement ends by looking for the sentence terminator `။`
//! at bracket depth 0, so collection literals may span several lines.
use vstd::prelude::*;

use crate::text::{
    chars_of, decimal, is_whitespace, is_whitespace_spec, string_from_chars, usize_to_string,
};

verus! {

/// One token.
#[derive(Debug, Clone, PartialEq)]
pub enum Tok {
    /// A Myanmar keyword or an identifier.
    Ident(String),
    /// The contents of a string literal, without its quotes.
    Str(String),
    /// A numeral normalised to ASCII digits, possibly with a `.`.
    Num(String),
    /// One of `+ - * / %`.
    Op(char),
    /// One of `< > == != <= >=`.
    Cmp(String),
    /// The sentence terminator `။`.
    End,
    LBracket,
    RBracket,
    LParen,
    RParen,
    LBrace,
    RBrace,
    Comma,
}

/// A token together with the line it starts on.
#[derive(Debug, Clone)]
pub struct Token {
    pub tok: Tok,
    pub line: usize,
}

/// The mathematical value of a [`Tok`]: strings are taken by their characters.
pub enum TokM {
    Ident(Seq<char>),
    Str(Seq<char>),
    Num(Seq<char>),
    Op(char),
    Cmp(Seq<char>),
    End,
    LBracket,
    RBracket,
    LParen,
    RParen,
    LBrace,
    RBrace,
    Comma,
}

/// The mathematical value of a [`Token`].
pub struct TokenM {
    pub tok: TokM,
    pub line: nat,
}

impl View for Tok {
    type V = TokM;

    open spec fn view(&self) -> TokM {
        match self {
            Tok::Ident(s) => TokM::Ident(s@),
            Tok::Str(s) => TokM::Str(s@),
            Tok::Num(s) => TokM::Num(s@),
            Tok::Op(c) => TokM::Op(*c),
            Tok::Cmp(s) => TokM::Cmp(s@),
            Tok::End => TokM::End,
            Tok::LBracket => TokM::LBracket,
            Tok::RBracket => TokM::RBracket,
            Tok::LParen => TokM::LParen,
            Tok::RParen => TokM::RParen,
            Tok::LBrace => TokM::LBrace,
            Tok::RBrace => TokM::RBrace,
            Tok::Comma => TokM::Comma,
        }
    }
}

impl View for Token {
    type V = TokenM;

    open spec fn view(&self) -> TokenM {
        TokenM { tok: self.tok@, line: self.line as nat }
    }
}

/// The values of a sequence of tokens.
pub open spec fn tokens_model(s: Seq<Token>) -> Seq<TokenM> {
    s.map_values(|t: Token| t@)
}

// ---------------------------------------------------------------------
// Character classes
// ---------------------------------------------------------------------

/// The ASCII digit that a Myanmar digit `၀`..`၉` stands for.
pub open spec fn myanmar_digit_spec(c: char) -> Option<char> {
    if c == '၀' { Some('0') }
    else if c == '၁' { Some('1') }
    else if c == '၂' { Some('2') }
    else if c == '၃' { Some('3') }
    else if c == '၄' { Some('4') }
    else if c == '၅' { Some('5') }
    else if c == '၆' { Some('6') }
    else if c == '၇' { Some('7') }
    else if c == '၈' { Some('8') }
    else if c == '၉' { Some('9') }
    else { None }
}

pub open spec fn is_ascii_digit_spec(c: char) -> bool {
    '0' <= c && c <= '9'
}

pub open spec fn is_digit_spec(c: char) -> bool {
    is_ascii_digit_spec(c) || myanmar_digit_spec(c) is Some
}

/// The characters that end a word.
pub open spec fn is_word_delim_spec(c: char) -> bool {
    is_whitespace_spec(c) || c == '"' || c == '#' || c == '+' || c == '-' || c == '*'
        || c == '/' || c == '%' || c == '[' || c == ']' || c == '(' || c == ')' || c == '{'
        || c == '}' || c == ',' || c == '<' || c == '>' || c == '=' || c == '!'
}

fn myanmar_digit_to_ascii(c: char) -> (r: Option<char>)
    ensures
        r == myanmar_digit_spec(c),
{
    if c == '၀' { Some('0') }
    else if c == '၁' { Some('1') }
    else if c == '၂' { Some('2') }
    else if c == '၃' { Some('3') }
    else if c == '၄' { Some('4') }
    else if c == '၅' { Some('5') }
    else if c == '၆' { Some('6') }
    else if c == '၇' { Some('7') }
    else if c == '၈' { Some('8') }
    else if c == '၉' { Some('9') }
    else { None }
}

fn is_ascii_digit(c: char) -> (r: bool)
    ensures
        r == is_ascii_digit_spec(c),
{
    '0' <= c && c <= '9'
}

fn is_digit_char(c: char) -> (r: bool)
    ensures
        r == is_digit_spec(c),
{
    is_ascii_digit(c) || myanmar_digit_to_ascii(c).is_some()
}

fn is_word_delim(c: char) -> (r: bool)
    ensures
        r == is_word_delim_spec(c),
{
    is_whitespace(c) || c == '"' || c == '#' || c == '+' || c == '-' || c == '*' || c == '/'
        || c == '%' || c == '[' || c == ']' || c == '(' || c == ')' || c == '{' || c == '}'
        || c == ',' || c == '<' || c == '>' || c == '=' || c == '!'
}

// ---------------------------------------------------------------------
// Scanning helpers
// ---------------------------------------------------------------------

/// The first index at or after `i` that holds a newline, or the end.
pub open spec fn line_end(cs: Seq<char>, i: int) -> int
    decreases cs.len() - i,
{
    if i < 0 || i >= cs.len() || cs[i] == '\n' {
        i
    } else {
        line_end(cs, i + 1)
    }
}

/// The first index at or after `i` that holds a `"`, or the end.
pub open spec fn quote_end(cs: Seq<char>, i: int) -> int
    decreases cs.len() - i,
{
    if i < 0 || i >= cs.len() || cs[i] == '"' {
        i
    } else {
        quote_end(cs, i + 1)
    }
}

/// The first index at or after `i` that holds a word delimiter, or the end.
pub open spec fn word_end(cs: Seq<char>, i: int) -> int
    decreases cs.len() - i,
{
    if i < 0 || i >= cs.len() || is_word_delim_spec(cs[i]) {
        i
    } else {
        word_end(cs, i + 1)
    }
}

/// The number of newlines in a sequence of characters.
pub open spec fn count_newlines(s: Seq<char>) -> nat
    decreases s.len(),
{
    if s.len() == 0 {
        0
    } else {
        count_newlines(s.drop_last()) + if s.last() == '\n' { 1nat } else { 0nat }
    }
}

/// A numeral starting at `i`: the index just past it and its text with
/// Myanmar digits replaced by ASCII ones. A `.` belongs to the numeral
/// only when a digit follows it.
pub open spec fn num_scan(cs: Seq<char>, i: int) -> (int, Seq<char>)
    decreases cs.len() - i,
{
    if i < 0 || i >= cs.len() {
        (i, Seq::empty())
    } else {
        let c = cs[i];
        if is_ascii_digit_spec(c) {
            let (e, t) = num_scan(cs, i + 1);
            (e, seq![c] + t)
        } else if myanmar_digit_spec(c) is Some {
            let (e, t) = num_scan(cs, i + 1);
            (e, seq![myanmar_digit_spec(c)->0] + t)
        } else if c == '.' && i + 1 < cs.len() && is_digit_spec(cs[i + 1]) {
            let (e, t) = num_scan(cs, i + 1);
            (e, seq!['.'] + t)
        } else {
            (i, Seq::empty())
        }
    }
}

// ---------------------------------------------------------------------
// Keyword suffixes
// ---------------------------------------------------------------------

/// The grammatical keywords that are split off the end of a word, in the
/// order in which they are tried. Type names are not among them: an
/// identifier may well end in one.
pub open spec fn suffix_keyword(k: int) -> Seq<char> {
    if k == 0 { "ပြောင်းပါ"@ }
    else if k == 1 { "ဖော်ပြပါ"@ }
    else if k == 2 { "မြှောက်ပါ"@ }
    else if k == 3 { "လျော့ပါ"@ }
    else if k == 4 { "စားပါ"@ }
    else if k == 5 { "တိုးပါ"@ }
    else if k == 6 { "မေးပါ"@ }
    else if k == 7 { "အတွက်"@ }
    else if k == 8 { "ဖြစ်၏"@ }
    else if k == 9 { "သည်"@ }
    else if k == 10 { "မှာ"@ }
    else if k == 11 { "ကို"@ }
    else { "သို့"@ }
}

fn suffix_keyword_str(k: usize) -> (r: &'static str)
    requires
        k < 13,
    ensures
        r@ == suffix_keyword(k as int),
{
    if k == 0 { "ပြောင်းပါ" }
    else if k == 1 { "ဖော်ပြပါ" }
    else if k == 2 { "မြှောက်ပါ" }
    else if k == 3 { "လျော့ပါ" }
    else if k == 4 { "စားပါ" }
    else if k == 5 { "တိုးပါ" }
    else if k == 6 { "မေးပါ" }
    else if k == 7 { "အတွက်" }
    else if k == 8 { "ဖြစ်၏" }
    else if k == 9 { "သည်" }
    else if k == 10 { "မှာ" }
    else if k == 11 { "ကို" }
    else { "သို့" }
}

/// `kw` can be split off the end of `core`: `core` ends with it and is longer.
pub open spec fn peels(core: Seq<char>, kw: Seq<char>) -> bool {
    core.len() > kw.len() && core.subrange(core.len() - kw.len(), core.len() as int) == kw
}

/// The first keyword, from index `k` on, that can be split off `core`.
pub open spec fn first_peel_from(core: Seq<char>, k: int) -> Option<int>
    decreases 13 - k,
{
    if k < 0 || k >= 13 {
        None
    } else if peels(core, suffix_keyword(k)) {
        Some(k)
    } else {
        first_peel_from(core, k + 1)
    }
}

proof fn lemma_suffix_keywords_nonempty()
    ensures
        forall|k: int| 0 <= k < 13 ==> #[trigger] suffix_keyword(k).len() > 0,
{
    reveal_strlit("ပြောင်းပါ");
    reveal_strlit("ဖော်ပြပါ");
    reveal_strlit("မြှောက်ပါ");
    reveal_strlit("လျော့ပါ");
    reveal_strlit("စားပါ");
    reveal_strlit("တိုးပါ");
    reveal_strlit("မေးပါ");
    reveal_strlit("အတွက်");
    reveal_strlit("ဖြစ်၏");
    reveal_strlit("သည်");
    reveal_strlit("မှာ");
    reveal_strlit("ကို");
    reveal_strlit("သို့");
}

/// Splits keyword suffixes off `core` greedily, trying the keywords in
/// order each time. Gives what is left and the keywords split off, in the
/// order in which they stand in the text.
pub open spec fn peel(core: Seq<char>) -> (Seq<char>, Seq<Seq<char>>)
    decreases core.len(),
{
    match first_peel_from(core, 0) {
        Some(k) => {
            let kw = suffix_keyword(k);
            if peels(core, kw) && kw.len() > 0 {
                let (rest, kws) = peel(core.subrange(0, core.len() - kw.len()));
                (rest, kws.push(kw))
            } else {
                (core, Seq::empty())
            }
        },
        None => (core, Seq::empty()),
    }
}

/// Identifier tokens for a sequence of keywords, all on `line`.
pub open spec fn ident_tokens(kws: Seq<Seq<char>>, line: nat) -> Seq<TokenM> {
    kws.map_values(|k: Seq<char>| TokenM { tok: TokM::Ident(k), line })
}

/// The tokens of a word: a `။` fused onto its end becomes an `End` token,
/// keyword suffixes become tokens of their own, and what is left, if
/// anything, is an identifier that comes first.
pub open spec fn word_tokens(w: Seq<char>, line: nat) -> Seq<TokenM> {
    let end_tok = w.len() > 0 && w.last() == '။';
    let core0 = if end_tok { w.drop_last() } else { w };
    let (core, kws) = peel(core0);
    let head = if core.len() > 0 {
        seq![TokenM { tok: TokM::Ident(core), line }]
    } else {
        Seq::empty()
    };
    let tail = if end_tok {
        seq![TokenM { tok: TokM::End, line }]
    } else {
        Seq::empty()
    };
    head + ident_tokens(kws, line) + tail
}

// ---------------------------------------------------------------------
// The lexer
// ---------------------------------------------------------------------

/// The message for a string literal that is never closed.
pub open spec fn unclosed_string_msg(line: nat) -> Seq<char> {
    "E003 လိုင်း "@ + decimal(line) + " တွင် string တန်ဖိုးအတွက် ပိတ် '\"' မရှိပါ။"@
}

/// Puts tokens in front of a lexing result.
pub open spec fn prepend(ts: Seq<TokenM>, r: Result<Seq<TokenM>, Seq<char>>) -> Result<
    Seq<TokenM>,
    Seq<char>,
> {
    match r {
        Ok(rest) => Ok(ts + rest),
        Err(e) => Err(e),
    }
}

pub open spec fn tm(tok: TokM, line: nat) -> TokenM {
    TokenM { tok, line }
}

/// Lexes `cs` from index `i` on, with `line` the current line number.
pub open spec fn lex_from(cs: Seq<char>, i: int, line: nat) -> Result<Seq<TokenM>, Seq<char>>
    decreases cs.len() - i,
{
    if i < 0 || i >= cs.len() {
        Ok(Seq::empty())
    } else {
        let c = cs[i];
        let n = cs.len();
        if c == '\n' {
            lex_from(cs, i + 1, line + 1)
        } else if is_whitespace_spec(c) {
            lex_from(cs, i + 1, line)
        } else if c == '#' {
            let e = line_end(cs, i);
            if i < e <= n {
                lex_from(cs, e, line)
            } else {
                Ok(Seq::empty())
            }
        } else if c == '"' {
            let e = quote_end(cs, i + 1);
            if e >= n || e <= i {
                Err(unclosed_string_msg(line))
            } else {
                let content = cs.subrange(i + 1, e);
                prepend(
                    seq![tm(TokM::Str(content), line)],
                    lex_from(cs, e + 1, line + count_newlines(content)),
                )
            }
        } else if c == '+' || c == '-' || c == '*' || c == '/' || c == '%' {
            prepend(seq![tm(TokM::Op(c), line)], lex_from(cs, i + 1, line))
        } else if c == '[' {
            prepend(seq![tm(TokM::LBracket, line)], lex_from(cs, i + 1, line))
        } else if c == ']' {
            prepend(seq![tm(TokM::RBracket, line)], lex_from(cs, i + 1, line))
        } else if c == '(' {
            prepend(seq![tm(TokM::LParen, line)], lex_from(cs, i + 1, line))
        } else if c == ')' {
            prepend(seq![tm(TokM::RParen, line)], lex_from(cs, i + 1, line))
        } else if c == '{' {
            prepend(seq![tm(TokM::LBrace, line)], lex_from(cs, i + 1, line))
        } else if c == '}' {
            prepend(seq![tm(TokM::RBrace, line)], lex_from(cs, i + 1, line))
        } else if c == ',' {
            prepend(seq![tm(TokM::Comma, line)], lex_from(cs, i + 1, line))
        } else if c == '<' || c == '>' {
            if i + 1 < n && cs[i + 1] == '=' {
                prepend(seq![tm(TokM::Cmp(seq![c, '=']), line)], lex_from(cs, i + 2, line))
            } else {
                prepend(seq![tm(TokM::Cmp(seq![c]), line)], lex_from(cs, i + 1, line))
            }
        } else if c == '=' {
            if i + 1 < n && cs[i + 1] == '=' {
                prepend(seq![tm(TokM::Cmp(seq!['=', '=']), line)], lex_from(cs, i + 2, line))
            } else {
                lex_from(cs, i + 1, line)
            }
        } else if c == '!' {
            if i + 1 < n && cs[i + 1] == '=' {
                prepend(seq![tm(TokM::Cmp(seq!['!', '=']), line)], lex_from(cs, i + 2, line))
            } else {
                lex_from(cs, i + 1, line)
            }
        } else if is_digit_spec(c) {
            let (e, t) = num_scan(cs, i);
            if i < e <= n {
                prepend(seq![tm(TokM::Num(t), line)], lex_from(cs, e, line))
            } else {
                Ok(Seq::empty())
            }
        } else {
            let e = word_end(cs, i);
            if e <= i || e > n {
                lex_from(cs, i + 1, line)
            } else {
                prepend(word_tokens(cs.subrange(i, e), line), lex_from(cs, e, line))
            }
        }
    }
}

/// The characters that are lexed: the source without a leading byte-order mark.
pub open spec fn without_bom(src: Seq<char>) -> Seq<char> {
    if src.len() > 0 && src[0] == '\u{feff}' {
        src.drop_first()
    } else {
        src
    }
}

/// What lexing a whole source text gives: its tokens, or the message of
/// the first unclosed string literal.
pub open spec fn lex_spec(src: Seq<char>) -> Result<Seq<TokenM>, Seq<char>> {
    lex_from(without_bom(src), 0, 1)
}


// ---------------------------------------------------------------------
// Lemmas
// ---------------------------------------------------------------------

proof fn lemma_model_push(ts: Seq<Token>, t: Token)
    ensures
        tokens_model(ts.push(t)) == tokens_model(ts) + seq![t@],
{
    assert(tokens_model(ts.push(t)) =~= tokens_model(ts) + seq![t@]);
}

proof fn lemma_model_append(ts: Seq<Token>, more: Seq<Token>)
    ensures
        tokens_model(ts + more) == tokens_model(ts) + tokens_model(more),
{
    assert(tokens_model(ts + more) =~= tokens_model(ts) + tokens_model(more));
}

proof fn lemma_prepend_assoc(a: Seq<TokenM>, b: Seq<TokenM>, r: Result<Seq<TokenM>, Seq<char>>)
    ensures
        prepend(a, prepend(b, r)) == prepend(a + b, r),
{
    match r {
        Ok(x) => {
            assert(a + (b + x) =~= (a + b) + x);
        },
        Err(_) => {},
    }
}

proof fn lemma_count_newlines_push(s: Seq<char>, c: char)
    ensures
        count_newlines(s.push(c)) == count_newlines(s) + if c == '\n' { 1nat } else { 0nat },
{
    assert(s.push(c).drop_last() =~= s);
}

proof fn lemma_count_newlines_le(s: Seq<char>)
    ensures
        count_newlines(s) <= s.len(),
    decreases s.len(),
{
    if s.len() > 0 {
        lemma_count_newlines_le(s.drop_last());
    }
}

// ---------------------------------------------------------------------
// Word tokens
// ---------------------------------------------------------------------

fn ends_with_chars(core: &Vec<char>, kw: &Vec<char>) -> (r: bool)
    requires
        core@.len() >= kw@.len(),
    ensures
        r == (core@.subrange(core@.len() - kw@.len(), core@.len() as int) == kw@),
{
    let clen = core.len();
    let off = clen - kw.len();
    let mut j: usize = 0;
    while j < kw.len()
        invariant
            off == core@.len() - kw@.len(),
            core@.len() == off + kw@.len(),
            clen == core@.len(),
            j <= kw@.len(),
            forall|k: int| 0 <= k < j ==> core@[off + k] == kw@[k],
        decreases kw@.len() - j,
    {
        if core[off + j] != kw[j] {
            proof {
                let sub = core@.subrange(off as int, core@.len() as int);
                assert(sub[j as int] != kw@[j as int]);
            }
            return false;
        }
        j += 1;
    }
    proof {
        assert(core@.subrange(off as int, core@.len() as int) =~= kw@);
    }
    true
}

proof fn lemma_first_peel(core: Seq<char>, j: int)
    ensures
        first_peel_from(core, j) matches Some(k) ==> peels(core, suffix_keyword(k)) && j <= k < 13,
    decreases 13 - j,
{
    if 0 <= j < 13 && !peels(core, suffix_keyword(j)) {
        lemma_first_peel(core, j + 1);
    }
}

fn first_peel(core: &Vec<char>) -> (r: Option<usize>)
    ensures
        r matches Some(k) ==> first_peel_from(core@, 0) == Some(k as int) && k < 13,
        r is None ==> first_peel_from(core@, 0) is None,
{
    let mut k: usize = 0;
    while k < 13
        invariant
            k <= 13,
            first_peel_from(core@, 0) == first_peel_from(core@, k as int),
        decreases 13 - k,
    {
        let kw = chars_of(suffix_keyword_str(k));
        if core.len() > kw.len() && ends_with_chars(core, &kw) {
            return Some(k);
        }
        k += 1;
    }
    None
}

fn lex_word(w: Vec<char>, line: usize) -> (r: Vec<Token>)
    ensures
        tokens_model(r@) == word_tokens(w@, line as nat),
{
    let ghost w0 = w@;
    let mut core = w;
    let end_tok = core.len() > 0 && core[core.len() - 1] == '။';
    if end_tok {
        core.pop();
    }
    let ghost core0 = core@;
    proof {
        if end_tok {
            assert(core0 =~= w0.drop_last());
        }
    }
    // The keywords split off so far, by index, in the order they stand in the text.
    let mut order: Vec<usize> = Vec::new();
    loop
        invariant
            peel(core0) == (peel(core@).0, peel(core@).1 + order@.map_values(|k: usize| suffix_keyword(k as int))),
            forall|j: int| 0 <= j < order@.len() ==> order@[j] < 13,
        ensures
            first_peel_from(core@, 0) is None,
            peel(core0) == (peel(core@).0, peel(core@).1 + order@.map_values(|k: usize| suffix_keyword(k as int))),
            forall|j: int| 0 <= j < order@.len() ==> order@[j] < 13,
        decreases core@.len(),
    {
        match first_peel(&core) {
            Some(k) => {
                let kw = chars_of(suffix_keyword_str(k));
                proof {
                    lemma_first_peel(core@, 0);
                    lemma_suffix_keywords_nonempty();
                    assert(suffix_keyword(k as int).len() > 0);
                }
                let ghost before = core@;
                let ghost ord = order@;
                core.truncate(core.len() - kw.len());
                order.insert(0, k);
                proof {
                    assert(core@ =~= before.subrange(0, before.len() - kw@.len()));
                    let f = |k: usize| suffix_keyword(k as int);
                    assert(order@.map_values(f) =~= seq![suffix_keyword(k as int)] + ord.map_values(f));
                    let p = peel(core@).1;
                    assert(p.push(suffix_keyword(k as int)) + ord.map_values(f) =~= p + order@.map_values(f));
                }
            },
            None => {
                break;
            },
        }
    }
    let ghost kws = order@.map_values(|k: usize| suffix_keyword(k as int));
    proof {
        assert(peel(core@) == (core@, Seq::<Seq<char>>::empty()));
        assert(peel(core0).1 =~= kws);
    }
    let mut out: Vec<Token> = Vec::new();
    if core.len() > 0 {
        out.push(Token { tok: Tok::Ident(string_from_chars(core.as_slice())), line });
    }
    let ghost head = tokens_model(out@);
    let mut j: usize = 0;
    while j < order.len()
        invariant
            j <= order@.len(),
            kws == order@.map_values(|k: usize| suffix_keyword(k as int)),
            forall|q: int| 0 <= q < order@.len() ==> order@[q] < 13,
            tokens_model(out@) == head + ident_tokens(kws.take(j as int), line as nat),
        decreases order@.len() - j,
    {
        let s = String::from_str(suffix_keyword_str(order[j]));
        let ghost prev = out@;
        out.push(Token { tok: Tok::Ident(s), line });
        proof {
            lemma_model_push(prev, out@.last());
            assert(ident_tokens(kws.take(j + 1), line as nat) =~= ident_tokens(kws.take(j as int), line as nat).push(TokenM { tok: TokM::Ident(kws[j as int]), line: line as nat }));
        }
        j += 1;
    }
    proof {
        assert(kws.take(order@.len() as int) =~= kws);
    }
    if end_tok {
        let ghost prev = out@;
        out.push(Token { tok: Tok::End, line });
        proof {
            lemma_model_push(prev, out@.last());
        }
    }
    proof {
        let wt = word_tokens(w0, line as nat);
        assert(tokens_model(out@) =~= wt);
    }
    out
}


/// The lexing result `r` is the one that `m` describes.
pub open spec fn lex_result_is(r: Result<Vec<Token>, String>, m: Result<Seq<TokenM>, Seq<char>>) -> bool {
    match (r, m) {
        (Ok(v), Ok(t)) => tokens_model(v@) == t,
        (Err(e), Err(msg)) => e@ == msg,
        _ => false,
    }
}

fn unclosed_string_err(line: usize) -> (r: String)
    ensures
        r@ == unclosed_string_msg(line as nat),
{
    let mut s = String::from_str("E003 လိုင်း ");
    s.append(usize_to_string(line).as_str());
    s.append(" တွင် string တန်ဖိုးအတွက် ပိတ် '\"' မရှိပါ။");
    s
}

fn comparison_token(a: char, b: Option<char>, line: usize) -> (r: Token)
    ensures
        r@ == tm(TokM::Cmp(match b { Some(b) => seq![a, b], None => seq![a] }), line as nat),
{
    let mut v: Vec<char> = Vec::new();
    v.push(a);
    match b {
        Some(b) => v.push(b),
        None => {},
    }
    proof {
        match b {
            Some(bb) => assert(v@ =~= seq![a, bb]),
            None => assert(v@ =~= seq![a]),
        }
    }
    Token { tok: Tok::Cmp(string_from_chars(v.as_slice())), line }
}

fn scan_word(chars: &Vec<char>, start: usize) -> (r: (Vec<char>, usize))
    requires
        start <= chars@.len(),
    ensures
        r.1 == word_end(chars@, start as int),
        start <= r.1 <= chars@.len(),
        r.0@ == chars@.subrange(start as int, r.1 as int),
{
    let n = chars.len();
    let mut i = start;
    let mut w: Vec<char> = Vec::new();
    while i < n && !is_word_delim(chars[i])
        invariant
            n == chars@.len(),
            start <= i <= n,
            w@ == chars@.subrange(start as int, i as int),
            word_end(chars@, start as int) == word_end(chars@, i as int),
        decreases n - i,
    {
        w.push(chars[i]);
        i += 1;
        proof {
            assert(w@ =~= chars@.subrange(start as int, i as int));
        }
    }
    (w, i)
}

/// Lexes a whole source file into tokens. A leading byte-order mark is
/// ignored. Fails only on a string literal that is never closed.
pub fn lex(src: &str) -> (r: Result<Vec<Token>, String>)
    requires
        src@.len() < usize::MAX,
    ensures
        lex_result_is(r, lex_spec(src@)),
{
    let mut chars = chars_of(src);
    if chars.len() > 0 && chars[0] == '\u{feff}' {
        chars.remove(0);
    }
    let ghost cs = without_bom(src@);
    proof {
        assert(chars@ =~= cs);
    }
    let n = chars.len();
    let mut tokens: Vec<Token> = Vec::new();
    let mut i: usize = 0;
    let mut line: usize = 1;
    proof {
        assert(tokens_model(tokens@) =~= Seq::<TokenM>::empty());
        assert(prepend(Seq::<TokenM>::empty(), lex_from(cs, 0, 1)) == lex_from(cs, 0, 1)) by {
            match lex_from(cs, 0, 1) {
                Ok(x) => assert(Seq::<TokenM>::empty() + x =~= x),
                Err(_) => {},
            }
        }
    }
    while i < n
        invariant
            chars@ == cs,
            n == cs.len(),
            n < usize::MAX,
            i <= n,
            1 <= line <= i + 1,
            lex_spec(src@) == prepend(tokens_model(tokens@), lex_from(cs, i as int, line as nat)),
        decreases n - i,
    {
        let c = chars[i];
        let ghost i0 = i as int;
        let ghost line0 = line as nat;
        let ghost before = tokens@;
        if c == '\n' {
            line += 1;
            i += 1;
            continue;
        }
        if is_whitespace(c) {
            i += 1;
            continue;
        }
        if c == '#' {
            i += 1;
            while i < n && chars[i] != '\n'
                invariant
                    chars@ == cs,
                    n == cs.len(),
                    i0 < i <= n,
                    line_end(cs, i0) == line_end(cs, i as int),
                decreases n - i,
            {
                i += 1;
            }
            continue;
        }
        if c == '"' {
            let mut s: Vec<char> = Vec::new();
            let start_line = line;
            i += 1;
            proof {
                assert(s@ =~= cs.subrange(i0 + 1, i as int));
            }
            while i < n && chars[i] != '"'
                invariant
                    chars@ == cs,
                    n == cs.len(),
                    n < usize::MAX,
                    i0 + 1 <= i <= n,
                    start_line <= i0 + 1,
                    s@ == cs.subrange(i0 + 1, i as int),
                    line == start_line + count_newlines(s@),
                    quote_end(cs, i0 + 1) == quote_end(cs, i as int),
                decreases n - i,
            {
                let ch = chars[i];
                proof {
                    lemma_count_newlines_le(s@);
                    lemma_count_newlines_push(s@, ch);
                }
                if ch == '\n' {
                    line += 1;
                }
                s.push(ch);
                i += 1;
                proof {
                    assert(s@ =~= cs.subrange(i0 + 1, i as int));
                }
            }
            if i >= n {
                return Err(unclosed_string_err(start_line));
            }
            i += 1;
            proof {
                lemma_count_newlines_le(s@);
            }
            let t = Token { tok: Tok::Str(string_from_chars(s.as_slice())), line: start_line };
            tokens.push(t);
            proof {
                assert(lex_from(cs, i0, line0) == prepend(seq![t@], lex_from(cs, i as int, line as nat)));
                lemma_model_push(before, t);
                lemma_prepend_assoc(tokens_model(before), seq![t@], lex_from(cs, i as int, line as nat));
            }
            continue;
        }
        let single: Option<Tok> = if c == '+' || c == '-' || c == '*' || c == '/' || c == '%' {
            Some(Tok::Op(c))
        } else if c == '[' {
            Some(Tok::LBracket)
        } else if c == ']' {
            Some(Tok::RBracket)
        } else if c == '(' {
            Some(Tok::LParen)
        } else if c == ')' {
            Some(Tok::RParen)
        } else if c == '{' {
            Some(Tok::LBrace)
        } else if c == '}' {
            Some(Tok::RBrace)
        } else if c == ',' {
            Some(Tok::Comma)
        } else {
            None
        };
        if let Some(tok) = single {
            let t = Token { tok, line };
            tokens.push(t);
            i += 1;
            proof {
                lemma_model_push(before, t);
                lemma_prepend_assoc(tokens_model(before), seq![t@], lex_from(cs, i as int, line as nat));
            }
            continue;
        }
        if c == '<' || c == '>' || c == '=' || c == '!' {
            let followed = i + 1 < n && chars[i + 1] == '=';
            if followed {
                let t = comparison_token(c, Some('='), line);
                tokens.push(t);
                i += 2;
                proof {
                    lemma_model_push(before, t);
                    lemma_prepend_assoc(tokens_model(before), seq![t@], lex_from(cs, i as int, line as nat));
                }
            } else if c == '<' || c == '>' {
                let t = comparison_token(c, None, line);
                tokens.push(t);
                i += 1;
                proof {
                    lemma_model_push(before, t);
                    lemma_prepend_assoc(tokens_model(before), seq![t@], lex_from(cs, i as int, line as nat));
                }
            } else {
                i += 1;
            }
            continue;
        }
        if is_digit_char(c) {
            let mut s: Vec<char> = Vec::new();
            loop
                invariant
                    chars@ == cs,
                    n == cs.len(),
                    i0 <= i <= n,
                    s@.len() == i - i0,
                    num_scan(cs, i0) == (num_scan(cs, i as int).0, s@ + num_scan(cs, i as int).1),
                ensures
                    i0 <= i <= n,
                    s@.len() == i - i0,
                    num_scan(cs, i0) == (i as int, s@),
                decreases n - i,
            {
                if i >= n {
                    proof {
                        assert(s@ + Seq::<char>::empty() =~= s@);
                    }
                    break;
                }
                let cc = chars[i];
                let ghost rest = num_scan(cs, i as int + 1);
                if is_ascii_digit(cc) {
                    s.push(cc);
                    i += 1;
                    proof {
                        assert(s@.drop_last() + (seq![cc] + rest.1) =~= s@ + rest.1);
                    }
                } else if let Some(d) = myanmar_digit_to_ascii(cc) {
                    s.push(d);
                    i += 1;
                    proof {
                        assert(s@.drop_last() + (seq![d] + rest.1) =~= s@ + rest.1);
                    }
                } else if cc == '.' && i + 1 < n && is_digit_char(chars[i + 1]) {
                    s.push('.');
                    i += 1;
                    proof {
                        assert(s@.drop_last() + (seq!['.'] + rest.1) =~= s@ + rest.1);
                    }
                } else {
                    proof {
                        assert(s@ + Seq::<char>::empty() =~= s@);
                    }
                    break;
                }
            }
            let t = Token { tok: Tok::Num(string_from_chars(s.as_slice())), line };
            tokens.push(t);
            proof {
                lemma_model_push(before, t);
                lemma_prepend_assoc(tokens_model(before), seq![t@], lex_from(cs, i as int, line as nat));
            }
            continue;
        }
        let (w, e) = scan_word(&chars, i);
        i = e;
        if w.len() == 0 {
            i += 1;
            continue;
        }
        let mut more = lex_word(w, line);
        let ghost m = more@;
        tokens.append(&mut more);
        proof {
            lemma_model_append(before, m);
            lemma_prepend_assoc(tokens_model(before), tokens_model(m), lex_from(cs, i as int, line as nat));
        }
    }
    proof {
        match lex_spec(src@) {
            Ok(x) => assert(tokens_model(tokens@) + Seq::<TokenM>::empty() =~= tokens_model(tokens@)),
            Err(_) => {},
        }
    }
    Ok(tokens)
}

// ---------------------------------------------------------------------
// Laws
// ---------------------------------------------------------------------

/// The tokens all stand on line `l` or later, and no token stands on an
/// earlier line than one before it.
pub open spec fn lines_ordered_from(ts: Seq<TokenM>, l: nat) -> bool {
    &&& forall|k: int| 0 <= k < ts.len() ==> #[trigger] ts[k].line >= l
    &&& forall|j: int, k: int|
        0 <= j <= k < ts.len() ==> #[trigger] ts[j].line <= #[trigger] ts[k].line
}

/// The text of a numeral in ASCII: a digit first, then digits and points.
pub open spec fn ascii_numeral(t: Seq<char>) -> bool {
    &&& t.len() > 0
    &&& is_ascii_digit_spec(t[0])
    &&& forall|j: int| 0 <= j < t.len() ==> is_ascii_digit_spec(#[trigger] t[j]) || t[j] == '.'
}

/// Every number token holds an ASCII numeral.
pub open spec fn numerals_ascii(ts: Seq<TokenM>) -> bool {
    forall|k: int|
        0 <= k < ts.len() ==> ((#[trigger] ts[k]).tok matches TokM::Num(t) ==> ascii_numeral(t))
}

/// No character of `s` ends a word.
pub open spec fn no_delims(s: Seq<char>) -> bool {
    forall|j: int| 0 <= j < s.len() ==> !is_word_delim_spec(#[trigger] s[j])
}

/// A token keeps the shape of what it was read from: an identifier is not
/// empty and holds no character that ends a word, a string no quote, and a numeral ends in
/// a digit.
pub open spec fn token_shape(t: TokenM) -> bool {
    match t.tok {
        TokM::Ident(s) => s.len() > 0 && no_delims(s),
        TokM::Str(s) => forall|j: int| 0 <= j < s.len() ==> #[trigger] s[j] != '"',
        TokM::Num(s) => s.len() > 0 && is_ascii_digit_spec(s.last()),
        _ => true,
    }
}

/// Every token keeps its shape.
pub open spec fn shapes_ok(ts: Seq<TokenM>) -> bool {
    forall|k: int| 0 <= k < ts.len() ==> token_shape(#[trigger] ts[k])
}

proof fn lemma_num_scan_last(cs: Seq<char>, i: int)
    ensures
        num_scan(cs, i).1.len() > 0 ==> is_ascii_digit_spec(num_scan(cs, i).1.last()),
    decreases cs.len() - i,
{
    if 0 <= i < cs.len() {
        lemma_num_scan_last(cs, i + 1);
        lemma_num_scan_ascii(cs, i + 1);
        let rest = num_scan(cs, i + 1).1;
        let t = num_scan(cs, i).1;
        if t.len() > 0 {
            if rest.len() > 0 {
                assert(t.last() == rest.last());
            } else {
                assert(t.len() == 1);
            }
        }
    }
}

proof fn lemma_quote_end_free(cs: Seq<char>, j: int)
    requires
        0 <= j,
    ensures
        forall|k: int| j <= k < quote_end(cs, j) && k < cs.len() ==> cs[k] != '"',
    decreases cs.len() - j,
{
    if j < cs.len() && cs[j] != '"' {
        lemma_quote_end_free(cs, j + 1);
    }
}

proof fn lemma_word_end_free(cs: Seq<char>, i: int)
    requires
        0 <= i,
    ensures
        forall|k: int| i <= k < word_end(cs, i) && k < cs.len() ==> !is_word_delim_spec(cs[k]),
    decreases cs.len() - i,
{
    if i < cs.len() && !is_word_delim_spec(cs[i]) {
        lemma_word_end_free(cs, i + 1);
    }
}

proof fn lemma_peel_no_delims(core: Seq<char>)
    requires
        no_delims(core),
    ensures
        no_delims(peel(core).0),
        forall|k: int| 0 <= k < peel(core).1.len() ==> no_delims(#[trigger] peel(core).1[k])
            && peel(core).1[k].len() > 0,
    decreases core.len(),
{
    match first_peel_from(core, 0) {
        Some(k) => {
            let kw = suffix_keyword(k);
            if peels(core, kw) && kw.len() > 0 {
                let front = core.subrange(0, core.len() - kw.len());
                assert(no_delims(front)) by {
                    assert forall|j: int| 0 <= j < front.len() implies !is_word_delim_spec(#[trigger] front[j]) by {
                        assert(front[j] == core[j]);
                    }
                }
                lemma_peel_no_delims(front);
                let (rest, kws) = peel(front);
                assert(no_delims(kw)) by {
                    assert forall|j: int| 0 <= j < kw.len() implies !is_word_delim_spec(#[trigger] kw[j]) by {
                        assert(kw[j] == core.subrange(core.len() - kw.len(), core.len() as int)[j]);
                    }
                }
                let all = kws.push(kw);
                assert forall|q: int| 0 <= q < all.len() implies no_delims(#[trigger] all[q])
                    && all[q].len() > 0 by {
                    if q < kws.len() {
                        assert(all[q] == kws[q]);
                    }
                }
            }
        },
        None => {},
    }
}

proof fn lemma_word_tokens_shape(w: Seq<char>, line: nat)
    requires
        no_delims(w),
    ensures
        shapes_ok(word_tokens(w, line)),
{
    let end_tok = w.len() > 0 && w.last() == '။';
    let core0 = if end_tok { w.drop_last() } else { w };
    assert(no_delims(core0)) by {
        assert forall|j: int| 0 <= j < core0.len() implies !is_word_delim_spec(#[trigger] core0[j]) by {
            assert(core0[j] == w[j]);
        }
    }
    lemma_peel_no_delims(core0);
    let (core, kws) = peel(core0);
    let head = if core.len() > 0 {
        seq![TokenM { tok: TokM::Ident(core), line }]
    } else {
        Seq::empty()
    };
    let tail = if end_tok {
        seq![TokenM { tok: TokM::End, line }]
    } else {
        Seq::empty()
    };
    let mid = ident_tokens(kws, line);
    let all = word_tokens(w, line);
    assert(all == head + mid + tail);
    assert forall|k: int| 0 <= k < all.len() implies token_shape(#[trigger] all[k]) by {
        if k < head.len() {
            assert(all[k] == head[k]);
        } else if k < head.len() + mid.len() {
            assert(all[k] == mid[k - head.len()]);
            assert(mid[k - head.len()].tok == TokM::Ident(kws[k - head.len()]));
        } else {
            assert(all[k] == tail[k - head.len() - mid.len()]);
        }
    }
}

proof fn lemma_num_scan_ascii(cs: Seq<char>, i: int)
    ensures
        forall|j: int|
            0 <= j < num_scan(cs, i).1.len() ==> is_ascii_digit_spec(#[trigger] num_scan(cs, i).1[j])
                || num_scan(cs, i).1[j] == '.',
        0 <= i < cs.len() && is_digit_spec(cs[i]) ==> num_scan(cs, i).1.len() > 0
            && is_ascii_digit_spec(num_scan(cs, i).1[0]),
    decreases cs.len() - i,
{
    if 0 <= i < cs.len() {
        lemma_num_scan_ascii(cs, i + 1);
        let t = num_scan(cs, i).1;
        let rest = num_scan(cs, i + 1).1;
        let c = cs[i];
        if is_ascii_digit_spec(c) || myanmar_digit_spec(c) is Some || (c == '.' && i + 1 < cs.len()
            && is_digit_spec(cs[i + 1])) {
            assert forall|j: int| 0 <= j < t.len() implies is_ascii_digit_spec(#[trigger] t[j])
                || t[j] == '.' by {
                if j > 0 {
                    assert(t[j] == rest[j - 1]);
                }
            }
        }
    }
}

proof fn lemma_word_tokens_line(w: Seq<char>, line: nat)
    ensures
        forall|k: int|
            0 <= k < word_tokens(w, line).len() ==> (#[trigger] word_tokens(w, line)[k]).line == line
                && !(word_tokens(w, line)[k].tok is Num),
{
    let end_tok = w.len() > 0 && w.last() == '။';
    let core0 = if end_tok { w.drop_last() } else { w };
    let (core, kws) = peel(core0);
    let head = if core.len() > 0 {
        seq![TokenM { tok: TokM::Ident(core), line }]
    } else {
        Seq::empty()
    };
    let tail = if end_tok {
        seq![TokenM { tok: TokM::End, line }]
    } else {
        Seq::empty()
    };
    let mid = ident_tokens(kws, line);
    let all = word_tokens(w, line);
    assert(all == head + mid + tail);
    assert forall|k: int| 0 <= k < all.len() implies (#[trigger] all[k]).line == line && !(
    all[k].tok is Num) by {
        if k < head.len() {
            assert(all[k] == head[k]);
        } else if k < head.len() + mid.len() {
            assert(all[k] == mid[k - head.len()]);
        } else {
            assert(all[k] == tail[k - head.len() - mid.len()]);
        }
    }
}

proof fn lemma_prepend_laws(
    xs: Seq<TokenM>,
    r: Result<Seq<TokenM>, Seq<char>>,
    line: nat,
    line2: nat,
)
    requires
        forall|k: int| 0 <= k < xs.len() ==> (#[trigger] xs[k]).line == line,
        numerals_ascii(xs),
        shapes_ok(xs),
        line <= line2,
        r matches Ok(rs) ==> lines_ordered_from(rs, line2) && numerals_ascii(rs) && shapes_ok(rs),
    ensures
        prepend(xs, r) matches Ok(ts) ==> lines_ordered_from(ts, line) && numerals_ascii(ts)
            && shapes_ok(ts),
{
    if let Ok(rs) = r {
        let ts = xs + rs;
        assert forall|k: int| 0 <= k < ts.len() implies token_shape(#[trigger] ts[k]) by {
            if k >= xs.len() {
                assert(ts[k] == rs[k - xs.len()]);
            } else {
                assert(ts[k] == xs[k]);
            }
        }
        assert forall|k: int| 0 <= k < ts.len() implies #[trigger] ts[k].line >= line by {
            if k >= xs.len() {
                assert(ts[k] == rs[k - xs.len()]);
            }
        }
        assert forall|j: int, k: int| 0 <= j <= k < ts.len() implies #[trigger] ts[j].line
            <= #[trigger] ts[k].line by {
            if k >= xs.len() {
                assert(ts[k] == rs[k - xs.len()]);
                if j >= xs.len() {
                    assert(ts[j] == rs[j - xs.len()]);
                }
            }
        }
        assert forall|k: int| 0 <= k < ts.len() implies ((#[trigger] ts[k]).tok matches TokM::Num(
            t,
        ) ==> ascii_numeral(t)) by {
            if k >= xs.len() {
                assert(ts[k] == rs[k - xs.len()]);
            } else {
                assert(ts[k] == xs[k]);
            }
        }
    }
}

proof fn lemma_lex_from_laws(cs: Seq<char>, i: int, line: nat)
    ensures
        lex_from(cs, i, line) matches Ok(ts) ==> lines_ordered_from(ts, line) && numerals_ascii(
            ts,
        ) && shapes_ok(ts),
    decreases cs.len() - i,
{
    if 0 <= i < cs.len() {
        let c = cs[i];
        let n = cs.len();
        if c == '\n' {
            lemma_lex_from_laws(cs, i + 1, line + 1);
        } else if is_whitespace_spec(c) {
            lemma_lex_from_laws(cs, i + 1, line);
        } else if c == '#' {
            let e = line_end(cs, i);
            if i < e <= n {
                lemma_lex_from_laws(cs, e, line);
            }
        } else if c == '"' {
            let e = quote_end(cs, i + 1);
            if !(e >= n || e <= i) {
                let content = cs.subrange(i + 1, e);
                lemma_quote_end_free(cs, i + 1);
                assert(token_shape(tm(TokM::Str(content), line)));
                lemma_lex_from_laws(cs, e + 1, line + count_newlines(content));
                lemma_prepend_laws(
                    seq![tm(TokM::Str(content), line)],
                    lex_from(cs, e + 1, line + count_newlines(content)),
                    line,
                    line + count_newlines(content),
                );
            }
        } else if c == '+' || c == '-' || c == '*' || c == '/' || c == '%' || c == '[' || c == ']'
            || c == '(' || c == ')' || c == '{' || c == '}' || c == ',' {
            lemma_lex_from_laws(cs, i + 1, line);
            let tok = if c == '[' {
                TokM::LBracket
            } else if c == ']' {
                TokM::RBracket
            } else if c == '(' {
                TokM::LParen
            } else if c == ')' {
                TokM::RParen
            } else if c == '{' {
                TokM::LBrace
            } else if c == '}' {
                TokM::RBrace
            } else if c == ',' {
                TokM::Comma
            } else {
                TokM::Op(c)
            };
            lemma_prepend_laws(seq![tm(tok, line)], lex_from(cs, i + 1, line), line, line);
        } else if c == '<' || c == '>' || c == '=' || c == '!' {
            if i + 1 < n && cs[i + 1] == '=' {
                lemma_lex_from_laws(cs, i + 2, line);
                lemma_prepend_laws(
                    seq![tm(TokM::Cmp(seq![c, '=']), line)],
                    lex_from(cs, i + 2, line),
                    line,
                    line,
                );
            } else {
                lemma_lex_from_laws(cs, i + 1, line);
                lemma_prepend_laws(
                    seq![tm(TokM::Cmp(seq![c]), line)],
                    lex_from(cs, i + 1, line),
                    line,
                    line,
                );
            }
        } else if is_digit_spec(c) {
            let (e, t) = num_scan(cs, i);
            if i < e <= n {
                lemma_num_scan_ascii(cs, i);
                lemma_num_scan_last(cs, i);
                lemma_lex_from_laws(cs, e, line);
                lemma_prepend_laws(seq![tm(TokM::Num(t), line)], lex_from(cs, e, line), line, line);
            }
        } else {
            let e = word_end(cs, i);
            if e <= i || e > n {
                lemma_lex_from_laws(cs, i + 1, line);
            } else {
                let w = cs.subrange(i, e);
                lemma_word_end_free(cs, i);
                assert(no_delims(w)) by {
                    assert forall|j: int| 0 <= j < w.len() implies !is_word_delim_spec(#[trigger] w[j]) by {
                        assert(w[j] == cs[i + j]);
                    }
                }
                lemma_word_tokens_line(w, line);
                lemma_word_tokens_shape(w, line);
                lemma_lex_from_laws(cs, e, line);
                lemma_prepend_laws(word_tokens(w, line), lex_from(cs, e, line), line, line);
            }
        }
    }
}

/// Tokens stand on line 1 or later, in the order of their lines: a token
/// never names an earlier line than one before it.
pub proof fn law_token_lines_ordered(src: Seq<char>)
    ensures
        lex_spec(src) matches Ok(ts) ==> lines_ordered_from(ts, 1),
{
    lemma_lex_from_laws(without_bom(src), 0, 1);
}

/// Numbers may be written in Myanmar or ASCII digits; every number token
/// holds ASCII digits (and decimal points), starting with a digit.
pub proof fn law_numerals_in_ascii(src: Seq<char>)
    ensures
        lex_spec(src) matches Ok(ts) ==> numerals_ascii(ts),
{
    lemma_lex_from_laws(without_bom(src), 0, 1);
}

/// Tokens keep their shape: an identifier is not empty and holds no
/// character that ends a word (white space, a quote, `#`, an operator, a bracket, a comma, `<`,
/// `>`, `=` or `!`), a string holds no quote, and a numeral ends in a digit.
pub proof fn law_token_shapes(src: Seq<char>)
    ensures
        lex_spec(src) matches Ok(ts) ==> shapes_ok(ts),
{
    lemma_lex_from_laws(without_bom(src), 0, 1);
}

/// A byte-order mark at the start of the source changes nothing.
pub proof fn law_bom_ignored(src: Seq<char>)
    requires
        src.len() == 0 || src[0] != '\u{feff}',
    ensures
        lex_spec(seq!['\u{feff}'] + src) == lex_spec(src),
{
    assert((seq!['\u{feff}'] + src).drop_first() =~= src);
}

/// The text a token stands for in a word: an identifier its characters,
/// the terminator `။`; other tokens none.
pub open spec fn token_text(t: TokenM) -> Seq<char> {
    match t.tok {
        TokM::Ident(s) => s,
        TokM::End => seq!['။'],
        _ => Seq::empty(),
    }
}

/// The texts of the tokens, one after the other.
pub open spec fn tokens_text(ts: Seq<TokenM>) -> Seq<char>
    decreases ts.len(),
{
    if ts.len() == 0 {
        Seq::empty()
    } else {
        tokens_text(ts.drop_last()) + token_text(ts.last())
    }
}

/// The words one after the other.
pub open spec fn concat_all(ws: Seq<Seq<char>>) -> Seq<char>
    decreases ws.len(),
{
    if ws.len() == 0 {
        Seq::empty()
    } else {
        concat_all(ws.drop_last()) + ws.last()
    }
}

proof fn lemma_tokens_text_append(a: Seq<TokenM>, b: Seq<TokenM>)
    ensures
        tokens_text(a + b) == tokens_text(a) + tokens_text(b),
    decreases b.len(),
{
    if b.len() == 0 {
        assert(a + b =~= a);
        assert(tokens_text(a) + Seq::<char>::empty() =~= tokens_text(a));
    } else {
        lemma_tokens_text_append(a, b.drop_last());
        assert((a + b).drop_last() =~= a + b.drop_last());
        assert((a + b).last() == b.last());
        assert(tokens_text(a) + tokens_text(b.drop_last()) + token_text(b.last()) =~= tokens_text(a)
            + (tokens_text(b.drop_last()) + token_text(b.last())));
    }
}

proof fn lemma_ident_tokens_text(kws: Seq<Seq<char>>, line: nat)
    ensures
        tokens_text(ident_tokens(kws, line)) == concat_all(kws),
    decreases kws.len(),
{
    if kws.len() > 0 {
        lemma_ident_tokens_text(kws.drop_last(), line);
        assert(ident_tokens(kws, line).drop_last() =~= ident_tokens(kws.drop_last(), line));
    }
}

proof fn lemma_peel_text(core: Seq<char>)
    ensures
        peel(core).0 + concat_all(peel(core).1) == core,
    decreases core.len(),
{
    match first_peel_from(core, 0) {
        Some(k) => {
            let kw = suffix_keyword(k);
            if peels(core, kw) && kw.len() > 0 {
                let front = core.subrange(0, core.len() - kw.len());
                lemma_peel_text(front);
                let (rest, kws) = peel(front);
                assert(kws.push(kw).drop_last() =~= kws);
                assert(rest + (concat_all(kws) + kw) =~= (rest + concat_all(kws)) + kw);
                assert(front + kw =~= core);
            } else {
                assert(core + Seq::<char>::empty() =~= core);
            }
        },
        None => {
            assert(core + Seq::<char>::empty() =~= core);
        },
    }
}

/// Splitting a word into tokens loses no character and adds none: keyword
/// suffixes split off its end, the terminator `။` fused onto it, and what
/// is left of it, put back one after the other, are the word.
pub proof fn law_word_split_keeps_text(w: Seq<char>, line: nat)
    ensures
        tokens_text(word_tokens(w, line)) == w,
{
    let end_tok = w.len() > 0 && w.last() == '။';
    let core0 = if end_tok { w.drop_last() } else { w };
    let (core, kws) = peel(core0);
    let head = if core.len() > 0 {
        seq![TokenM { tok: TokM::Ident(core), line }]
    } else {
        Seq::empty()
    };
    let tail = if end_tok {
        seq![TokenM { tok: TokM::End, line }]
    } else {
        Seq::empty()
    };
    let mid = ident_tokens(kws, line);
    lemma_tokens_text_append(head + mid, tail);
    lemma_tokens_text_append(head, mid);
    lemma_ident_tokens_text(kws, line);
    lemma_peel_text(core0);
    if core.len() > 0 {
        assert(head.drop_last() =~= Seq::<TokenM>::empty());
        assert(tokens_text(head.drop_last()) =~= Seq::<char>::empty());
        assert(token_text(head.last()) == core);
        assert(tokens_text(head) =~= core);
    } else {
        assert(tokens_text(head) =~= Seq::<char>::empty());
        assert(core =~= Seq::<char>::empty());
    }
    if end_tok {
        assert(tail.drop_last() =~= Seq::<TokenM>::empty());
        assert(tokens_text(tail.drop_last()) =~= Seq::<char>::empty());
        assert(tokens_text(tail) =~= seq!['။']);
        assert(core0.push('။') =~= w);
    } else {
        assert(tokens_text(tail) =~= Seq::<char>::empty());
    }
    assert(tokens_text(word_tokens(w, line)) =~= w);
}

/// The value of a decimal digit, ASCII (`0`..`9`) or Myanmar (`၀`..`၉`,
/// U+1040..U+1049); -1 for any other character.
pub open spec fn digit_value(c: char) -> int {
    if '0' <= c && c <= '9' {
        c as int - 0x30
    } else if '\u{1040}' <= c && c <= '\u{1049}' {
        c as int - 0x1040
    } else {
        -1
    }
}

proof fn lemma_myanmar_digit_value(c: char)
    ensures
        myanmar_digit_spec(c) is Some <==> ('\u{1040}' <= c && c <= '\u{1049}'),
        myanmar_digit_spec(c) matches Some(d) ==> is_ascii_digit_spec(d) && digit_value(d)
            == digit_value(c),
{
}

/// Each Myanmar digit stands for the ASCII digit of the same value, and
/// only the ten Myanmar digits are read as such.
pub proof fn law_myanmar_digits(c: char)
    ensures
        myanmar_digit_spec(c) is Some <==> ('\u{1040}' <= c && c <= '\u{1049}'),
        myanmar_digit_spec(c) matches Some(d) ==> d as int == c as int - 0x1040 + 0x30,
{
    lemma_myanmar_digit_value(c);
}

/// A numeral keeps its digits' values: the text scanned from `i` is as long
/// as the stretch it covers, and each of its characters is the decimal
/// point of the source or an ASCII digit of the same value as the source's
/// digit (Myanmar or ASCII) at that place.
pub proof fn law_numeral_digit_values(cs: Seq<char>, i: int)
    requires
        0 <= i,
    ensures
        ({
            let (e, t) = num_scan(cs, i);
            &&& t.len() == e - i
            &&& forall|j: int| 0 <= j < t.len() ==> (t[j] == '.' && cs[i + j] == '.') || (
                is_ascii_digit_spec(#[trigger] t[j]) && digit_value(t[j]) == digit_value(cs[i + j]))
        }),
    decreases cs.len() - i,
{
    if i < cs.len() {
        let c = cs[i];
        lemma_myanmar_digit_value(c);
        if is_ascii_digit_spec(c) || myanmar_digit_spec(c) is Some || (c == '.' && i + 1 < cs.len()
            && is_digit_spec(cs[i + 1])) {
            law_numeral_digit_values(cs, i + 1);
            let (e, t) = num_scan(cs, i);
            let (e1, t1) = num_scan(cs, i + 1);
            assert forall|j: int| 0 <= j < t.len() implies (t[j] == '.' && cs[i + j] == '.') || (
                is_ascii_digit_spec(#[trigger] t[j]) && digit_value(t[j]) == digit_value(cs[i + j])) by {
                if j > 0 {
                    assert(t[j] == t1[j - 1]);
                    assert(cs[i + j] == cs[(i + 1) + (j - 1)]);
                }
            }
        }
    }
}

/// A Myanmar digit alone lexes to one number token, on line 1, holding the
/// ASCII digit of the same value.
pub proof fn law_myanmar_digit_lexes(k: int)
    requires
        0 <= k < 10,
    ensures
        lex_spec(seq![(0x1040 + k) as char]) == Ok::<Seq<TokenM>, Seq<char>>(seq![tm(TokM::Num(seq![(0x30 + k) as char]), 1)]),
{
    let c = (0x1040 + k) as char;
    let cs = seq![c];
    lemma_myanmar_digit_value(c);
    assert(without_bom(cs) == cs);
    assert(num_scan(cs, 1) == (1int, Seq::<char>::empty()));
    assert(num_scan(cs, 0) == (1int, seq![myanmar_digit_spec(c)->0]));
    assert(lex_from(cs, 1, 1) == Ok::<Seq<TokenM>, Seq<char>>(Seq::<TokenM>::empty()));
    assert(seq![tm(TokM::Num(seq![myanmar_digit_spec(c)->0]), 1)] + Seq::<TokenM>::empty()
        =~= seq![tm(TokM::Num(seq![(0x30 + k) as char]), 1)]);
}

} // verus!
