//! Reading string fields out of flat JSON text without a JSON parser: good
//! enough for release metadata and the package index, not a general parser.
use vstd::prelude::*;

use crate::text::{chars_of, is_whitespace, string_from_chars, sub_chars, ws_end};

verus! {

/// `pat` stands in `s` at index `i`.
pub open spec fn matches_at(s: Seq<char>, pat: Seq<char>, i: int) -> bool {
    0 <= i && i + pat.len() <= s.len() && s.subrange(i, i + pat.len()) == pat
}

/// The first index at or after `i` where `pat` stands in `s`.
pub open spec fn find_from(s: Seq<char>, pat: Seq<char>, i: int) -> Option<int>
    decreases s.len() + 1 - i,
{
    if i < 0 || i + pat.len() > s.len() {
        None
    } else if matches_at(s, pat, i) {
        Some(i)
    } else {
        find_from(s, pat, i + 1)
    }
}

/// The text `"<field>":` that introduces a field.
pub open spec fn field_needle(field: Seq<char>) -> Seq<char> {
    seq!['"'] + field + seq!['"', ':']
}

/// The string value of the first `"<field>": "<value>"` in `body`: the
/// first occurrence of `"<field>":`, then optional white space, then a
/// quoted value (which may not hold a quote).
pub open spec fn json_field_spec(body: Seq<char>, field: Seq<char>) -> Option<Seq<char>> {
    let needle = field_needle(field);
    match find_from(body, needle, 0) {
        None => None,
        Some(p) => {
            let st = ws_end(body, p + needle.len());
            if 0 <= st < body.len() && body[st] == '"' {
                match find_from(body, seq!['"'], st + 1) {
                    Some(e) => Some(body.subrange(st + 1, e)),
                    None => None,
                }
            } else {
                None
            }
        },
    }
}

/// The quoted entries of `a` from index `i` on, in order.
pub open spec fn quoted_entries(a: Seq<char>, i: int) -> Seq<Seq<char>>
    decreases a.len() - i,
{
    match find_from(a, seq!['"'], i) {
        None => Seq::empty(),
        Some(q) => match find_from(a, seq!['"'], q + 1) {
            None => Seq::empty(),
            Some(e) => if i <= q < e < a.len() {
                seq![a.subrange(q + 1, e)] + quoted_entries(a, e + 1)
            } else {
                Seq::empty()
            },
        },
    }
}

/// The quoted string entries of the array in the first `"<field>": [...]`
/// of `body`, in order; nothing when there is no such field or array.
pub open spec fn json_array_spec(body: Seq<char>, field: Seq<char>) -> Seq<Seq<char>> {
    let needle = field_needle(field);
    match find_from(body, needle, 0) {
        None => Seq::empty(),
        Some(p) => match find_from(body, seq!['['], p + needle.len()) {
            None => Seq::empty(),
            Some(open) => match find_from(body, seq![']'], open) {
                None => Seq::empty(),
                Some(close) => if open + 1 <= close {
                    quoted_entries(body.subrange(open + 1, close), 0)
                } else {
                    Seq::empty()
                },
            },
        },
    }
}

proof fn lemma_find_from(s: Seq<char>, pat: Seq<char>, i: int)
    ensures
        find_from(s, pat, i) matches Some(k) ==> i <= k && k + pat.len() <= s.len() && matches_at(
            s,
            pat,
            k,
        ) && forall|j: int| i <= j < k ==> !matches_at(s, pat, j),
    decreases s.len() + 1 - i,
{
    if !(i < 0 || i + pat.len() > s.len()) && !matches_at(s, pat, i) {
        lemma_find_from(s, pat, i + 1);
    }
}

/// Between `i` and the first quote found from `i` on there is no quote.
proof fn lemma_no_quote_before(s: Seq<char>, i: int)
    ensures
        find_from(s, seq!['"'], i) matches Some(e) ==> i <= e < s.len() && s[e] == '"' && forall|
            j: int,
        |
            i <= j < e ==> s[j] != '"',
{
    lemma_find_from(s, seq!['"'], i);
    if let Some(e) = find_from(s, seq!['"'], i) {
        assert(s.subrange(e, e + 1)[0] == s[e]);
        assert forall|j: int| i <= j < e implies s[j] != '"' by {
            assert(!matches_at(s, seq!['"'], j));
            if s[j] == '"' {
                assert(s.subrange(j, j + 1) =~= seq!['"']);
            }
        }
    }
}

fn matches_here(s: &Vec<char>, pat: &Vec<char>, i: usize) -> (r: bool)
    requires
        i + pat@.len() <= s@.len(),
    ensures
        r == matches_at(s@, pat@, i as int),
{
    let n = s.len();
    let m = pat.len();
    let mut j: usize = 0;
    while j < m
        invariant
            n == s@.len(),
            m == pat@.len(),
            i + m <= n,
            j <= m,
            forall|q: int| 0 <= q < j ==> s@[i + q] == pat@[q],
        decreases m - j,
    {
        if s[i + j] != pat[j] {
            proof {
                assert(s@.subrange(i as int, i + m)[j as int] != pat@[j as int]);
            }
            return false;
        }
        j += 1;
    }
    proof {
        assert(s@.subrange(i as int, i + m) =~= pat@);
    }
    true
}

/// The first index at or after `from` where `pat` stands in `s`.
fn find_chars(s: &Vec<char>, pat: &Vec<char>, from: usize) -> (r: Option<usize>)
    ensures
        r matches Some(k) ==> find_from(s@, pat@, from as int) == Some(k as int) && from <= k
            && k + pat@.len() <= s@.len(),
        r is None ==> find_from(s@, pat@, from as int) is None,
{
    let n = s.len();
    let m = pat.len();
    if m > n {
        return None;
    }
    if m == 0 {
        if from <= n {
            proof {
                assert(s@.subrange(from as int, from as int) =~= pat@);
            }
            return Some(from);
        }
        return None;
    }
    let mut i = from;
    while i <= n - m
        invariant
            n == s@.len(),
            m == pat@.len(),
            1 <= m <= n,
            from <= i,
            find_from(s@, pat@, from as int) == find_from(s@, pat@, i as int),
        decreases n - m + 1 - i,
    {
        if matches_here(s, pat, i) {
            return Some(i);
        }
        i += 1;
    }
    None
}

fn skip_ws(s: &Vec<char>, from: usize) -> (r: usize)
    requires
        from <= s@.len(),
    ensures
        r == ws_end(s@, from as int),
        from <= r <= s@.len(),
{
    let mut i = from;
    while i < s.len() && is_whitespace(s[i])
        invariant
            from <= i <= s@.len(),
            ws_end(s@, from as int) == ws_end(s@, i as int),
        decreases s@.len() - i,
    {
        i += 1;
    }
    i
}

fn one_char(c: char) -> (r: Vec<char>)
    ensures
        r@ == seq![c],
{
    let mut v: Vec<char> = Vec::new();
    v.push(c);
    proof {
        assert(v@ =~= seq![c]);
    }
    v
}

fn needle_of(field: &str) -> (r: Vec<char>)
    ensures
        r@ == field_needle(field@),
{
    let mut v = one_char('"');
    let mut f = chars_of(field);
    v.append(&mut f);
    v.push('"');
    v.push(':');
    proof {
        assert(v@ =~= field_needle(field@));
    }
    v
}

/// Pulls `"field": "value"` out of a flat JSON body.
pub fn extract_json_string_field(body: &str, field: &str) -> (r: Option<String>)
    ensures
        match (r, json_field_spec(body@, field@)) {
            (Some(s), Some(m)) => s@ == m,
            (None, None) => true,
            _ => false,
        },
{
    let b = chars_of(body);
    let n = b.len();
    let needle = needle_of(field);
    let p = match find_chars(&b, &needle, 0) {
        Some(p) => p,
        None => return None,
    };
    let st = skip_ws(&b, p + needle.len());
    if st < b.len() && b[st] == '"' {
        let quote = one_char('"');
        match find_chars(&b, &quote, st + 1) {
            Some(e) => {
                let v = sub_chars(b.as_slice(), st + 1, e);
                Some(string_from_chars(v.as_slice()))
            },
            None => None,
        }
    } else {
        None
    }
}

/// Pulls the quoted string entries out of a `"field": ["a", "b", ...]` JSON
/// array.
pub fn extract_json_string_array(body: &str, field: &str) -> (r: Vec<String>)
    ensures
        r@.map_values(|s: String| s@) == json_array_spec(body@, field@),
{
    let mut names: Vec<String> = Vec::new();
    proof {
        assert(names@.map_values(|s: String| s@) =~= Seq::<Seq<char>>::empty());
    }
    let b = chars_of(body);
    let n = b.len();
    let needle = needle_of(field);
    let p = match find_chars(&b, &needle, 0) {
        Some(p) => p,
        None => return names,
    };
    let open = match find_chars(&b, &one_char('['), p + needle.len()) {
        Some(o) => o,
        None => return names,
    };
    let close = match find_chars(&b, &one_char(']'), open) {
        Some(c) => c,
        None => return names,
    };
    if open + 1 > close {
        return names;
    }
    let a = sub_chars(b.as_slice(), open + 1, close);
    let quote = one_char('"');
    let mut i: usize = 0;
    let ghost all = quoted_entries(a@, 0);
    proof {
        assert(names@.map_values(|s: String| s@) + quoted_entries(a@, 0) =~= all);
    }
    while i <= a.len()
        invariant
            all == json_array_spec(body@, field@),
            i <= a@.len() + 1,
            quote@ == seq!['"'],
            all == names@.map_values(|s: String| s@) + quoted_entries(a@, i as int),
        decreases a@.len() + 1 - i,
    {
        let q = match find_chars(&a, &quote, i) {
            Some(q) => q,
            None => {
                proof {
                    assert(names@.map_values(|s: String| s@) + Seq::<Seq<char>>::empty() =~= names@.map_values(|s: String| s@));
                }
                return names;
            },
        };
        let e = match find_chars(&a, &quote, q + 1) {
            Some(e) => e,
            None => {
                proof {
                    assert(names@.map_values(|s: String| s@) + Seq::<Seq<char>>::empty() =~= names@.map_values(|s: String| s@));
                }
                return names;
            },
        };
        let entry = sub_chars(a.as_slice(), q + 1, e);
        let ghost before = names@;
        names.push(string_from_chars(entry.as_slice()));
        proof {
            let f = |s: String| s@;
            assert(names@.map_values(f) =~= before.map_values(f).push(entry@));
            assert(before.map_values(f) + (seq![entry@] + quoted_entries(a@, e + 1)) =~= names@.map_values(f) + quoted_entries(a@, e + 1));
        }
        i = e + 1;
    }
    proof {
        assert(quoted_entries(a@, i as int) =~= Seq::<Seq<char>>::empty());
        assert(names@.map_values(|s: String| s@) + Seq::<Seq<char>>::empty() =~= names@.map_values(|s: String| s@));
    }
    names
}

/// No quote stands in `t`.
pub open spec fn unquoted(t: Seq<char>) -> bool {
    forall|k: int| 0 <= k < t.len() ==> t[k] != '"'
}

proof fn lemma_entries_unquoted(a: Seq<char>, i: int)
    ensures
        forall|k: int|
            0 <= k < quoted_entries(a, i).len() ==> unquoted(#[trigger] quoted_entries(a, i)[k]),
    decreases a.len() - i,
{
    if let Some(q) = find_from(a, seq!['"'], i) {
        if let Some(e) = find_from(a, seq!['"'], q + 1) {
            if i <= q < e < a.len() {
                lemma_no_quote_before(a, q + 1);
                lemma_entries_unquoted(a, e + 1);
                let rest = quoted_entries(a, e + 1);
                let all = quoted_entries(a, i);
                assert forall|k: int| 0 <= k < all.len() implies unquoted(#[trigger] all[k]) by {
                    if k > 0 {
                        assert(all[k] == rest[k - 1]);
                    }
                }
            }
        }
    }
}

/// A string read out of JSON text never holds a quote: it ends at the
/// first quote after the one that opens it. This holds of a field's value
/// and of every entry of an array.
pub proof fn law_json_strings_unquoted(body: Seq<char>, field: Seq<char>)
    ensures
        json_field_spec(body, field) matches Some(v) ==> unquoted(v),
        forall|k: int|
            0 <= k < json_array_spec(body, field).len() ==> unquoted(
                #[trigger] json_array_spec(body, field)[k],
            ),
{
    let needle = field_needle(field);
    if let Some(p) = find_from(body, needle, 0) {
        let st = ws_end(body, p + needle.len());
        if 0 <= st < body.len() && body[st] == '"' {
            lemma_no_quote_before(body, st + 1);
        }
        if let Some(open) = find_from(body, seq!['['], p + needle.len()) {
            if let Some(close) = find_from(body, seq![']'], open) {
                if open + 1 <= close {
                    lemma_entries_unquoted(body.subrange(open + 1, close), 0);
                }
            }
        }
    }
}

} // verus!
