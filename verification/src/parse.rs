//! The Value Parser: recursive descent over one normalized element,
//! producing a generic value tree or a structural error.  The grammar is
//! the dialect's: objects, arrays, double-quoted strings without escapes,
//! numbers kept as their source text, `true`, `false` and `null`, with
//! whitespace ignored between tokens.

use vstd::prelude::*;
use crate::value::{
    JsonValue, JsonSpec, pairs_view, items_view, entries_ok, items_ok, upsert_pairs,
    upsert_entry, lemma_upsert_wf, lemma_wf_object, lemma_wf_array, lemma_object_view,
    lemma_array_view,
};
use crate::error::SchemaError;

verus! {

/// Whitespace the dialect ignores between tokens.
pub open spec fn is_ws_char(c: char) -> bool {
    c == ' ' || c == '\t' || c == '\n' || c == '\r'
}

/// A decimal digit.
pub open spec fn is_digit_char(c: char) -> bool {
    48 <= c as u32 && c as u32 <= 57
}

/// A character that may continue a number token.
pub open spec fn is_number_char(c: char) -> bool {
    is_digit_char(c) || c == '-' || c == '+' || c == '.' || c == 'e' || c == 'E'
}

/// `x` clamped into `[lo, hi]`.  Positions handed along the parse are
/// clamped so that progress is plain from the text alone; a successful
/// parse never leaves the bounds, and there the clamp changes nothing.
pub open spec fn clamp(lo: int, hi: int, x: int) -> int {
    if x < lo {
        lo
    } else if x > hi {
        hi
    } else {
        x
    }
}

/// The first position at or after `i` holding a non-whitespace character,
/// or the end of the text.
pub open spec fn skip_ws_spec(s: Seq<char>, i: int) -> int
    decreases s.len() - i,
{
    if i < 0 || i >= s.len() {
        i
    } else if is_ws_char(s[i]) {
        skip_ws_spec(s, i + 1)
    } else {
        i
    }
}

/// `skip_ws_spec`, clamped into `[i, len]`.
pub open spec fn ws_at(s: Seq<char>, i: int) -> int {
    clamp(i, s.len() as int, skip_ws_spec(s, i))
}

/// The position of the closing double quote at or after `i`, or the text
/// length when none follows.
pub open spec fn string_end(s: Seq<char>, i: int) -> int
    decreases s.len() - i,
{
    if i < 0 || i >= s.len() {
        s.len() as int
    } else if s[i] == '"' {
        i
    } else {
        string_end(s, i + 1)
    }
}

/// The first position at or after `i` not holding a number character.
pub open spec fn number_end(s: Seq<char>, i: int) -> int
    decreases s.len() - i,
{
    if i < 0 || i >= s.len() {
        i
    } else if is_number_char(s[i]) {
        number_end(s, i + 1)
    } else {
        i
    }
}

/// True when the text `lit` occurs in `s` at position `i`.
pub open spec fn lit_at(s: Seq<char>, i: int, lit: Seq<char>) -> bool {
    0 <= i && i + lit.len() <= s.len() && s.subrange(i, i + lit.len() as int) == lit
}

/// One value of the dialect, parsed from position `i` of `s`: the tree and
/// the position just past it.
pub open spec fn spec_value(s: Seq<char>, i: int) -> Option<(JsonSpec, int)>
    decreases s.len() - i, 0int,
{
    let j = ws_at(s, i);
    if j >= s.len() {
        None
    } else {
        let c = s[j];
        if c == '{' {
            match spec_members(s, j + 1) {
                Some((pairs, e)) => Some((JsonSpec::Object(pairs), e)),
                None => None,
            }
        } else if c == '[' {
            match spec_items(s, j + 1) {
                Some((vals, e)) => Some((JsonSpec::Array(vals), e)),
                None => None,
            }
        } else if c == '"' {
            let e = clamp(j + 1, s.len() as int, string_end(s, j + 1));
            if e < s.len() {
                Some((JsonSpec::Text(s.subrange(j + 1, e)), e + 1))
            } else {
                None
            }
        } else if lit_at(s, j, "true"@) {
            Some((JsonSpec::Boolean(true), j + 4))
        } else if lit_at(s, j, "false"@) {
            Some((JsonSpec::Boolean(false), j + 5))
        } else if lit_at(s, j, "null"@) {
            Some((JsonSpec::Null, j + 4))
        } else if c == '-' || is_digit_char(c) {
            let e = clamp(j + 1, s.len() as int, number_end(s, j));
            Some((JsonSpec::Number(s.subrange(j, e)), e))
        } else {
            None
        }
    }
}

/// An object body parsed from just after its `{`: either an immediate `}`
/// or a non-empty member list.
pub open spec fn spec_members(s: Seq<char>, k: int) -> Option<(Seq<(Seq<char>, JsonSpec)>, int)>
    decreases s.len() - k, 2int,
{
    let p = ws_at(s, k);
    if p >= s.len() {
        None
    } else if s[p] == '}' {
        Some((Seq::empty(), p + 1))
    } else {
        spec_member_list(s, k, Seq::empty())
    }
}

/// One or more `"key" : value` members from position `k`, accumulated
/// into `acc`; a repeated key keeps its position and takes the later
/// value.
pub open spec fn spec_member_list(
    s: Seq<char>,
    k: int,
    acc: Seq<(Seq<char>, JsonSpec)>,
) -> Option<(Seq<(Seq<char>, JsonSpec)>, int)>
    decreases s.len() - k, 1int,
{
    let p = ws_at(s, k);
    if p >= s.len() || s[p] != '"' {
        None
    } else {
        let e = clamp(p + 1, s.len() as int, string_end(s, p + 1));
        if e >= s.len() {
            None
        } else {
            let key = s.subrange(p + 1, e);
            let q = ws_at(s, e + 1);
            if q >= s.len() || s[q] != ':' {
                None
            } else {
                match spec_value(s, q + 1) {
                    Some((v, r0)) => {
                        let r = clamp(q + 2, s.len() as int, r0);
                        let acc2 = upsert_pairs(acc, key, v);
                        let w = ws_at(s, r);
                        if w >= s.len() {
                            None
                        } else if s[w] == ',' {
                            spec_member_list(s, w + 1, acc2)
                        } else if s[w] == '}' {
                            Some((acc2, w + 1))
                        } else {
                            None
                        }
                    },
                    None => None,
                }
            }
        }
    }
}

/// An array body parsed from just after its `[`: either an immediate `]`
/// or a non-empty item list.
pub open spec fn spec_items(s: Seq<char>, k: int) -> Option<(Seq<JsonSpec>, int)>
    decreases s.len() - k, 2int,
{
    let p = ws_at(s, k);
    if p >= s.len() {
        None
    } else if s[p] == ']' {
        Some((Seq::empty(), p + 1))
    } else {
        spec_item_list(s, k, Seq::empty())
    }
}

/// One or more comma-separated values from position `k`, in order.
pub open spec fn spec_item_list(s: Seq<char>, k: int, acc: Seq<JsonSpec>) -> Option<
    (Seq<JsonSpec>, int),
>
    decreases s.len() - k, 1int,
{
    match spec_value(s, k) {
        Some((v, r0)) => {
            let r = clamp(k + 1, s.len() as int, r0);
            let acc2 = acc.push(v);
            let w = ws_at(s, r);
            if w >= s.len() {
                None
            } else if s[w] == ',' {
                spec_item_list(s, w + 1, acc2)
            } else if s[w] == ']' {
                Some((acc2, w + 1))
            } else {
                None
            }
        },
        None => None,
    }
}

/// What the Value Parser accepts: one value, with nothing but whitespace
/// after it.
pub open spec fn spec_parse_text(s: Seq<char>) -> Option<JsonSpec> {
    match spec_value(s, 0) {
        Some((v, j)) => if ws_at(s, j) == s.len() {
            Some(v)
        } else {
            None
        },
        None => None,
    }
}

/// Executable whitespace skip matching `skip_ws_spec`.
pub(crate) fn skip_ws(s: &str, i: usize) -> (r: usize)
    requires
        i <= s@.len(),
    ensures
        r == skip_ws_spec(s@, i as int),
        r == ws_at(s@, i as int),
        i <= r <= s@.len(),
{
    let n = s.unicode_len();
    let mut j = i;
    while j < n
        invariant
            i <= j <= n,
            n == s@.len(),
            skip_ws_spec(s@, i as int) == skip_ws_spec(s@, j as int),
        decreases n - j,
    {
        let c = s.get_char(j);
        if c != ' ' && c != '\t' && c != '\n' && c != '\r' {
            return j;
        }
        j = j + 1;
    }
    j
}

/// Executable closing-quote scan matching `string_end`.
fn find_string_end(s: &str, i: usize) -> (r: usize)
    requires
        i <= s@.len(),
    ensures
        r == string_end(s@, i as int),
        i <= r <= s@.len(),
    decreases s@.len() - i,
{
    let n = s.unicode_len();
    let mut j = i;
    while j < n
        invariant
            i <= j <= n,
            n == s@.len(),
            string_end(s@, i as int) == string_end(s@, j as int),
        decreases n - j,
    {
        let c = s.get_char(j);
        if c == '"' {
            return j;
        }
        j = j + 1;
    }
    j
}

/// Executable number-token scan matching `number_end`.
fn find_number_end(s: &str, i: usize) -> (r: usize)
    requires
        i <= s@.len(),
    ensures
        r == number_end(s@, i as int),
        i <= r <= s@.len(),
{
    let n = s.unicode_len();
    let mut j = i;
    while j < n
        invariant
            i <= j <= n,
            n == s@.len(),
            number_end(s@, i as int) == number_end(s@, j as int),
        decreases n - j,
    {
        let c = s.get_char(j);
        let u = c as u32;
        if !(48 <= u && u <= 57) && c != '-' && c != '+' && c != '.' && c != 'e' && c != 'E' {
            return j;
        }
        j = j + 1;
    }
    j
}

/// Executable literal probe matching `lit_at`.
fn matches_at(s: &str, i: usize, lit: &str) -> (r: bool)
    requires
        i <= s@.len(),
    ensures
        r == lit_at(s@, i as int, lit@),
{
    let n = s.unicode_len();
    let m = lit.unicode_len();
    if m > n - i {
        return false;
    }
    let mut j: usize = 0;
    while j < m
        invariant
            j <= m,
            n == s@.len(),
            m == lit@.len(),
            i + m <= n,
            forall|t: int| 0 <= t < j ==> s@[i + t] == lit@[t],
        decreases m - j,
    {
        if s.get_char(i + j) != lit.get_char(j) {
            assert(!lit_at(s@, i as int, lit@)) by {
                assert(s@.subrange(i as int, i + lit@.len() as int)[j as int] != lit@[j as int]);
            }
            return false;
        }
        j = j + 1;
    }
    proof {
        assert(s@.subrange(i as int, i + lit@.len() as int) =~= lit@);
    }
    true
}

/// One parsed value and the position just past it, as `spec_value`
/// describes; the tree is well-formed.
fn parse_value(s: &str, i: usize) -> (r: Option<(JsonValue, usize)>)
    requires
        i <= s@.len(),
    ensures
        match r {
            Some(p) => {
                &&& spec_value(s@, i as int) == Some((p.0@, p.1 as int))
                &&& i < p.1 <= s@.len()
                &&& p.0@.wf()
            },
            None => spec_value(s@, i as int) is None,
        },
    decreases s@.len() - i, 0int,
{
    let n = s.unicode_len();
    let j = skip_ws(s, i);
    if j >= n {
        return None;
    }
    let c = s.get_char(j);
    if c == '{' {
        match parse_members(s, j + 1) {
            Some((pairs, e)) => {
                proof {
                    lemma_object_view(pairs);
                    lemma_wf_object(JsonSpec::Object(pairs_view(pairs@)));
                }
                Some((JsonValue::Object(pairs), e))
            },
            None => None,
        }
    } else if c == '[' {
        match parse_items(s, j + 1) {
            Some((items, e)) => {
                proof {
                    lemma_array_view(items);
                    lemma_wf_array(JsonSpec::Array(items_view(items@)));
                }
                Some((JsonValue::Array(items), e))
            },
            None => None,
        }
    } else if c == '"' {
        let e = find_string_end(s, j + 1);
        if e >= n {
            None
        } else {
            let content = String::from_str(s.substring_char(j + 1, e));
            Some((JsonValue::Text(content), e + 1))
        }
    } else if matches_at(s, j, "true") {
        proof {
            reveal_strlit("true");
        }
        Some((JsonValue::Boolean(true), j + 4))
    } else if matches_at(s, j, "false") {
        proof {
            reveal_strlit("false");
        }
        Some((JsonValue::Boolean(false), j + 5))
    } else if matches_at(s, j, "null") {
        proof {
            reveal_strlit("null");
        }
        Some((JsonValue::Null, j + 4))
    } else {
        let u = c as u32;
        if c == '-' || (48 <= u && u <= 57) {
            let e = find_number_end(s, j + 1);
            proof {
                assert(is_number_char(s@[j as int]));
                assert(number_end(s@, j as int) == number_end(s@, j + 1));
            }
            let lexeme = String::from_str(s.substring_char(j, e));
            Some((JsonValue::Number(lexeme), e))
        } else {
            None
        }
    }
}

/// An object body, as `spec_members` describes.
fn parse_members(s: &str, k: usize) -> (r: Option<(Vec<(String, JsonValue)>, usize)>)
    requires
        k <= s@.len(),
    ensures
        match r {
            Some(p) => {
                &&& spec_members(s@, k as int) == Some((pairs_view(p.0@), p.1 as int))
                &&& k < p.1 <= s@.len()
                &&& entries_ok(pairs_view(p.0@))
            },
            None => spec_members(s@, k as int) is None,
        },
    decreases s@.len() - k, 2int,
{
    let n = s.unicode_len();
    let p = skip_ws(s, k);
    if p >= n {
        return None;
    }
    if s.get_char(p) == '}' {
        let out: Vec<(String, JsonValue)> = Vec::new();
        proof {
            assert(pairs_view(out@) =~= Seq::<(Seq<char>, JsonSpec)>::empty());
        }
        return Some((out, p + 1));
    }
    let acc: Vec<(String, JsonValue)> = Vec::new();
    proof {
        assert(pairs_view(acc@) =~= Seq::<(Seq<char>, JsonSpec)>::empty());
    }
    parse_member_list(s, k, acc)
}

/// A non-empty member list, as `spec_member_list` describes.
fn parse_member_list(s: &str, k: usize, acc: Vec<(String, JsonValue)>) -> (r: Option<
    (Vec<(String, JsonValue)>, usize),
>)
    requires
        k <= s@.len(),
        entries_ok(pairs_view(acc@)),
    ensures
        match r {
            Some(p) => {
                &&& spec_member_list(s@, k as int, pairs_view(acc@)) == Some(
                    (pairs_view(p.0@), p.1 as int),
                )
                &&& k < p.1 <= s@.len()
                &&& entries_ok(pairs_view(p.0@))
            },
            None => spec_member_list(s@, k as int, pairs_view(acc@)) is None,
        },
    decreases s@.len() - k, 1int,
{
    let ghost gacc = pairs_view(acc@);
    let n = s.unicode_len();
    let p = skip_ws(s, k);
    if p >= n {
        return None;
    }
    if s.get_char(p) != '"' {
        return None;
    }
    let e = find_string_end(s, p + 1);
    if e >= n {
        return None;
    }
    let key = String::from_str(s.substring_char(p + 1, e));
    let q = skip_ws(s, e + 1);
    if q >= n {
        return None;
    }
    if s.get_char(q) != ':' {
        return None;
    }
    match parse_value(s, q + 1) {
        Some((v, r0)) => {
            proof {
                lemma_upsert_wf(gacc, key@, v@);
            }
            let mut acc2 = acc;
            upsert_entry(&mut acc2, key, v);
            let w = skip_ws(s, r0);
            if w >= n {
                return None;
            }
            let cw = s.get_char(w);
            if cw == ',' {
                parse_member_list(s, w + 1, acc2)
            } else if cw == '}' {
                Some((acc2, w + 1))
            } else {
                None
            }
        },
        None => None,
    }
}

/// An array body, as `spec_items` describes.
fn parse_items(s: &str, k: usize) -> (r: Option<(Vec<JsonValue>, usize)>)
    requires
        k <= s@.len(),
    ensures
        match r {
            Some(p) => {
                &&& spec_items(s@, k as int) == Some((items_view(p.0@), p.1 as int))
                &&& k < p.1 <= s@.len()
                &&& items_ok(items_view(p.0@))
            },
            None => spec_items(s@, k as int) is None,
        },
    decreases s@.len() - k, 2int,
{
    let n = s.unicode_len();
    let p = skip_ws(s, k);
    if p >= n {
        return None;
    }
    if s.get_char(p) == ']' {
        let out: Vec<JsonValue> = Vec::new();
        proof {
            assert(items_view(out@) =~= Seq::<JsonSpec>::empty());
        }
        return Some((out, p + 1));
    }
    let acc: Vec<JsonValue> = Vec::new();
    proof {
        assert(items_view(acc@) =~= Seq::<JsonSpec>::empty());
    }
    parse_item_list(s, k, acc)
}

/// A non-empty item list, as `spec_item_list` describes.
fn parse_item_list(s: &str, k: usize, acc: Vec<JsonValue>) -> (r: Option<(Vec<JsonValue>, usize)>)
    requires
        k <= s@.len(),
        items_ok(items_view(acc@)),
    ensures
        match r {
            Some(p) => {
                &&& spec_item_list(s@, k as int, items_view(acc@)) == Some(
                    (items_view(p.0@), p.1 as int),
                )
                &&& k < p.1 <= s@.len()
                &&& items_ok(items_view(p.0@))
            },
            None => spec_item_list(s@, k as int, items_view(acc@)) is None,
        },
    decreases s@.len() - k, 1int,
{
    let ghost gacc = items_view(acc@);
    let n = s.unicode_len();
    match parse_value(s, k) {
        Some((v, r0)) => {
            let mut acc2 = acc;
            acc2.push(v);
            proof {
                assert(items_view(acc2@) =~= gacc.push(acc2@[acc2@.len() - 1]@));
            }
            let w = skip_ws(s, r0);
            if w >= n {
                return None;
            }
            let cw = s.get_char(w);
            if cw == ',' {
                parse_item_list(s, w + 1, acc2)
            } else if cw == ']' {
                Some((acc2, w + 1))
            } else {
                None
            }
        },
        None => None,
    }
}

/// Parses one normalized element into a value tree, or fails with a
/// structural error carrying the element's text.  On success the tree is
/// exactly `spec_parse_text` of the input, and is well-formed: no object
/// in it repeats a key.
pub fn parse_element(text: &str) -> (r: Result<JsonValue, SchemaError>)
    ensures
        match r {
            Ok(v) => spec_parse_text(text@) == Some(v@) && v@.wf(),
            Err(e) => spec_parse_text(text@) is None && (e matches SchemaError::StructuralParse {
                fragment,
            } && fragment@ == text@),
        },
{
    match parse_value(text, 0) {
        Some((v, j)) => {
            let n = text.unicode_len();
            let t = skip_ws(text, j);
            if t == n {
                Ok(v)
            } else {
                Err(SchemaError::StructuralParse { fragment: text.to_owned() })
            }
        },
        None => Err(SchemaError::StructuralParse { fragment: text.to_owned() }),
    }
}

/// Running the Structural Normalizer before the Value Parser changes
/// nothing on an element that needs no work: when the element holds no
/// comment marker and no single quote, parsing the normalized text gives
/// the very tree that parsing the element directly gives.
pub proof fn lemma_normalize_then_parse(s: Seq<char>)
    requires
        forall|j: int| 0 <= j < s.len() ==> s[j] != '#',
        forall|j: int| 0 <= j < s.len() ==> s[j] != '\'',
    ensures
        spec_parse_text(crate::normalize::normalize_spec(s)) == spec_parse_text(s),
{
    crate::normalize::lemma_normalize_noop(s);
}

} // verus!
