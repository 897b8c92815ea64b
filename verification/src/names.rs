//! The Identifier Mapper: sigil stripping, separator replacement, and the
//! reserved-word table that keeps schema identifiers from colliding with
//! keywords of the target language.

use vstd::prelude::*;
use crate::strutil::{push_char, str_eq, has_prefix, starts_with};

verus! {

/// One character of a schema identifier, as it lands in the candidate
/// target-language identifier: separators become underscores, the
/// optionality sigil vanishes, everything else is kept.
pub open spec fn scrub_char(c: char) -> Seq<char> {
    if c == '*' {
        Seq::empty()
    } else if c == '-' || c == '.' {
        seq!['_']
    } else {
        seq![c]
    }
}

/// The candidate identifier: every character of `s` scrubbed in order.
pub open spec fn scrub_chars(s: Seq<char>) -> Seq<char>
    decreases s.len(),
{
    if s.len() == 0 {
        Seq::empty()
    } else {
        scrub_chars(s.drop_last()) + scrub_char(s.last())
    }
}

/// The reserved-word table: keywords of the target language, identifiers
/// that collide with emitted type names, the two scalar type spellings the
/// target renames, and the bare digit member names some schema enums use.
pub open spec fn replacement_spec(s: Seq<char>) -> Option<Seq<char>> {
    if s == "type"@ {
        Some("qemu_type"@)
    } else if s == "in"@ {
        Some("qemu_in"@)
    } else if s == "abstract"@ {
        Some("qemu_abstract"@)
    } else if s == "String"@ {
        Some("qemu_string"@)
    } else if s == "str"@ {
        Some("String"@)
    } else if s == "int"@ {
        Some("i64"@)
    } else if s == "0"@ {
        Some("qemu_0"@)
    } else if s == "1"@ {
        Some("qemu_1"@)
    } else if s == "2"@ {
        Some("qemu_2"@)
    } else if s == "3"@ {
        Some("qemu_3"@)
    } else if s == "4"@ {
        Some("qemu_4"@)
    } else if s == "5"@ {
        Some("qemu_5"@)
    } else if s == "6"@ {
        Some("qemu_6"@)
    } else if s == "7"@ {
        Some("qemu_7"@)
    } else if s == "8"@ {
        Some("qemu_8"@)
    } else if s == "9"@ {
        Some("qemu_9"@)
    } else {
        None
    }
}

/// The replacement the table assigns to `s`, when it holds one.
pub fn replacement_for(s: &str) -> (r: Option<String>)
    ensures
        match r {
            Some(t) => replacement_spec(s@) == Some(t@),
            None => replacement_spec(s@) is None,
        },
{
    if str_eq(s, "type") {
        Some(String::from_str("qemu_type"))
    } else if str_eq(s, "in") {
        Some(String::from_str("qemu_in"))
    } else if str_eq(s, "abstract") {
        Some(String::from_str("qemu_abstract"))
    } else if str_eq(s, "String") {
        Some(String::from_str("qemu_string"))
    } else if str_eq(s, "str") {
        Some(String::from_str("String"))
    } else if str_eq(s, "int") {
        Some(String::from_str("i64"))
    } else if str_eq(s, "0") {
        Some(String::from_str("qemu_0"))
    } else if str_eq(s, "1") {
        Some(String::from_str("qemu_1"))
    } else if str_eq(s, "2") {
        Some(String::from_str("qemu_2"))
    } else if str_eq(s, "3") {
        Some(String::from_str("qemu_3"))
    } else if str_eq(s, "4") {
        Some(String::from_str("qemu_4"))
    } else if str_eq(s, "5") {
        Some(String::from_str("qemu_5"))
    } else if str_eq(s, "6") {
        Some(String::from_str("qemu_6"))
    } else if str_eq(s, "7") {
        Some(String::from_str("qemu_7"))
    } else if str_eq(s, "8") {
        Some(String::from_str("qemu_8"))
    } else if str_eq(s, "9") {
        Some(String::from_str("qemu_9"))
    } else {
        None
    }
}

/// What `sanitize_name` returns: the scrubbed candidate, run through the
/// reserved-word table.
pub open spec fn sanitize_spec(s: Seq<char>) -> Seq<char> {
    match replacement_spec(scrub_chars(s)) {
        Some(t) => t,
        None => scrub_chars(s),
    }
}

/// Sanitizes a schema identifier: drops the `*` optionality sigil, turns
/// `-` and `.` into `_`, and substitutes the reserved-word table's
/// replacement when the candidate hits an entry.
pub fn sanitize_name(name: &String) -> (r: String)
    ensures
        r@ == sanitize_spec(name@),
{
    let s = name.as_str();
    let n = s.unicode_len();
    let mut buf = String::new();
    let mut i: usize = 0;
    while i < n
        invariant
            n == s@.len(),
            i <= n,
            buf@ == scrub_chars(s@.take(i as int)),
        decreases n - i,
    {
        let c = s.get_char(i);
        proof {
            assert(s@.take(i + 1).drop_last() =~= s@.take(i as int));
            assert(s@.take(i + 1).last() == s@[i as int]);
        }
        if c == '*' {
        } else if c == '-' || c == '.' {
            push_char(&mut buf, '_');
        } else {
            push_char(&mut buf, c);
        }
        proof {
            assert(buf@ =~= scrub_chars(s@.take(i + 1)));
        }
        i = i + 1;
    }
    proof {
        assert(s@.take(n as int) =~= s@);
    }
    match replacement_for(buf.as_str()) {
        Some(t) => t,
        None => buf,
    }
}

/// The reserved-word sanitizer is deterministic: the same raw field name
/// always yields the same sanitized name.
pub proof fn lemma_sanitize_deterministic(a: Seq<char>, b: Seq<char>)
    requires
        a == b,
    ensures
        sanitize_spec(a) == sanitize_spec(b),
{
}

/// What `reserved_words` returns: a `qemu_` prefix when the candidate
/// begins like one of the four reserved spellings, nothing otherwise.
pub open spec fn reserved_words_spec(s: Seq<char>) -> Option<Seq<char>> {
    if starts_with(s, "type"@) || starts_with(s, "in"@) || starts_with(s, "static"@)
        || starts_with(s, "abstract"@) {
        Some("qemu_"@ + s)
    } else {
        None
    }
}

/// Prefixes reserved words with `qemu_`.  Returns the renamed identifier
/// when the input begins with a reserved spelling, and nothing otherwise.
pub fn reserved_words(input: &String) -> (r: Option<String>)
    ensures
        match r {
            Some(t) => reserved_words_spec(input@) == Some(t@),
            None => reserved_words_spec(input@) is None,
        },
{
    let s = input.as_str();
    if has_prefix(s, "type") || has_prefix(s, "in") || has_prefix(s, "static") || has_prefix(
        s,
        "abstract",
    ) {
        let mut out = String::from_str("qemu_");
        out.append(s);
        Some(out)
    } else {
        None
    }
}

} // verus!
