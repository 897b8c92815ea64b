//! The Structural Normalizer: strips embedded comment fragments and turns
//! the dialect's single-quote string delimiters into double quotes, so an
//! element becomes parseable by the generic Value Parser.

use vstd::prelude::*;
use crate::strutil::push_char;

verus! {

/// The text that comment stripping emits from position `i` on, given
/// whether position `i` lies inside a comment.  A `#` starts a comment;
/// the comment runs through the next newline, and the newline itself is
/// consumed with it.
pub open spec fn strip_rec(s: Seq<char>, i: int, com: bool) -> Seq<char>
    decreases s.len() - i,
{
    if i < 0 || i >= s.len() {
        Seq::empty()
    } else if s[i] == '#' {
        strip_rec(s, i + 1, true)
    } else if com {
        strip_rec(s, i + 1, s[i] != '\n')
    } else {
        seq![s[i]] + strip_rec(s, i + 1, false)
    }
}

/// `s` with every comment removed, from `#` through the end of its line.
pub open spec fn strip_comments(s: Seq<char>) -> Seq<char> {
    strip_rec(s, 0, false)
}

/// Removes embedded comments: each `#` and everything up to and including
/// the next newline is dropped; all other text is kept unchanged.
pub fn remove_comments(input: String) -> (r: String)
    ensures
        r@ == strip_comments(input@),
{
    let s = input.as_str();
    let n = s.unicode_len();
    let mut buf = String::new();
    let mut comment = false;
    let mut i: usize = 0;
    while i < n
        invariant
            n == s@.len(),
            i <= n,
            strip_rec(s@, 0, false) == buf@ + strip_rec(s@, i as int, comment),
        decreases n - i,
    {
        let c = s.get_char(i);
        if c == '#' {
            comment = true;
        } else if comment {
            if c == '\n' {
                comment = false;
            }
        } else {
            proof {
                let prev = buf@;
                assert(prev + strip_rec(s@, i as int, false) =~= (prev + seq![c]) + strip_rec(
                    s@,
                    i + 1,
                    false,
                ));
            }
            push_char(&mut buf, c);
        }
        i = i + 1;
    }
    proof {
        assert(buf@ + strip_rec(s@, n as int, comment) =~= buf@);
    }
    buf
}

/// A character after quote normalization: the dialect's single-quote
/// delimiter becomes the standard double quote; everything else is kept.
pub open spec fn swap_quote(c: char) -> char {
    if c == '\'' {
        '"'
    } else {
        c
    }
}

/// `s` with every single quote replaced by a double quote.
pub open spec fn swap_quotes(s: Seq<char>) -> Seq<char> {
    s.map_values(|c: char| swap_quote(c))
}

/// Replaces the single-quote string delimiter with the double-quote one,
/// uniformly across the element; no escaping logic is applied.
pub fn replace_quotes(input: &str) -> (r: String)
    ensures
        r@ == swap_quotes(input@),
{
    let n = input.unicode_len();
    let mut buf = String::new();
    let mut i: usize = 0;
    while i < n
        invariant
            n == input@.len(),
            i <= n,
            buf@ == input@.take(i as int).map_values(|c: char| swap_quote(c)),
        decreases n - i,
    {
        let c = input.get_char(i);
        if c == '\'' {
            push_char(&mut buf, '"');
        } else {
            push_char(&mut buf, c);
        }
        proof {
            assert(buf@ =~= input@.take(i + 1).map_values(|ch: char| swap_quote(ch)));
        }
        i = i + 1;
    }
    proof {
        assert(input@.take(n as int) =~= input@);
    }
    buf
}

/// What the Structural Normalizer produces for one element: comments
/// stripped first, then quoting normalized.
pub open spec fn normalize_spec(s: Seq<char>) -> Seq<char> {
    swap_quotes(strip_comments(s))
}

/// Normalizes one element's raw text for the Value Parser.
pub fn normalize_element(input: String) -> (r: String)
    ensures
        r@ == normalize_spec(input@),
{
    let stripped = remove_comments(input);
    replace_quotes(stripped.as_str())
}

/// On text with no comment marker, stripping emits every character
/// unchanged once no comment is open.
proof fn lemma_strip_rec_plain(s: Seq<char>, i: int)
    requires
        forall|j: int| 0 <= j < s.len() ==> s[j] != '#',
        0 <= i <= s.len(),
    ensures
        strip_rec(s, i, false) == s.skip(i),
    decreases s.len() - i,
{
    if i < s.len() {
        lemma_strip_rec_plain(s, i + 1);
        assert(seq![s[i]] + s.skip(i + 1) =~= s.skip(i));
    } else {
        assert(s.skip(i) =~= Seq::empty());
    }
}

/// The Structural Normalizer changes nothing on an element that holds no
/// comment marker and no single quote.
pub proof fn lemma_normalize_noop(s: Seq<char>)
    requires
        forall|j: int| 0 <= j < s.len() ==> s[j] != '#',
        forall|j: int| 0 <= j < s.len() ==> s[j] != '\'',
    ensures
        normalize_spec(s) == s,
{
    lemma_strip_rec_plain(s, 0);
    assert(s.skip(0) =~= s);
    assert(swap_quotes(s) =~= s);
}

} // verus!
