//! The Sectionizer: splits raw schema text into a sequence of sections,
//! each a block of leading comment lines followed by one balanced
//! brace-delimited element, and runs each element through the Structural
//! Normalizer, the Value Parser and the Construct Classifier.

use vstd::prelude::*;
use crate::classify::{QemuType, qemu_type_spec, classify_spec, ConstructKind};
use crate::error::SchemaError;
use crate::normalize::{normalize_element, normalize_spec};
use crate::parse::{clamp, ws_at, spec_parse_text, parse_element, skip_ws};
use crate::value::JsonSpec;

verus! {

/// The position just past the element that closes at brace depth zero,
/// scanning from `i` at depth `depth`; nothing when the text runs out
/// first.  Mirrors a single linear scan that counts `{` up and `}` down.
pub open spec fn scan_element(s: Seq<char>, i: int, depth: int) -> Option<int>
    decreases s.len() - i,
{
    if i < 0 || i >= s.len() {
        None
    } else if s[i] == '{' {
        scan_element(s, i + 1, depth + 1)
    } else if s[i] == '}' {
        if depth == 1 {
            Some(i + 1)
        } else {
            scan_element(s, i + 1, depth - 1)
        }
    } else {
        scan_element(s, i + 1, depth)
    }
}

/// A successful scan always moves forward and stays inside the text.
pub proof fn lemma_scan_bounds(s: Seq<char>, i: int, depth: int)
    requires
        scan_element(s, i, depth) is Some,
    ensures
        i < scan_element(s, i, depth)->Some_0 <= s.len(),
    decreases s.len() - i,
{
    if 0 <= i < s.len() {
        if s[i] == '{' {
            lemma_scan_bounds(s, i + 1, depth + 1);
        } else if s[i] == '}' {
            if depth != 1 {
                lemma_scan_bounds(s, i + 1, depth - 1);
            }
        } else {
            lemma_scan_bounds(s, i + 1, depth);
        }
    }
}

/// True when an opening brace occurs at or after `i`: what separates a
/// fatal unterminated element from an exhausted input.
pub open spec fn has_brace(s: Seq<char>, i: int) -> bool {
    exists|j: int| i <= j < s.len() && s[j] == '{'
}

/// Scans one balanced brace-delimited element from the start of the
/// text.  Returns the element's text (everything up to and including its
/// closing brace) and the position just past it; nothing when no element
/// closes before the text ends.
pub fn find_element(input: &str) -> (r: Option<(String, usize)>)
    ensures
        match r {
            Some(p) => {
                &&& scan_element(input@, 0, 0) == Some(p.1 as int)
                &&& p.0@ == input@.subrange(0, p.1 as int)
                &&& 0 < p.1 <= input@.len()
            },
            None => scan_element(input@, 0, 0) is None,
        },
{
    let n = input.unicode_len();
    let mut i: usize = 0;
    let mut depth: i128 = 0;
    while i < n
        invariant
            i <= n,
            n == input@.len(),
            -(i as int) <= depth as int <= i as int,
            scan_element(input@, 0, 0) == scan_element(input@, i as int, depth as int),
        decreases n - i,
    {
        let c = input.get_char(i);
        if c == '{' {
            depth = depth + 1;
        } else if c == '}' {
            if depth == 1 {
                let text = String::from_str(input.substring_char(0, i + 1));
                return Some((text, i + 1));
            }
            depth = depth - 1;
        }
        i = i + 1;
    }
    None
}

/// The position of the first newline at or after `i`, or the text length
/// when none follows.
pub open spec fn line_end(s: Seq<char>, i: int) -> int
    decreases s.len() - i,
{
    if i < 0 || i >= s.len() {
        s.len() as int
    } else if s[i] == '\n' {
        i
    } else {
        line_end(s, i + 1)
    }
}

/// The comment block at position `i`: the stripped contents of each
/// newline-terminated `#` line in turn, and the position just past the
/// block.  A `#` line the text ends in without a newline is not consumed.
pub open spec fn comment_block_spec(s: Seq<char>, i: int) -> (Seq<Seq<char>>, int)
    decreases s.len() - i,
{
    if 0 <= i < s.len() && s[i] == '#' {
        let e = clamp(i + 1, s.len() as int, line_end(s, i + 1));
        if e < s.len() {
            let (rest, fin) = comment_block_spec(s, e + 1);
            (seq![s.subrange(i + 1, e)] + rest, fin)
        } else {
            (Seq::empty(), i)
        }
    } else {
        (Seq::empty(), i)
    }
}

/// Executable newline scan matching `line_end`.
fn find_line_end(s: &str, i: usize) -> (r: usize)
    requires
        i <= s@.len(),
    ensures
        r == line_end(s@, i as int),
        i <= r <= s@.len(),
{
    let n = s.unicode_len();
    let mut j = i;
    while j < n
        invariant
            i <= j <= n,
            n == s@.len(),
            line_end(s@, i as int) == line_end(s@, j as int),
        decreases n - j,
    {
        if s.get_char(j) == '\n' {
            return j;
        }
        j = j + 1;
    }
    j
}

/// Consumes the comment lines at position `i`: each line's text after its
/// leading `#` marker, and the position just past the block.
pub fn comment_block(s: &str, i: usize) -> (r: (Vec<String>, usize))
    requires
        i <= s@.len(),
    ensures
        r.0.deep_view() == comment_block_spec(s@, i as int).0,
        r.1 as int == comment_block_spec(s@, i as int).1,
        i <= r.1 <= s@.len(),
{
    let n = s.unicode_len();
    let mut lines: Vec<String> = Vec::new();
    let mut pos = i;
    while pos < n
        invariant
            i <= pos <= n,
            n == s@.len(),
            comment_block_spec(s@, i as int).0 == lines.deep_view() + comment_block_spec(
                s@,
                pos as int,
            ).0,
            comment_block_spec(s@, i as int).1 == comment_block_spec(s@, pos as int).1,
        decreases n - pos,
    {
        if s.get_char(pos) != '#' {
            proof {
                assert(lines.deep_view() + comment_block_spec(s@, pos as int).0
                    =~= lines.deep_view());
            }
            return (lines, pos);
        }
        let e = find_line_end(s, pos + 1);
        if e >= n {
            proof {
                assert(lines.deep_view() + comment_block_spec(s@, pos as int).0
                    =~= lines.deep_view());
            }
            return (lines, pos);
        }
        let line = String::from_str(s.substring_char(pos + 1, e));
        lines.push(line);
        proof {
            assert(lines.deep_view() + comment_block_spec(s@, e + 1).0 =~= lines.deep_view().drop_last()
                + (seq![s@.subrange(pos + 1, e as int)] + comment_block_spec(s@, e + 1).0));
        }
        pos = e + 1;
    }
    proof {
        assert(lines.deep_view() + comment_block_spec(s@, pos as int).0 =~= lines.deep_view());
    }
    (lines, pos)
}

/// One section: the comment block above an element, and the element's
/// classified construct.
#[derive(Debug, PartialEq)]
pub struct Section {
    pub description: Vec<String>,
    pub qemu_type: QemuType,
}

/// Where the comment block above the section at `pos` ends.
pub open spec fn section_body(s: Seq<char>, pos: int) -> int {
    comment_block_spec(s, pos).1
}

/// The value tree of the section at `pos`: its element text, normalized
/// and parsed.
pub open spec fn section_tree(s: Seq<char>, pos: int) -> Option<JsonSpec> {
    let b = section_body(s, pos);
    match scan_element(s.skip(b), 0, 0) {
        Some(_) => spec_parse_text(
            normalize_spec(s.skip(b).subrange(0, scan_element(s.skip(b), 0, 0)->Some_0)),
        ),
        None => None,
    }
}

/// The position just past the section at `pos`: past its element and the
/// trailing whitespace.
pub open spec fn section_next(s: Seq<char>, pos: int) -> int {
    let b = section_body(s, pos);
    let e = b + scan_element(s.skip(b), 0, 0)->Some_0;
    clamp(pos + 1, s.len() as int, ws_at(s, e))
}

/// What a produced section holds for the text at `pos`: the comment
/// block's lines, and the classified construct of the parsed element.
pub open spec fn section_ok(s: Seq<char>, pos: int, sec: Section) -> bool {
    &&& scan_element(s.skip(section_body(s, pos)), 0, 0) is Some
    &&& sec.description.deep_view() == comment_block_spec(s, pos).0
    &&& section_tree(s, pos) is Some
    &&& qemu_type_spec(section_tree(s, pos)->Some_0, Ok(sec.qemu_type))
}

/// True when classifying `v` raises no missing-key error.
pub open spec fn classify_clean(v: JsonSpec) -> bool {
    match classify_spec(v) {
        ConstructKind::Include => true,
        ConstructKind::Unknown => true,
        ConstructKind::Enum => crate::value::json_key(v, "enum"@) is Text,
        ConstructKind::Command => crate::value::json_key(v, "command"@) is Text,
        ConstructKind::Union => crate::value::json_key(v, "union"@) is Text,
        ConstructKind::Struct => crate::value::json_key(v, "struct"@) is Text,
        ConstructKind::Event => crate::value::json_key(v, "event"@) is Text,
    }
}

impl Section {
    /// Parses the section at `pos`: its comment block, one balanced
    /// element, and the trailing whitespace.  Yields the section and the
    /// next position; nothing when no element remains; an error when an
    /// element never closes, fails to parse, or lacks its mandatory name.
    pub fn parse(input: &str, pos: usize) -> (r: Result<Option<(Section, usize)>, SchemaError>)
        requires
            pos <= input@.len(),
        ensures
            match r {
                Ok(Some(p)) => {
                    &&& section_ok(input@, pos as int, p.0)
                    &&& p.1 as int == section_next(input@, pos as int)
                    &&& pos < p.1 <= input@.len()
                    &&& classify_clean(section_tree(input@, pos as int)->Some_0)
                },
                Ok(None) => scan_element(
                    input@.skip(section_body(input@, pos as int)),
                    0,
                    0,
                ) is None && !has_brace(input@, section_body(input@, pos as int)),
                Err(e) => {
                    ||| (scan_element(input@.skip(section_body(input@, pos as int)), 0, 0) is None
                        && has_brace(input@, section_body(input@, pos as int))
                        && e is StructuralParse)
                    ||| (scan_element(input@.skip(section_body(input@, pos as int)), 0, 0) is Some
                        && section_tree(input@, pos as int) is None && e is StructuralParse)
                    ||| (section_tree(input@, pos as int) matches Some(tree)
                        && !classify_clean(tree) && e is MissingRequiredKey)
                },
            },
    {
        let n = input.unicode_len();
        let (description, body) = comment_block(input, pos);
        let rest = input.substring_char(body, n);
        proof {
            assert(rest@ =~= input@.skip(body as int));
        }
        match find_element(rest) {
            Some((element, used)) => {
                proof {
                    lemma_scan_bounds(rest@, 0, 0);
                }
                let clean = normalize_element(element);
                match parse_element(clean.as_str()) {
                    Ok(tree) => match QemuType::parse(&tree) {
                        Ok(qemu_type) => {
                            let next = skip_ws(input, body + used);
                            Ok(Some((Section { description, qemu_type }, next)))
                        },
                        Err(e) => Err(e),
                    },
                    Err(e) => Err(e),
                }
            },
            None => {
                let brace_probe = skip_to_brace(input, body);
                if brace_probe {
                    Err(
                        SchemaError::StructuralParse {
                            fragment: String::from_str(input.substring_char(body, n)),
                        },
                    )
                } else {
                    Ok(None)
                }
            },
        }
    }
}

/// Whether an opening brace occurs at or after `i`.
pub(crate) fn skip_to_brace(s: &str, i: usize) -> (r: bool)
    requires
        i <= s@.len(),
    ensures
        r == has_brace(s@, i as int),
{
    let n = s.unicode_len();
    let mut j = i;
    while j < n
        invariant
            i <= j <= n,
            n == s@.len(),
            forall|t: int| i <= t < j ==> s@[t] != '{',
        decreases n - j,
    {
        if s.get_char(j) == '{' {
            return true;
        }
        j = j + 1;
    }
    false
}

/// The number of sections from `pos` when every element, value tree and
/// classification succeeds; nothing when any of them fails.
pub open spec fn run_spec(s: Seq<char>, pos: int) -> Option<nat>
    decreases s.len() - pos when 0 <= pos <= s.len()
{
    let b = section_body(s, pos);
    match scan_element(s.skip(b), 0, 0) {
        Some(_) => {
            if section_tree(s, pos) matches Some(tree) && classify_clean(tree) {
                let nxt = section_next(s, pos);
                if pos < nxt <= s.len() {
                    match run_spec(s, nxt) {
                        Some(c) => Some((c + 1) as nat),
                        None => None,
                    }
                } else {
                    None
                }
            } else {
                None
            }
        },
        None => if has_brace(s, b) {
            None
        } else {
            Some(0)
        },
    }
}

/// The number of balanced brace-delimited elements from `pos`, with
/// comment blocks and whitespace between them; nothing when an element
/// never closes.  This counts what the Sectionizer alone sees, with no
/// regard to whether the elements parse.
pub open spec fn element_count(s: Seq<char>, pos: int) -> Option<nat>
    decreases s.len() - pos when 0 <= pos <= s.len()
{
    let b = section_body(s, pos);
    match scan_element(s.skip(b), 0, 0) {
        Some(_) => {
            let nxt = section_next(s, pos);
            if pos < nxt <= s.len() {
                match element_count(s, nxt) {
                    Some(c) => Some((c + 1) as nat),
                    None => None,
                }
            } else {
                None
            }
        },
        None => if has_brace(s, b) {
            None
        } else {
            Some(0)
        },
    }
}

/// A full run yields one section per balanced element: when every element
/// parses and classifies, the section count is exactly the element count,
/// with the entire input consumed.
pub proof fn lemma_sections_match_elements(s: Seq<char>, pos: int)
    requires
        0 <= pos <= s.len(),
        run_spec(s, pos) is Some,
    ensures
        element_count(s, pos) == run_spec(s, pos),
    decreases s.len() - pos,
{
    let b = section_body(s, pos);
    if scan_element(s.skip(b), 0, 0) is Some {
        let nxt = section_next(s, pos);
        if pos < nxt <= s.len() {
            lemma_sections_match_elements(s, nxt);
        }
    }
}

/// Consuming a comment block twice consumes no more than once: the end
/// of a block is never the start of another.
proof fn lemma_comment_block_idempotent(s: Seq<char>, i: int)
    ensures
        comment_block_spec(s, comment_block_spec(s, i).1).1 == comment_block_spec(s, i).1,
    decreases s.len() - i,
{
    if 0 <= i < s.len() && s[i] == '#' {
        let e = clamp(i + 1, s.len() as int, line_end(s, i + 1));
        if e < s.len() {
            lemma_comment_block_idempotent(s, e + 1);
        }
    }
}

/// The position at which the `k`-th section starts: past the schema-wide
/// preamble for the first, and past each preceding section for the rest.
pub open spec fn section_pos(s: Seq<char>, k: nat) -> int
    decreases k,
{
    if k == 0 {
        comment_block_spec(s, 0).1
    } else {
        section_next(s, section_pos(s, (k - 1) as nat))
    }
}

/// Splits the whole input into sections: a discarded schema-wide comment
/// preamble, then repeatedly a comment block, one balanced element, and
/// trailing whitespace.  On success the sections stand in input order,
/// one per balanced element, and each holds its comment block and its
/// element's classified construct; the first failing element aborts the
/// run.
pub fn parse_sections(input: &str) -> (r: Result<Vec<Section>, SchemaError>)
    ensures
        match r {
            Ok(secs) => {
                &&& run_spec(input@, 0) == Some(secs@.len() as nat)
                &&& element_count(input@, 0) == Some(secs@.len() as nat)
                &&& forall|k: int|
                    0 <= k < secs@.len() ==> section_ok(
                        input@,
                        section_pos(input@, k as nat),
                        #[trigger] secs@[k],
                    )
            },
            Err(e) => run_spec(input@, 0) is None,
        },
{
    let n = input.unicode_len();
    let mut sections: Vec<Section> = Vec::new();
    let (_preamble, start) = comment_block(input, 0);
    let mut pos: usize = start;
    proof {
        lemma_comment_block_idempotent(input@, 0);
        let s = input@;
        let b = section_body(s, 0);
        assert(section_body(s, start as int) == b);
        match scan_element(s.skip(b), 0, 0) {
            Some(e) => {
                lemma_scan_bounds(s.skip(b), 0, 0);
                assert(section_next(s, 0) == section_next(s, start as int));
                assert(section_tree(s, 0) == section_tree(s, start as int));
                assert(run_spec(s, 0) == run_spec(s, start as int));
            },
            None => {
                assert(run_spec(s, 0) == run_spec(s, start as int));
            },
        }
    }
    loop
        invariant
            pos <= n,
            n == input@.len(),
            pos as int == section_pos(input@, sections@.len() as nat),
            forall|k: int|
                0 <= k < sections@.len() ==> section_ok(
                    input@,
                    section_pos(input@, k as nat),
                    #[trigger] sections@[k],
                ),
            match run_spec(input@, pos as int) {
                Some(c) => run_spec(input@, 0) == Some((sections@.len() + c) as nat),
                None => run_spec(input@, 0) is None,
            },
        decreases n - pos,
    {
        match Section::parse(input, pos) {
            Ok(Some((sec, next))) => {
                sections.push(sec);
                pos = next;
            },
            Ok(None) => {
                proof {
                    assert(run_spec(input@, pos as int) == Some(0nat));
                    lemma_sections_match_elements(input@, 0);
                }
                return Ok(sections);
            },
            Err(e) => {
                proof {
                    assert(run_spec(input@, pos as int) is None);
                }
                return Err(e);
            },
        }
    }
}

} // verus!
