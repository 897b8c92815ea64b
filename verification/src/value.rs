//! The generic value tree the Value Parser produces: strings, numbers,
//! booleans, null, ordered-key objects and ordered arrays.

use vstd::prelude::*;
use crate::strutil::join_seqs;

verus! {

/// Generic structured value of the schema dialect.
///
/// A number keeps its source text: no later stage reads a numeric value, so
/// the lexeme is stored unchanged.  An object keeps its keys in insertion
/// order, and a parsed object never holds the same key twice: when the input
/// repeats a key, the last occurrence wins (the earlier entry keeps its
/// position and its value is replaced).
#[derive(Debug, PartialEq, Eq)]
pub enum JsonValue {
    Null,
    Boolean(bool),
    Number(String),
    Text(String),
    Array(Vec<JsonValue>),
    Object(Vec<(String, JsonValue)>),
}

/// Mathematical image of a `JsonValue`: the same tree over `Seq<char>`.
pub enum JsonSpec {
    Null,
    Boolean(bool),
    Number(Seq<char>),
    Text(Seq<char>),
    Array(Seq<JsonSpec>),
    Object(Seq<(Seq<char>, JsonSpec)>),
}

/// The mathematical tree a `JsonValue` stands for.
pub open spec fn json_view(v: JsonValue) -> JsonSpec
    decreases v,
{
    match v {
        JsonValue::Null => JsonSpec::Null,
        JsonValue::Boolean(b) => JsonSpec::Boolean(b),
        JsonValue::Number(s) => JsonSpec::Number(s@),
        JsonValue::Text(s) => JsonSpec::Text(s@),
        JsonValue::Array(items) => JsonSpec::Array(
            Seq::new(
                items@.len(),
                |i: int|
                    if 0 <= i < items.len() {
                        json_view(items[i])
                    } else {
                        JsonSpec::Null
                    },
            ),
        ),
        JsonValue::Object(pairs) => JsonSpec::Object(
            Seq::new(
                pairs@.len(),
                |i: int|
                    if 0 <= i < pairs.len() {
                        (pairs[i].0@, json_view(pairs[i].1))
                    } else {
                        (Seq::empty(), JsonSpec::Null)
                    },
            ),
        ),
    }
}

impl View for JsonValue {
    type V = JsonSpec;

    open spec fn view(&self) -> JsonSpec {
        json_view(*self)
    }
}

impl JsonSpec {
    /// Well-formedness: every object in the tree has pairwise-distinct keys.
    pub open spec fn wf(self) -> bool
        decreases self,
    {
        match self {
            JsonSpec::Array(items) => forall|i: int| #![trigger items[i]]
                0 <= i < items.len() ==> items[i].wf(),
            JsonSpec::Object(pairs) => {
                &&& forall|i: int, j: int| #![trigger pairs[i], pairs[j]]
                    0 <= i < j < pairs.len() ==> pairs[i].0 != pairs[j].0
                &&& forall|i: int| #![trigger pairs[i]] 0 <= i < pairs.len() ==> pairs[i].1.wf()
            },
            _ => true,
        }
    }
}

/// The value stored under `k` in the pair list, or `Null` when the key is
/// absent; with distinct keys the first match is the only one.
pub open spec fn lookup_pairs(pairs: Seq<(Seq<char>, JsonSpec)>, k: Seq<char>) -> JsonSpec
    decreases pairs.len(),
{
    if pairs.len() == 0 {
        JsonSpec::Null
    } else if pairs[0].0 == k {
        pairs[0].1
    } else {
        lookup_pairs(pairs.drop_first(), k)
    }
}

/// True when the pair list holds an entry for `k`.
pub open spec fn pairs_have_key(pairs: Seq<(Seq<char>, JsonSpec)>, k: Seq<char>) -> bool {
    exists|i: int| 0 <= i < pairs.len() && #[trigger] pairs[i].0 == k
}

/// Key access on a tree, as the schema dialect reads it: the entry of an
/// object, and `Null` both for an absent key and for a non-object.
pub open spec fn json_key(v: JsonSpec, k: Seq<char>) -> JsonSpec {
    match v {
        JsonSpec::Object(pairs) => lookup_pairs(pairs, k),
        _ => JsonSpec::Null,
    }
}

/// True when `v` is an object with an entry for `k`.
pub open spec fn json_has_key(v: JsonSpec, k: Seq<char>) -> bool {
    match v {
        JsonSpec::Object(pairs) => pairs_have_key(pairs, k),
        _ => false,
    }
}

/// Pairwise-distinct keys and well-formed values: what an object's entry
/// list contributes to well-formedness.
pub open spec fn entries_ok(pairs: Seq<(Seq<char>, JsonSpec)>) -> bool {
    &&& forall|i: int, j: int| #![trigger pairs[i], pairs[j]]
        0 <= i < j < pairs.len() ==> pairs[i].0 != pairs[j].0
    &&& forall|i: int| #![trigger pairs[i]] 0 <= i < pairs.len() ==> pairs[i].1.wf()
}

/// Well-formed elements: what an array's item list contributes to
/// well-formedness.
pub open spec fn items_ok(items: Seq<JsonSpec>) -> bool {
    forall|i: int| #![trigger items[i]] 0 <= i < items.len() ==> items[i].wf()
}

proof fn lemma_array_elem_decreases(v: JsonValue, items: Vec<JsonValue>, i: int)
    requires
        v == JsonValue::Array(items),
        0 <= i < items.len(),
    ensures
        decreases_to!(v => items[i]),
{
    match v {
        JsonValue::Array(items2) => {
            assert(decreases_to!(v => items2));
            assert(decreases_to!(items2 => items2[i]));
        },
        _ => {},
    }
}

proof fn lemma_object_val_decreases(v: JsonValue, pairs: Vec<(String, JsonValue)>, i: int)
    requires
        v == JsonValue::Object(pairs),
        0 <= i < pairs.len(),
    ensures
        decreases_to!(v => pairs[i].1),
{
    match v {
        JsonValue::Object(pairs2) => {
            assert(decreases_to!(v => pairs2));
            assert(decreases_to!(pairs2 => pairs2[i]));
            assert(decreases_to!(pairs2[i] => pairs2[i].1));
        },
        _ => {},
    }
}

/// The position of `k` in the pair list, or `-1` when the key is absent.
pub open spec fn key_index(pairs: Seq<(Seq<char>, JsonSpec)>, k: Seq<char>) -> int
    decreases pairs.len(),
{
    if pairs.len() == 0 {
        -1
    } else if pairs[0].0 == k {
        0
    } else {
        let r = key_index(pairs.drop_first(), k);
        if r < 0 {
            -1
        } else {
            r + 1
        }
    }
}

/// The pair list after storing `v` under `k`: a fresh key is appended, a
/// repeated key keeps its position and takes the new value (last wins).
pub open spec fn upsert_pairs(
    pairs: Seq<(Seq<char>, JsonSpec)>,
    k: Seq<char>,
    v: JsonSpec,
) -> Seq<(Seq<char>, JsonSpec)> {
    let ix = key_index(pairs, k);
    if ix < 0 {
        pairs.push((k, v))
    } else {
        pairs.update(ix, (k, v))
    }
}

pub proof fn lemma_key_index(pairs: Seq<(Seq<char>, JsonSpec)>, k: Seq<char>)
    ensures
        key_index(pairs, k) >= 0 ==> key_index(pairs, k) < pairs.len() && pairs[key_index(
            pairs,
            k,
        )].0 == k,
        key_index(pairs, k) < 0 ==> !pairs_have_key(pairs, k),
    decreases pairs.len(),
{
    if pairs.len() > 0 && pairs[0].0 != k {
        lemma_key_index(pairs.drop_first(), k);
        let r = key_index(pairs.drop_first(), k);
        if r >= 0 {
            assert(pairs.drop_first()[r] == pairs[r + 1]);
        } else {
            assert forall|i: int| 0 <= i < pairs.len() implies #[trigger] pairs[i].0 != k by {
                if i > 0 {
                    assert(pairs.drop_first()[i - 1] == pairs[i]);
                }
            }
        }
    }
}

pub proof fn lemma_key_index_at(pairs: Seq<(Seq<char>, JsonSpec)>, k: Seq<char>, j: int)
    requires
        0 <= j < pairs.len(),
        pairs[j].0 == k,
        forall|i: int| 0 <= i < j ==> #[trigger] pairs[i].0 != k,
    ensures
        key_index(pairs, k) == j,
    decreases j,
{
    if j > 0 {
        lemma_key_index_at(pairs.drop_first(), k, j - 1);
    }
}

pub proof fn lemma_key_index_absent(pairs: Seq<(Seq<char>, JsonSpec)>, k: Seq<char>)
    requires
        forall|i: int| 0 <= i < pairs.len() ==> #[trigger] pairs[i].0 != k,
    ensures
        key_index(pairs, k) < 0,
    decreases pairs.len(),
{
    if pairs.len() > 0 {
        assert forall|i: int|
            0 <= i < pairs.drop_first().len() implies #[trigger] pairs.drop_first()[i].0 != k by {
            assert(pairs.drop_first()[i] == pairs[i + 1]);
        }
        lemma_key_index_absent(pairs.drop_first(), k);
    }
}

/// For an object tree, well-formedness is exactly `entries_ok` of its
/// entry list.
pub proof fn lemma_wf_object(w: JsonSpec)
    requires
        w is Object,
    ensures
        w.wf() <==> entries_ok(w->Object_0),
{
}

/// For an array tree, well-formedness is exactly `items_ok` of its items.
pub proof fn lemma_wf_array(w: JsonSpec)
    requires
        w is Array,
    ensures
        w.wf() <==> items_ok(w->Array_0),
{
}

/// Storing into a duplicate-free pair list with well-formed values keeps
/// the list duplicate-free and its values well-formed.
pub proof fn lemma_upsert_wf(pairs: Seq<(Seq<char>, JsonSpec)>, k: Seq<char>, v: JsonSpec)
    requires
        entries_ok(pairs),
        v.wf(),
    ensures
        entries_ok(upsert_pairs(pairs, k, v)),
{
    lemma_key_index(pairs, k);
    let out = upsert_pairs(pairs, k, v);
    let ix = key_index(pairs, k);
    assert forall|i: int| 0 <= i < out.len() implies #[trigger] out[i].1.wf() by {
        if ix < 0 && i == pairs.len() {
            assert(out[i].1 == v);
        } else if 0 <= ix && i == ix {
            assert(out[i].1 == v);
        } else {
            assert(out[i].1 == pairs[i].1);
            assert(pairs[i].1.wf());
        }
    }
    assert forall|i: int, j: int|
        0 <= i < j < out.len() implies #[trigger] out[i].0 != #[trigger] out[j].0 by {
        if ix < 0 {
            if j == pairs.len() {
                assert(out[i].0 == pairs[i].0);
                assert(out[j].0 == k);
                if pairs[i].0 == k {
                    assert(pairs_have_key(pairs, k));
                }
            } else {
                assert(out[i].0 == pairs[i].0);
                assert(out[j].0 == pairs[j].0);
            }
        } else {
            assert(out[i].0 == pairs[i].0);
            assert(out[j].0 == pairs[j].0);
        }
    }
}

pub proof fn lemma_lookup_at(pairs: Seq<(Seq<char>, JsonSpec)>, k: Seq<char>, j: int)
    requires
        0 <= j < pairs.len(),
        pairs[j].0 == k,
        forall|i: int| 0 <= i < j ==> #[trigger] pairs[i].0 != k,
    ensures
        lookup_pairs(pairs, k) == pairs[j].1,
    decreases j,
{
    if j > 0 {
        lemma_lookup_at(pairs.drop_first(), k, j - 1);
    }
}

pub proof fn lemma_lookup_absent(pairs: Seq<(Seq<char>, JsonSpec)>, k: Seq<char>)
    requires
        !pairs_have_key(pairs, k),
    ensures
        lookup_pairs(pairs, k) == JsonSpec::Null,
    decreases pairs.len(),
{
    if pairs.len() > 0 {
        assert(pairs[0].0 != k);
        assert(!pairs_have_key(pairs.drop_first(), k)) by {
            assert forall|i: int|
                0 <= i < pairs.drop_first().len() implies #[trigger] pairs.drop_first()[i].0
                != k by {
                assert(pairs.drop_first()[i] == pairs[i + 1]);
            }
        }
        lemma_lookup_absent(pairs.drop_first(), k);
    }
}

/// The element-wise image of an array's backing list.
pub open spec fn items_view(items: Seq<JsonValue>) -> Seq<JsonSpec> {
    Seq::new(
        items.len(),
        |i: int|
            if 0 <= i < items.len() {
                json_view(items[i])
            } else {
                JsonSpec::Null
            },
    )
}

/// The element-wise image of an object's backing entry list.
pub open spec fn pairs_view(pairs: Seq<(String, JsonValue)>) -> Seq<(Seq<char>, JsonSpec)> {
    Seq::new(
        pairs.len(),
        |i: int|
            if 0 <= i < pairs.len() {
                (pairs[i].0@, json_view(pairs[i].1))
            } else {
                (Seq::empty(), JsonSpec::Null)
            },
    )
}

pub proof fn lemma_array_view(items: Vec<JsonValue>)
    ensures
        json_view(JsonValue::Array(items)) == JsonSpec::Array(items_view(items@)),
{
    assert(json_view(JsonValue::Array(items))->Array_0 =~= items_view(items@));
}

pub proof fn lemma_object_view(pairs: Vec<(String, JsonValue)>)
    ensures
        json_view(JsonValue::Object(pairs)) == JsonSpec::Object(pairs_view(pairs@)),
{
    assert(json_view(JsonValue::Object(pairs))->Object_0 =~= pairs_view(pairs@));
}

/// Stores `v` under `k` in an object's entry list, as `upsert_pairs`
/// describes: a fresh key is appended, a repeated key keeps its position
/// and takes the new value.
pub fn upsert_entry(pairs: &mut Vec<(String, JsonValue)>, k: String, v: JsonValue)
    ensures
        pairs_view(final(pairs)@) == upsert_pairs(pairs_view(old(pairs)@), k@, v@),
{
    let ghost gpairs = pairs_view(pairs@);
    let n = pairs.len();
    let mut i: usize = 0;
    while i < n
        invariant
            n == pairs.len(),
            i <= n,
            pairs@ == old(pairs)@,
            gpairs == pairs_view(pairs@),
            forall|j: int| 0 <= j < i ==> #[trigger] pairs@[j].0@ != k@,
        decreases n - i,
    {
        if crate::strutil::str_eq(pairs[i].0.as_str(), k.as_str()) {
            proof {
                assert forall|j: int| 0 <= j < i implies #[trigger] gpairs[j].0 != k@ by {
                    assert(gpairs[j].0 == pairs@[j].0@);
                }
                assert(gpairs[i as int].0 == k@);
                lemma_key_index_at(gpairs, k@, i as int);
            }
            pairs[i] = (k, v);
            proof {
                assert(pairs_view(pairs@) =~= upsert_pairs(gpairs, k@, v@));
            }
            return ;
        }
        i = i + 1;
    }
    proof {
        assert forall|j: int| 0 <= j < gpairs.len() implies #[trigger] gpairs[j].0 != k@ by {
            assert(gpairs[j].0 == pairs@[j].0@);
        }
        lemma_key_index_absent(gpairs, k@);
    }
    pairs.push((k, v));
    proof {
        assert(pairs_view(pairs@) =~= upsert_pairs(gpairs, k@, v@));
    }
}

impl JsonValue {
    /// The entry of this value under key `k`, when this value is an object
    /// holding that key.
    pub fn key_value<'a>(&'a self, k: &str) -> (r: Option<&'a JsonValue>)
        ensures
            match r {
                Some(w) => json_has_key(self@, k@) && w@ == json_key(self@, k@),
                None => !json_has_key(self@, k@),
            },
    {
        match self {
            JsonValue::Object(pairs) => {
                let n = pairs.len();
                let mut i: usize = 0;
                while i < n
                    invariant
                        n == pairs.len(),
                        i <= n,
                        self@ == json_view(JsonValue::Object(*pairs)),
                        forall|j: int| 0 <= j < i ==> #[trigger] pairs@[j].0@ != k@,
                    decreases n - i,
                {
                    if crate::strutil::str_eq(pairs[i].0.as_str(), k) {
                        proof {
                            let gpairs = self@->Object_0;
                            assert(gpairs[i as int].0 == k@);
                            assert(forall|j: int|
                                0 <= j < i ==> #[trigger] gpairs[j].0 != k@);
                            lemma_lookup_at(gpairs, k@, i as int);
                        }
                        return Some(&pairs[i].1);
                    }
                    i = i + 1;
                }
                proof {
                    let gpairs = self@->Object_0;
                    assert(forall|j: int| 0 <= j < n ==> #[trigger] gpairs[j].0 != k@);
                }
                None
            },
            _ => None,
        }
    }

    /// True when this value is `Null`; key probes treat an explicit `Null`
    /// entry and an absent key alike.
    pub fn is_null(&self) -> (r: bool)
        ensures
            r == (self@ is Null),
    {
        match self {
            JsonValue::Null => true,
            _ => false,
        }
    }

    /// The character content when this value is a text atom.
    pub fn as_text<'a>(&'a self) -> (r: Option<&'a String>)
        ensures
            match r {
                Some(s) => self@ is Text && s@ == self@->Text_0,
                None => !(self@ is Text),
            },
    {
        match self {
            JsonValue::Text(s) => Some(s),
            _ => None,
        }
    }

    /// Renders this tree as diagnostic text, as `json_text` describes.
    pub fn to_text(&self) -> (r: String)
        ensures
            r@ == json_text(self@),
        decreases *self,
    {
        match self {
            JsonValue::Null => String::from_str("null"),
            JsonValue::Boolean(b) => if *b {
                String::from_str("true")
            } else {
                String::from_str("false")
            },
            JsonValue::Number(s) => s.clone(),
            JsonValue::Text(s) => {
                let mut out = String::from_str("\"");
                out.append(s.as_str());
                out.append("\"");
                out
            },
            JsonValue::Array(items) => {
                let ghost gitems = items_view(items@);
                proof {
                    lemma_array_view(*items);
                }
                let mut out = String::from_str("[");
                let n = items.len();
                let mut i: usize = 0;
                while i < n
                    invariant
                        n == items.len(),
                        i <= n,
                        *self == JsonValue::Array(*items),
                        gitems == items_view(items@),
                        out@ == "["@ + join_seqs(item_texts(gitems).take(i as int), ","@),
                    decreases n - i,
                {
                    proof {
                        lemma_array_elem_decreases(*self, *items, i as int);
                    }
                    let piece = items[i].to_text();
                    if i > 0 {
                        out.append(",");
                    }
                    out.append(piece.as_str());
                    proof {
                        assert(item_texts(gitems).take(i + 1).drop_last() =~= item_texts(
                            gitems,
                        ).take(i as int));
                        assert(out@ =~= "["@ + join_seqs(item_texts(gitems).take(i + 1), ","@));
                    }
                    i = i + 1;
                }
                out.append("]");
                proof {
                    assert(item_texts(gitems).take(n as int) =~= item_texts(gitems));
                    assert(out@ =~= json_text(self@));
                }
                out
            },
            JsonValue::Object(pairs) => {
                let ghost gpairs = pairs_view(pairs@);
                proof {
                    lemma_object_view(*pairs);
                }
                let mut out = String::from_str("{");
                let n = pairs.len();
                let mut i: usize = 0;
                while i < n
                    invariant
                        n == pairs.len(),
                        i <= n,
                        *self == JsonValue::Object(*pairs),
                        gpairs == pairs_view(pairs@),
                        out@ == "{"@ + join_seqs(member_texts(gpairs).take(i as int), ","@),
                    decreases n - i,
                {
                    proof {
                        lemma_object_val_decreases(*self, *pairs, i as int);
                    }
                    let piece = pairs[i].1.to_text();
                    if i > 0 {
                        out.append(",");
                    }
                    out.append("\"");
                    out.append(pairs[i].0.as_str());
                    out.append("\": ");
                    out.append(piece.as_str());
                    proof {
                        assert(member_texts(gpairs).take(i + 1).drop_last() =~= member_texts(
                            gpairs,
                        ).take(i as int));
                        assert(out@ =~= "{"@ + join_seqs(
                            member_texts(gpairs).take(i + 1),
                            ","@,
                        ));
                    }
                    i = i + 1;
                }
                out.append("}");
                proof {
                    assert(member_texts(gpairs).take(n as int) =~= member_texts(gpairs));
                    assert(out@ =~= json_text(self@));
                }
                out
            },
        }
    }

    /// A copy of this value standing for the same tree.
    pub fn duplicate(&self) -> (r: JsonValue)
        ensures
            r@ == self@,
        decreases *self,
    {
        match self {
            JsonValue::Null => JsonValue::Null,
            JsonValue::Boolean(b) => JsonValue::Boolean(*b),
            JsonValue::Number(s) => JsonValue::Number(s.clone()),
            JsonValue::Text(s) => JsonValue::Text(s.clone()),
            JsonValue::Array(items) => {
                let n = items.len();
                let mut out: Vec<JsonValue> = Vec::new();
                let mut i: usize = 0;
                while i < n
                    invariant
                        n == items.len(),
                        i <= n,
                        out.len() == i,
                        *self == JsonValue::Array(*items),
                        forall|j: int| 0 <= j < i ==> #[trigger] out@[j]@ == items@[j]@,
                    decreases n - i,
                {
                    proof {
                        lemma_array_elem_decreases(*self, *items, i as int);
                    }
                    let c = items[i].duplicate();
                    out.push(c);
                    i = i + 1;
                }
                proof {
                    let lhs = json_view(JsonValue::Array(out));
                    let rhs = json_view(JsonValue::Array(*items));
                    assert forall|j: int| 0 <= j < n implies json_view(out@[j]) == json_view(
                        items@[j],
                    ) by {
                        assert(out@[j]@ == items@[j]@);
                    }
                    assert(lhs->Array_0 =~= rhs->Array_0);
                }
                JsonValue::Array(out)
            },
            JsonValue::Object(pairs) => {
                let n = pairs.len();
                let mut out: Vec<(String, JsonValue)> = Vec::new();
                let mut i: usize = 0;
                while i < n
                    invariant
                        n == pairs.len(),
                        i <= n,
                        out.len() == i,
                        *self == JsonValue::Object(*pairs),
                        forall|j: int|
                            0 <= j < i ==> #[trigger] out@[j].0@ == pairs@[j].0@ && out@[j].1@
                                == pairs@[j].1@,
                    decreases n - i,
                {
                    proof {
                        lemma_object_val_decreases(*self, *pairs, i as int);
                    }
                    let key = pairs[i].0.clone();
                    let val = pairs[i].1.duplicate();
                    out.push((key, val));
                    proof {
                        assert(out@[i as int].0@ == pairs@[i as int].0@ && out@[i as int].1@
                            == pairs@[i as int].1@);
                    }
                    i = i + 1;
                }
                proof {
                    let lhs = json_view(JsonValue::Object(out));
                    let rhs = json_view(JsonValue::Object(*pairs));
                    assert forall|j: int| 0 <= j < n implies out@[j].0@ == pairs@[j].0@
                        && json_view(out@[j].1) == json_view(pairs@[j].1) by {
                        assert(out@[j].0@ == pairs@[j].0@ && out@[j].1@ == pairs@[j].1@);
                    }
                    assert(lhs->Object_0 =~= rhs->Object_0);
                }
                JsonValue::Object(out)
            },
        }
    }
}

/// The rendered items of an array, in order.
pub open spec fn item_texts(items: Seq<JsonSpec>) -> Seq<Seq<char>>
    decreases items,
{
    Seq::new(
        items.len(),
        |i: int|
            if 0 <= i < items.len() {
                json_text(items[i])
            } else {
                Seq::empty()
            },
    )
}

/// The rendered members of an object, in order.
pub open spec fn member_texts(pairs: Seq<(Seq<char>, JsonSpec)>) -> Seq<Seq<char>>
    decreases pairs,
{
    Seq::new(
        pairs.len(),
        |i: int|
            if 0 <= i < pairs.len() {
                "\""@ + pairs[i].0 + "\": "@ + json_text(pairs[i].1)
            } else {
                Seq::empty()
            },
    )
}

/// The canonical text of a tree, for diagnostics: double-quoted strings,
/// numbers as their kept lexemes, comma-separated items and `"key": value`
/// members in order.
pub open spec fn json_text(v: JsonSpec) -> Seq<char>
    decreases v,
{
    match v {
        JsonSpec::Null => "null"@,
        JsonSpec::Boolean(b) => if b {
            "true"@
        } else {
            "false"@
        },
        JsonSpec::Number(s) => s,
        JsonSpec::Text(s) => "\""@ + s + "\""@,
        JsonSpec::Array(items) => "["@ + join_seqs(item_texts(items), ","@) + "]"@,
        JsonSpec::Object(pairs) => "{"@ + join_seqs(member_texts(pairs), ","@) + "}"@,
    }
}

} // verus!
