//! The values a key can hold.
use vstd::prelude::*;
use std::collections::HashMap;
use crate::kv::linked_list::{views, LinkedList};
use crate::text::{decimal_text, i64_text, join, joined};
use vstd::std_specs::hash::obeys_key_model;

verus! {

/// A stored value: text, an integer, a list of strings or a string-to-string map.
#[derive(Debug, PartialEq)]
pub enum Value {
    String(String),
    Ingeger(i64),
    List(LinkedList),
    Hash(HashMap<String, String>),
}

/// The content of a value, with strings taken as their characters.
pub enum ValueView {
    Text(Seq<char>),
    Integer(i64),
    List(Seq<Seq<char>>),
    Hash(Map<String, String>),
}

impl View for Value {
    type V = ValueView;

    open spec fn view(&self) -> ValueView {
        match self {
            Value::String(s) => ValueView::Text(s@),
            Value::Ingeger(i) => ValueView::Integer(*i),
            Value::List(l) => ValueView::List(views(l@)),
            Value::Hash(m) => ValueView::Hash(m@),
        }
    }
}

/// The name of a value's kind.
pub open spec fn type_name_of(v: ValueView) -> Seq<char> {
    match v {
        ValueView::Text(_) => "String"@,
        ValueView::Integer(_) => "Ingeger"@,
        ValueView::List(_) => "List"@,
        ValueView::Hash(_) => "Hash"@,
    }
}

impl Clone for Value {
    /// A copy with the same content.
    fn clone(&self) -> (r: Self)
        ensures
            r@ == self@,
    {
        match self {
            Value::String(s) => Value::String(s.clone()),
            Value::Ingeger(i) => Value::Ingeger(*i),
            Value::List(l) => Value::List(l.clone()),
            Value::Hash(m) => Value::Hash(m.clone()),
        }
    }
}

impl Value {
    /// The name of the value's kind.
    pub fn kind_name(&self) -> (r: &'static str)
        ensures
            r@ == type_name_of(self@),
    {
        match self {
            Value::String(_) => "String",
            Value::Ingeger(_) => "Ingeger",
            Value::List(_) => "List",
            Value::Hash(_) => "Hash",
        }
    }

    /// A text value holding a copy of `s`.
    pub fn from_text(s: &str) -> (r: Value)
        ensures
            r@ == ValueView::Text(s@),
    {
        Value::String(String::from_str(s))
    }

}

impl From<String> for Value {
    /// A text value holding `s`.
    fn from(s: String) -> (r: Value) {
        Value::String(s)
    }
}

impl vstd::std_specs::convert::FromSpecImpl<String> for Value {
    open spec fn obeys_from_spec() -> bool {
        true
    }

    open spec fn from_spec(s: String) -> Value {
        Value::String(s)
    }
}

impl From<i64> for Value {
    /// An integer value.
    fn from(i: i64) -> (r: Value) {
        Value::Ingeger(i)
    }
}

impl vstd::std_specs::convert::FromSpecImpl<i64> for Value {
    open spec fn obeys_from_spec() -> bool {
        true
    }

    open spec fn from_spec(i: i64) -> Value {
        Value::Ingeger(i)
    }
}

/// The text of one key-value pair of a hash value: the key, a colon, a space, the value.
pub open spec fn pair_text(p: (Seq<char>, Seq<char>)) -> Seq<char> {
    p.0 + ": "@ + p.1
}

/// The text of a hash value whose pairs are walked in the order of `pairs`: the pair texts
/// joined with commas, in braces.
pub open spec fn hash_text(pairs: Seq<(Seq<char>, Seq<char>)>) -> Seq<char> {
    "{"@ + joined(pairs.map_values(|p: (Seq<char>, Seq<char>)| pair_text(p)), ","@) + "}"@
}

/// Some key of `m` has the text `p.0` and maps to a value with the text `p.1`.
pub open spec fn has_pair(m: Map<String, String>, p: (Seq<char>, Seq<char>)) -> bool {
    exists|k: String| #[trigger] m.contains_key(k) && k@ == p.0 && m[k]@ == p.1
}

/// `pairs` holds, by content, each key-value pair of `m` once.
pub open spec fn lists_pairs(pairs: Seq<(Seq<char>, Seq<char>)>, m: Map<String, String>) -> bool {
    &&& pairs.len() == m.len()
    &&& forall|i: int| 0 <= i < pairs.len() ==> has_pair(m, #[trigger] pairs[i])
    &&& forall|k: String| #[trigger] m.contains_key(k) ==> exists|i: int|
        0 <= i < pairs.len() && pairs[i] == (k@, m[k]@)
}

/// The key-value pairs of `m`, as std's `HashMap::iter` walks them, gathered in a vector.
/// The order depends on the map's random hasher, so nothing is claimed of it; where the key
/// type behaves as std documents for `String` (equal keys are equal strings), the pairs are
/// each pair of the map once.
#[verifier::external_body]
fn hash_pairs<'a>(m: &'a HashMap<String, String>) -> (r: Vec<(&'a String, &'a String)>)
    ensures
        obeys_key_model::<String>() ==> lists_pairs(r@.map_values(|p: (&String, &String)| (p.0@, p.1@)), m@),
{
    m.iter().collect()
}

impl Value {
    /// The text of the value: the text itself, the decimal number, the list values joined
    /// with spaces, or the hash pairs `key: value` joined with commas in braces, in the
    /// order the hash map walks them.
    pub fn to_text(&self) -> (r: String)
        ensures
            match self@ {
                ValueView::Text(s) => r@ == s,
                ValueView::Integer(i) => r@ == decimal_text(i as int),
                ValueView::List(items) => r@ == joined(items, " "@),
                ValueView::Hash(m) => exists|pairs: Seq<(Seq<char>, Seq<char>)>|
                    r@ == hash_text(pairs) && (obeys_key_model::<String>() ==> lists_pairs(pairs, m)),
            },
    {
        match self {
            Value::String(s) => s.clone(),
            Value::Ingeger(i) => i64_text(*i),
            Value::List(l) => l.to_text(),
            Value::Hash(m) => {
                let pairs = hash_pairs(m);
                let ghost pv = pairs@.map_values(|p: (&String, &String)| (p.0@, p.1@));
                let mut parts: Vec<String> = Vec::new();
                let mut i: usize = 0;
                while i < pairs.len()
                    invariant
                        i <= pairs@.len(),
                        pv == pairs@.map_values(|p: (&String, &String)| (p.0@, p.1@)),
                        parts@.len() == i,
                        forall|j: int| 0 <= j < i ==> #[trigger] parts@[j]@ == pair_text(pv[j]),
                    decreases pairs@.len() - i,
                {
                    let (k, v) = pairs[i];
                    let mut p = k.clone();
                    p.append(": ");
                    p.append(v.as_str());
                    parts.push(p);
                    i = i + 1;
                }
                let mut text = String::from_str("{");
                let joined_parts = join(&parts, ",");
                text.append(joined_parts.as_str());
                text.append("}");
                assert(parts@.map_values(|x: String| x@) =~= pv.map_values(|p: (Seq<char>, Seq<char>)| pair_text(p)));
                assert(text@ == hash_text(pv));
                text
            },
        }
    }
}

} // verus!
