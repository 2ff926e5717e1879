//! String-keyed maps of strings (form values, validation errors) and the JSON string
//! lists that some form values hold.

use vstd::prelude::*;
use vstd::hash_map::StringHashMap;

verus! {

/// A map from strings to strings, such as submitted form values or field errors.
pub struct StrMap {
    map: StringHashMap<String>,
}

impl View for StrMap {
    type V = Map<Seq<char>, String>;

    closed spec fn view(&self) -> Map<Seq<char>, String> {
        self.map@
    }
}

/// The string stored under `k`, or the empty string when there is none.
pub open spec fn lookup(m: Map<Seq<char>, String>, k: Seq<char>) -> Seq<char> {
    if m.contains_key(k) {
        m[k]@
    } else {
        Seq::empty()
    }
}

/// The string stored under `k`, if any.
pub open spec fn lookup_opt(m: Map<Seq<char>, String>, k: Seq<char>) -> Option<Seq<char>> {
    if m.contains_key(k) {
        Some(m[k]@)
    } else {
        None
    }
}

impl StrMap {
    /// An empty map.
    pub fn new() -> (r: StrMap)
        ensures
            r@ == Map::<Seq<char>, String>::empty(),
    {
        StrMap { map: StringHashMap::new() }
    }

    /// Set the value stored under `k`.
    pub fn insert(&mut self, k: String, v: String)
        ensures
            final(self)@ == old(self)@.insert(k@, v),
    {
        self.map.insert(k, v);
    }

    /// The value stored under `k`, if any.
    pub fn get(&self, k: &str) -> (r: Option<&String>)
        ensures
            match r {
                Some(v) => self@.contains_key(k@) && *v == self@[k@],
                None => !self@.contains_key(k@),
            },
    {
        self.map.get(k)
    }

    /// The value stored under `k`, or the empty string.
    pub fn get_or_empty(&self, k: &str) -> (r: String)
        ensures
            r@ == lookup(self@, k@),
    {
        match self.map.get(k) {
            Some(v) => v.clone(),
            None => String::new(),
        }
    }

    /// Whether a value is stored under `k`.
    pub fn contains_key(&self, k: &str) -> (r: bool)
        ensures
            r == self@.contains_key(k@),
    {
        self.map.contains_key(k)
    }
}

/// What `serde_json::from_str::<Vec<String>>` yields for a text: the strings of a JSON
/// array of strings, or nothing when the text is not one.
pub uninterp spec fn json_string_list(s: Seq<char>) -> Option<Seq<Seq<char>>>;

/// Parse a JSON array of strings with `serde_json::from_str`. The contract claims that
/// the result is `json_string_list(s@)`, element by element.
#[verifier::external_body]
pub(crate) fn parse_string_list(s: &str) -> (r: Option<Vec<String>>)
    ensures
        match r {
            Some(v) => json_string_list(s@) == Some(v@.map_values(|x: String| x@)),
            None => json_string_list(s@) is None,
        },
{
    serde_json::from_str::<Vec<String>>(s).ok()
}

} // verus!
