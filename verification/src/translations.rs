//! Admin UI translation strings: lookup with fallback to the key, and `{{var}}`
//! interpolation.

use vstd::prelude::*;
use vstd::string::*;
use vstd::hash_map::StringHashMap;
use crate::text::{replace_all, replace_str};

verus! {

/// The map that a list of key/value pairs builds when later pairs overwrite earlier ones.
pub open spec fn pairs_map(pairs: Seq<(String, String)>) -> Map<Seq<char>, String>
    decreases pairs.len(),
{
    if pairs.len() == 0 {
        Map::empty()
    } else {
        pairs_map(pairs.drop_last()).insert(pairs.last().0@, pairs.last().1)
    }
}

/// The placeholder that a parameter name stands for in a template: `{{name}}`.
pub open spec fn placeholder(name: Seq<char>) -> Seq<char> {
    "{{"@ + name + "}}"@
}

/// A template with each parameter's placeholder replaced by its value, one parameter
/// after the other, in the order given.
pub open spec fn interpolate(template: Seq<char>, params: Seq<(String, String)>) -> Seq<char>
    decreases params.len(),
{
    if params.len() == 0 {
        template
    } else {
        interpolate(
            replace_all(template, placeholder(params[0].0@), params[0].1@),
            params.skip(1),
        )
    }
}

/// What `serde_json::from_str::<HashMap<String, String>>` yields for a text: the map of
/// a JSON object of strings, or nothing when the text is not one.
pub uninterp spec fn json_string_map(s: Seq<char>) -> Option<Map<Seq<char>, Seq<char>>>;

/// The characters of each value of a map.
pub open spec fn text_map(m: Map<Seq<char>, String>) -> Map<Seq<char>, Seq<char>> {
    m.map_values(|v: String| v@)
}

/// The keys of the pairs are pairwise different.
pub open spec fn distinct_keys(pairs: Seq<(String, String)>) -> bool {
    forall|i: int, j: int| 0 <= i < j < pairs.len() ==> pairs[i].0@ != pairs[j].0@
}

/// Parse a JSON object of strings with `serde_json::from_str` into a `HashMap` and list
/// its entries. The contract claims that parsing fails exactly when
/// `json_string_map(s@)` is none, and otherwise that the entries have distinct keys and
/// make up that map. Their order (the map's iteration order) is not claimed.
#[verifier::external_body]
fn parse_string_map(s: &str) -> (r: Option<Vec<(String, String)>>)
    ensures
        r is None <==> json_string_map(s@) is None,
        r matches Some(v) ==> distinct_keys(v@) && text_map(pairs_map(v@)) == json_string_map(s@)->0,
{
    match serde_json::from_str::<std::collections::HashMap<String, String>>(s) {
        Ok(m) => Some(m.into_iter().collect()),
        Err(_) => None,
    }
}

/// The strings of a translation file: its map when it parses, else none.
pub open spec fn file_strings(text: Seq<char>) -> Map<Seq<char>, Seq<char>> {
    match json_string_map(text) {
        Some(m) => m,
        None => Map::empty(),
    }
}

proof fn lemma_pairs_map_concat(a: Seq<(String, String)>, b: Seq<(String, String)>)
    ensures
        pairs_map(a + b) == pairs_map(a).union_prefer_right(pairs_map(b)),
    decreases b.len(),
{
    if b.len() == 0 {
        assert(a + b =~= a);
        assert(pairs_map(a).union_prefer_right(pairs_map(b)) =~= pairs_map(a));
    } else {
        assert((a + b).drop_last() =~= a + b.drop_last());
        assert((a + b).last() == b.last());
        lemma_pairs_map_concat(a, b.drop_last());
        assert(pairs_map(a + b) =~= pairs_map(a).union_prefer_right(pairs_map(b)));
    }
}

/// Holds resolved translation strings for a single locale.
pub struct Translations {
    strings: StringHashMap<String>,
}

impl View for Translations {
    type V = Map<Seq<char>, String>;

    closed spec fn view(&self) -> Map<Seq<char>, String> {
        self.strings@
    }
}

impl Translations {
    /// Translations built from the compiled-in base strings, overlaid with the strings of
    /// the configured locale (an override replaces the base string of the same key).
    pub fn from_layers(base: Vec<(String, String)>, overrides: Vec<(String, String)>) -> (r: Self)
        ensures
            r@ == pairs_map(base@ + overrides@),
    {
        let mut strings: StringHashMap<String> = StringHashMap::new();
        let ghost all = base@ + overrides@;
        let mut i: usize = 0;
        while i < base.len()
            invariant
                i <= base.len(),
                all == base@ + overrides@,
                strings@ == pairs_map(all.take(i as int)),
            decreases base.len() - i,
        {
            assert(all.take(i + 1).drop_last() =~= all.take(i as int));
            assert(all[i as int] == base@[i as int]);
            strings.insert(base[i].0.clone(), base[i].1.clone());
            i = i + 1;
        }
        let mut j: usize = 0;
        while j < overrides.len()
            invariant
                j <= overrides.len(),
                all == base@ + overrides@,
                strings@ == pairs_map(all.take(base.len() + j)),
            decreases overrides.len() - j,
        {
            assert(all.take(base.len() + j + 1).drop_last() =~= all.take(base.len() + j));
            assert(all[base.len() + j] == overrides@[j as int]);
            strings.insert(overrides[j].0.clone(), overrides[j].1.clone());
            j = j + 1;
        }
        assert(all.take(base.len() + overrides.len()) =~= all);
        Translations { strings }
    }

    /// Translations from the texts of the compiled-in English strings and, when the locale
    /// has a translation file, of that file: the English strings (none when their text does
    /// not parse), overlaid with the file's strings when it parses; a file that does not
    /// parse is ignored.
    pub fn from_json_texts(default_en: &str, overlay: Option<&str>) -> (r: Self)
        ensures
            text_map(r@) == file_strings(default_en@).union_prefer_right(
                match overlay {
                    Some(t) => file_strings(t@),
                    None => Map::empty(),
                },
            ),
    {
        let base = match parse_string_map(default_en) {
            Some(v) => v,
            None => Vec::new(),
        };
        let over = match overlay {
            Some(t) => match parse_string_map(t) {
                Some(v) => v,
                None => Vec::new(),
            },
            None => Vec::new(),
        };
        let ghost b = base@;
        let ghost o = over@;
        let r = Self::from_layers(base, over);
        proof {
            lemma_pairs_map_concat(b, o);
            assert(pairs_map(Seq::<(String, String)>::empty()) =~= Map::empty());
            let om = match overlay {
                Some(t) => file_strings(t@),
                None => Map::empty(),
            };
            assert(text_map(pairs_map(b)) =~= file_strings(default_en@));
            assert(text_map(pairs_map(o)) =~= om);
            assert(text_map(pairs_map(b).union_prefer_right(pairs_map(o))) =~= text_map(pairs_map(b)).union_prefer_right(
                text_map(pairs_map(o)),
            ));
        }
        r
    }

    /// Get a translated string by key. Returns the key itself if not found.
    pub fn get<'a>(&'a self, key: &'a str) -> (r: &'a str)
        ensures
            r@ == (if self@.contains_key(key@) {
                self@[key@]@
            } else {
                key@
            }),
    {
        match self.strings.get(key) {
            Some(s) => s.as_str(),
            None => key,
        }
    }

    /// Get a translated string and interpolate `{{var}}` placeholders with the given
    /// parameters, in order.
    pub fn get_interpolated(&self, key: &str, params: &[(String, String)]) -> (r: String)
        ensures
            r@ == interpolate(
                if self@.contains_key(key@) {
                    self@[key@]@
                } else {
                    key@
                },
                params@,
            ),
    {
        let template = self.get(key);
        let mut result = String::from_str(template);
        let mut i: usize = 0;
        assert(params@.skip(0) =~= params@);
        while i < params.len()
            invariant
                i <= params.len(),
                interpolate(template@, params@) == interpolate(result@, params@.skip(i as int)),
            decreases params.len() - i,
        {
            let mut pat = String::from_str("{{");
            pat.append(params[i].0.as_str());
            pat.append("}}");
            proof {
                reveal_strlit("{{");
            }
            assert(pat@.len() >= 2);
            assert(params@.skip(i as int)[0] == params@[i as int]);
            assert(params@.skip(i as int).skip(1) =~= params@.skip(i + 1));
            result = replace_str(result.as_str(), pat.as_str(), params[i].1.as_str());
            i = i + 1;
        }
        result
    }
}

} // verus!
