//! Command-line argument helpers.

use vstd::prelude::*;
use vstd::string::*;
use crate::text::{chars_of, concat_str, find_char, first_index_of, lemma_first_index_of_at, substring_of};

verus! {

/// The message of a `--field` argument without `=`.
pub open spec fn no_equals_message(s: Seq<char>) -> Seq<char> {
    "invalid KEY=VALUE: no `=` found in `"@ + s + "`"@
}

/// The key and value of a `KEY=VALUE` argument, split at the first `=`.
pub open spec fn key_val_of(s: Seq<char>) -> Option<(Seq<char>, Seq<char>)> {
    match first_index_of(s, '=') {
        Some(p) => Some((s.take(p), s.skip(p + 1))),
        None => None,
    }
}

/// A key without `=` and any value, joined with `=`, split back into the same key
/// and value.
pub proof fn lemma_key_val_roundtrip(k: Seq<char>, v: Seq<char>)
    requires
        !k.contains('='),
    ensures
        key_val_of(k + "="@ + v) == Some((k, v)),
{
    reveal_strlit("=");
    let s = k + "="@ + v;
    assert forall|j: int| 0 <= j < k.len() implies s[j] != '=' by {
        assert(s[j] == k[j]);
    }
    lemma_first_index_of_at(s, '=', k.len() as int);
    assert(s.take(k.len() as int) =~= k);
    assert(s.skip(k.len() as int + 1) =~= v);
}

/// Parse a `KEY=VALUE` pair of a `--field` argument, splitting at the first `=`.
pub fn parse_key_val(s: &str) -> (r: Result<(String, String), String>)
    ensures
        match key_val_of(s@) {
            Some((k, v)) => r matches Ok((rk, rv)) && rk@ == k && rv@ == v,
            None => r matches Err(m) && m@ == no_equals_message(s@),
        },
{
    let cs = chars_of(s);
    match find_char(&cs, '=') {
        Some(p) => {
            let k = substring_of(&cs, 0, p);
            let v = substring_of(&cs, p + 1, cs.len());
            assert(s@.subrange(0, p as int) =~= s@.take(p as int));
            assert(s@.subrange(p + 1, s@.len() as int) =~= s@.skip(p + 1));
            Ok((k, v))
        },
        None => {
            let a = concat_str("invalid KEY=VALUE: no `=` found in `", s);
            Err(concat_str(a.as_str(), "`"))
        },
    }
}

} // verus!
