//! Type generation: the supported output languages, and the ordering of the slugs
//! that the generators walk.

use vstd::prelude::*;
use vstd::string::*;
use crate::text::{chars_of, str_eq, str_lower, str_to_lowercase};

verus! {

/// Supported output languages for type generation.
#[derive(Debug, Clone, Copy, PartialEq, Eq, Structural)]
pub enum Language {
    Lua,
    Typescript,
    Go,
    Python,
    Rust,
}

/// The language named by an already lower-cased string (with its short aliases).
pub open spec fn language_named(s: Seq<char>) -> Option<Language> {
    if s == "lua"@ {
        Some(Language::Lua)
    } else if s == "ts"@ || s == "typescript"@ {
        Some(Language::Typescript)
    } else if s == "go"@ || s == "golang"@ {
        Some(Language::Go)
    } else if s == "py"@ || s == "python"@ {
        Some(Language::Python)
    } else if s == "rs"@ || s == "rust"@ {
        Some(Language::Rust)
    } else {
        None
    }
}

/// The file extension of the generated file of each language.
pub open spec fn language_extension(l: Language) -> Seq<char> {
    match l {
        Language::Lua => "lua"@,
        Language::Typescript => "ts"@,
        Language::Go => "go"@,
        Language::Python => "py"@,
        Language::Rust => "rs"@,
    }
}

impl Language {
    /// Parse a language name, case-insensitively.
    pub fn from_str(s: &str) -> (r: Option<Language>)
        ensures
            r == language_named(str_lower(s@)),
    {
        let lower = str_to_lowercase(s);
        Language::from_lowercase(lower.as_str())
    }

    /// The language named by an already lower-cased string.
    pub fn from_lowercase(s: &str) -> (r: Option<Language>)
        ensures
            r == language_named(s@),
    {
        if str_eq(s, "lua") {
            Some(Language::Lua)
        } else if str_eq(s, "ts") || str_eq(s, "typescript") {
            Some(Language::Typescript)
        } else if str_eq(s, "go") || str_eq(s, "golang") {
            Some(Language::Go)
        } else if str_eq(s, "py") || str_eq(s, "python") {
            Some(Language::Python)
        } else if str_eq(s, "rs") || str_eq(s, "rust") {
            Some(Language::Rust)
        } else {
            None
        }
    }

    /// File extension of the generated file.
    pub fn file_extension(&self) -> (r: &'static str)
        ensures
            r@ == language_extension(*self),
    {
        match self {
            Language::Lua => "lua",
            Language::Typescript => "ts",
            Language::Go => "go",
            Language::Python => "py",
            Language::Rust => "rs",
        }
    }

    /// Every supported language, in menu order.
    pub fn all() -> (r: Vec<Language>)
        ensures
            r@ == seq![
                Language::Lua,
                Language::Typescript,
                Language::Go,
                Language::Python,
                Language::Rust,
            ],
    {
        let r = vec![Language::Lua, Language::Typescript, Language::Go, Language::Python, Language::Rust];
        assert(r@ =~= seq![
            Language::Lua,
            Language::Typescript,
            Language::Go,
            Language::Python,
            Language::Rust,
        ]);
        r
    }

    /// Short label of the language (the same as its extension).
    pub fn label(&self) -> (r: &'static str)
        ensures
            r@ == language_extension(*self),
    {
        self.file_extension()
    }
}

/// The name of the generated file of a language, inside the `types` directory.
pub fn generated_file_name(lang: Language) -> (r: String)
    ensures
        r@ == "generated."@ + language_extension(lang),
{
    let mut r = String::from_str("generated.");
    r.append(lang.file_extension());
    r
}

/// The path that type generation writes for a language, relative to the config directory.
pub fn generated_path(lang: Language) -> (r: String)
    ensures
        r@ == "types/generated."@ + language_extension(lang),
{
    let mut r = String::from_str("types/generated.");
    r.append(lang.file_extension());
    r
}

/// The path that the default type generation (Lua, run on server startup) writes,
/// relative to the config directory.
pub fn generate() -> (r: String)
    ensures
        r@ == "types/generated."@ + language_extension(Language::Lua),
{
    generated_path(Language::Lua)
}

// ---------------------------------------------------------------------------
// Ordering of slugs
// ---------------------------------------------------------------------------

/// Strict lexicographic order on character sequences, by code point (the order of
/// `String`).
pub open spec fn lex_lt(a: Seq<char>, b: Seq<char>) -> bool
    decreases a.len(),
{
    if a.len() == 0 {
        b.len() > 0
    } else if b.len() == 0 {
        false
    } else if a[0] != b[0] {
        a[0] < b[0]
    } else {
        lex_lt(a.skip(1), b.skip(1))
    }
}

/// Non-strict lexicographic order.
pub open spec fn lex_le(a: Seq<char>, b: Seq<char>) -> bool {
    a == b || lex_lt(a, b)
}

/// Each element is at most every later one.
pub open spec fn is_sorted(s: Seq<Seq<char>>) -> bool {
    forall|i: int, j: int| 0 <= i < j < s.len() ==> lex_le(#[trigger] s[i], #[trigger] s[j])
}

/// The character sequences of a vector of strings.
pub open spec fn views(v: Seq<String>) -> Seq<Seq<char>> {
    v.map_values(|s: String| s@)
}

proof fn lemma_seq_ext_skip(a: Seq<char>, b: Seq<char>)
    requires
        a.len() > 0,
        b.len() > 0,
        a[0] == b[0],
        a.skip(1) == b.skip(1),
    ensures
        a == b,
{
    assert(a.len() == a.skip(1).len() + 1);
    assert(b.len() == b.skip(1).len() + 1);
    assert(a =~= b) by {
        assert forall|i: int| 0 <= i < a.len() implies a[i] == b[i] by {
            if i > 0 {
                assert(a[i] == a.skip(1)[i - 1]);
                assert(b[i] == b.skip(1)[i - 1]);
            }
        }
    }
}

/// The lexicographic order is total.
pub proof fn lemma_lex_total(a: Seq<char>, b: Seq<char>)
    ensures
        lex_le(a, b) || lex_lt(b, a),
    decreases a.len(),
{
    if a.len() == 0 {
        if b.len() == 0 {
            assert(a =~= b);
        }
    } else if b.len() == 0 {
        assert(lex_lt(b, a));
    } else if a[0] != b[0] {
        if a[0] < b[0] {
            assert(lex_lt(a, b));
        } else {
            assert(lex_lt(b, a));
        }
    } else {
        lemma_lex_total(a.skip(1), b.skip(1));
        if a.skip(1) == b.skip(1) {
            lemma_seq_ext_skip(a, b);
        } else if lex_lt(a.skip(1), b.skip(1)) {
            assert(lex_lt(a, b));
        } else {
            assert(lex_lt(b, a));
        }
    }
}

/// The strict lexicographic order is irreflexive and asymmetric.
pub proof fn lemma_lex_asym(a: Seq<char>, b: Seq<char>)
    ensures
        !(lex_lt(a, b) && lex_lt(b, a)),
        !lex_lt(a, a),
    decreases a.len(),
{
    if a.len() > 0 && b.len() > 0 && a[0] == b[0] {
        lemma_lex_asym(a.skip(1), b.skip(1));
    }
    if a.len() > 0 {
        lemma_lex_asym(a.skip(1), a.skip(1));
    }
}

/// The strict lexicographic order is transitive.
pub proof fn lemma_lex_trans(a: Seq<char>, b: Seq<char>, c: Seq<char>)
    requires
        lex_lt(a, b),
        lex_lt(b, c),
    ensures
        lex_lt(a, c),
    decreases a.len(),
{
    if a.len() > 0 && b.len() > 0 && c.len() > 0 && a[0] == b[0] && b[0] == c[0] {
        lemma_lex_trans(a.skip(1), b.skip(1), c.skip(1));
    }
}

/// The non-strict order is transitive.
pub proof fn lemma_lex_le_trans(a: Seq<char>, b: Seq<char>, c: Seq<char>)
    requires
        lex_le(a, b),
        lex_le(b, c),
    ensures
        lex_le(a, c),
{
    if a != b && b != c {
        lemma_lex_trans(a, b, c);
    }
}

/// Compare two strings in the order of `String`.
pub fn string_le(a: &str, b: &str) -> (r: bool)
    ensures
        r == lex_le(a@, b@),
{
    let av = chars_of(a);
    let bv = chars_of(b);
    let mut i: usize = 0;
    assert(av@.take(0) =~= bv@.take(0));
    assert(a@.skip(0) =~= a@);
    assert(b@.skip(0) =~= b@);
    while i < av.len() && i < bv.len()
        invariant
            av@ == a@,
            bv@ == b@,
            i <= av.len(),
            i <= bv.len(),
            av@.take(i as int) == bv@.take(i as int),
            lex_le(a@, b@) == lex_le(a@.skip(i as int), b@.skip(i as int)),
        decreases av.len() - i,
    {
        let ghost sa = a@.skip(i as int);
        let ghost sb = b@.skip(i as int);
        assert(sa[0] == av@[i as int] && sb[0] == bv@[i as int]);
        if av[i] != bv[i] {
            assert(sa != sb);
            return av[i] < bv[i];
        }
        assert(sa.skip(1) =~= a@.skip(i + 1));
        assert(sb.skip(1) =~= b@.skip(i + 1));
        assert(av@.take(i + 1) =~= av@.take(i as int).push(av@[i as int]));
        assert(bv@.take(i + 1) =~= bv@.take(i as int).push(bv@[i as int]));
        proof {
            if sa.skip(1) == sb.skip(1) {
                lemma_seq_ext_skip(sa, sb);
            }
            if sa == sb {
                assert(sa.skip(1) == sb.skip(1));
            }
        }
        i = i + 1;
    }
    let ghost sa = a@.skip(i as int);
    let ghost sb = b@.skip(i as int);
    if i == av.len() {
        if i == bv.len() {
            assert(sa =~= sb);
        }
        true
    } else {
        assert(sb.len() == 0);
        assert(sa.len() > 0);
        false
    }
}

/// Sort strings ascending in the order of `String`.
#[verifier::loop_isolation(false)]
pub fn sort_strings(v: &Vec<String>) -> (r: Vec<String>)
    ensures
        is_sorted(views(r@)),
        views(r@).to_multiset() == views(v@).to_multiset(),
        r.len() == v.len(),
{
    broadcast use vstd::seq_lib::group_to_multiset_ensures;
    broadcast use vstd::seq_lib::to_multiset_insert;
    broadcast use vstd::seq_lib::to_multiset_build;

    let mut r: Vec<String> = Vec::new();
    let mut i: usize = 0;
    while i < v.len()
        invariant
            i <= v.len(),
            is_sorted(views(r@)),
            views(r@).to_multiset() == views(v@.take(i as int)).to_multiset(),
            r.len() == i,
        decreases v.len() - i,
    {
        let x = v[i].clone();
        let mut p: usize = 0;
        while p < r.len() && string_le(r[p].as_str(), x.as_str())
            invariant
                p <= r.len(),
                forall|k: int| 0 <= k < p ==> lex_le(#[trigger] r@[k]@, x@),
            decreases r.len() - p,
        {
            p = p + 1;
        }
        proof {
            if p < r.len() {
                lemma_lex_total(r@[p as int]@, x@);
            }
            assert(x@ == v@[i as int]@);
        }
        let ghost old_r = r@;
        r.insert(p, x);
        proof {
            assert(views(r@) =~= views(old_r).insert(p as int, x@));
            assert(views(v@.take(i + 1)) =~= views(v@.take(i as int)).push(v@[i as int]@));
            assert forall|a: int, b: int| 0 <= a < b < r.len() implies lex_le(
                #[trigger] views(r@)[a],
                #[trigger] views(r@)[b],
            ) by {
                let ra = views(r@)[a];
                let rb = views(r@)[b];
                let ov = views(old_r);
                if b < p {
                    assert(ra == ov[a] && rb == ov[b]);
                } else if b == p {
                    assert(rb == x@);
                    assert(ra == ov[a]);
                    assert(lex_le(r@[a]@, x@));
                } else if a == p {
                    assert(ra == x@);
                    assert(rb == ov[b - 1]);
                    if b - 1 > p {
                        assert(lex_le(ov[p as int], ov[b - 1]));
                    }
                    assert(lex_le(x@, ov[p as int]));
                    lemma_lex_le_trans(x@, ov[p as int], ov[b - 1]);
                } else if a < p {
                    assert(ra == ov[a] && rb == ov[b - 1]);
                    assert(lex_le(ov[a], ov[b - 1]));
                } else {
                    assert(ra == ov[a - 1] && rb == ov[b - 1]);
                    assert(lex_le(ov[a - 1], ov[b - 1]));
                }
            }
        }
        i = i + 1;
    }
    assert(v@.take(v.len() as int) =~= v@);
    r
}

/// Collection slugs in ascending order.
pub fn sorted_collection_slugs(collection_slugs: &Vec<String>) -> (r: Vec<String>)
    ensures
        is_sorted(views(r@)),
        views(r@).to_multiset() == views(collection_slugs@).to_multiset(),
{
    sort_strings(collection_slugs)
}

/// Global slugs in ascending order.
pub fn sorted_global_slugs(global_slugs: &Vec<String>) -> (r: Vec<String>)
    ensures
        is_sorted(views(r@)),
        views(r@).to_multiset() == views(global_slugs@).to_multiset(),
{
    sort_strings(global_slugs)
}

} // verus!
