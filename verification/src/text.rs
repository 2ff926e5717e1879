//! Character-level string helpers shared by the admin UI, scaffolding and type generation.

use vstd::prelude::*;
use vstd::string::*;

verus! {

// ---------------------------------------------------------------------------
// Character classes and case mapping
// ---------------------------------------------------------------------------

/// A character in the ASCII range.
pub open spec fn is_ascii_char(c: char) -> bool {
    (c as u32) < 128
}

/// ASCII upper-case mapping: `a..=z` become `A..=Z`, everything else is unchanged.
pub open spec fn ascii_upper(c: char) -> char {
    if 'a' <= c && c <= 'z' {
        ((c as u32) - 32) as char
    } else {
        c
    }
}

/// ASCII lower-case mapping: `A..=Z` become `a..=z`, everything else is unchanged.
pub open spec fn ascii_lower(c: char) -> char {
    if 'A' <= c && c <= 'Z' {
        ((c as u32) + 32) as char
    } else {
        c
    }
}

/// ASCII letters and digits.
pub open spec fn ascii_alnum(c: char) -> bool {
    ('a' <= c && c <= 'z') || ('A' <= c && c <= 'Z') || ('0' <= c && c <= '9')
}

/// Every character of `s` is ASCII.
pub open spec fn all_ascii(s: Seq<char>) -> bool {
    forall|i: int| 0 <= i < s.len() ==> is_ascii_char(#[trigger] s[i])
}

/// What `char::to_uppercase` yields for `c`, as a sequence of characters.
pub uninterp spec fn char_upper(c: char) -> Seq<char>;

/// What `str::to_lowercase` returns for a string with characters `s`.
pub uninterp spec fn str_lower(s: Seq<char>) -> Seq<char>;

/// What `char::is_alphanumeric` returns for `c`.
pub uninterp spec fn char_alnum(c: char) -> bool;

/// Appends one character to a `String` (std's `String::push`).
#[verifier::external_body]
pub(crate) fn push_char(s: &mut String, c: char)
    ensures
        final(s)@ == old(s)@.push(c),
{
    s.push(c);
}

/// Upper-cases one character with std's `char::to_uppercase`, collected into a `String`.
/// The contract claims that the result is `char_upper(c)`, and that an ASCII character
/// maps to its single ASCII upper-case form, as std documents for the ASCII range.
#[verifier::external_body]
pub(crate) fn char_to_uppercase(c: char) -> (r: String)
    ensures
        r@ == char_upper(c),
        is_ascii_char(c) ==> r@ == seq![ascii_upper(c)],
{
    c.to_uppercase().collect::<String>()
}

/// Lower-cases a string with std's `str::to_lowercase`. The contract claims that the
/// result is `str_lower(s@)`, and that an all-ASCII string is lower-cased character by
/// character, as std documents for the ASCII range.
#[verifier::external_body]
pub(crate) fn str_to_lowercase(s: &str) -> (r: String)
    ensures
        r@ == str_lower(s@),
        all_ascii(s@) ==> r@ == s@.map_values(|c: char| ascii_lower(c)),
{
    s.to_lowercase()
}

/// std's `char::is_alphanumeric`. The contract claims that the result is
/// `char_alnum(c)`, and that for ASCII it agrees with the ASCII letters and digits.
#[verifier::external_body]
pub(crate) fn char_is_alphanumeric(c: char) -> (b: bool)
    ensures
        b == char_alnum(c),
        is_ascii_char(c) ==> (b == ascii_alnum(c)),
{
    c.is_alphanumeric()
}

// ---------------------------------------------------------------------------
// Conversions between strings and character vectors
// ---------------------------------------------------------------------------

/// The characters of `s`, in order.
pub fn chars_of(s: &str) -> (v: Vec<char>)
    ensures
        v@ == s@,
{
    let n = s.unicode_len();
    let mut v: Vec<char> = Vec::new();
    let mut i: usize = 0;
    while i < n
        invariant
            n == s@.len(),
            i <= n,
            v@ == s@.take(i as int),
        decreases n - i,
    {
        let c = s.get_char(i);
        v.push(c);
        assert(s@.take(i as int).push(c) =~= s@.take(i + 1));
        i = i + 1;
    }
    assert(s@.take(n as int) =~= s@);
    v
}

/// A `String` holding the characters of `v`, in order.
pub fn string_of(v: &[char]) -> (s: String)
    ensures
        s@ == v@,
{
    let mut s = String::new();
    let mut i: usize = 0;
    while i < v.len()
        invariant
            i <= v.len(),
            s@ == v@.take(i as int),
        decreases v.len() - i,
    {
        push_char(&mut s, v[i]);
        assert(v@.take(i as int).push(v@[i as int]) =~= v@.take(i + 1));
        i = i + 1;
    }
    assert(v@.take(v.len() as int) =~= v@);
    s
}

/// `a` followed by `b`.
pub fn concat_str(a: &str, b: &str) -> (s: String)
    ensures
        s@ == a@ + b@,
{
    let mut s = String::from_str(a);
    s.append(b);
    s
}

/// Character-wise equality of two strings.
pub fn str_eq(a: &str, b: &str) -> (r: bool)
    ensures
        r == (a@ == b@),
{
    let av = chars_of(a);
    let bv = chars_of(b);
    if av.len() != bv.len() {
        return false;
    }
    let mut i: usize = 0;
    while i < av.len()
        invariant
            av@ == a@,
            bv@ == b@,
            av.len() == bv.len(),
            i <= av.len(),
            forall|j: int| 0 <= j < i ==> av@[j] == bv@[j],
        decreases av.len() - i,
    {
        if av[i] != bv[i] {
            return false;
        }
        i = i + 1;
    }
    assert(av@ =~= bv@);
    true
}

// ---------------------------------------------------------------------------
// Word-case conversions
// ---------------------------------------------------------------------------

/// Title case of a `snake_case` slug: each `_` becomes a space and the first character
/// of every word is upper-cased ("site_settings" becomes "Site Settings").
/// Stated character by character, from the left.
pub open spec fn title_case(s: Seq<char>) -> Seq<char>
    decreases s.len(),
{
    if s.len() == 0 {
        Seq::empty()
    } else {
        let prev = s.drop_last();
        let c = s.last();
        if c == '_' {
            title_case(prev).push(' ')
        } else if prev.len() == 0 || prev.last() == '_' {
            title_case(prev) + char_upper(c)
        } else {
            title_case(prev).push(c)
        }
    }
}

/// PascalCase of a `snake_case` slug: each `_` is dropped and the first character of
/// every word is upper-cased ("site_settings" becomes "SiteSettings").
pub open spec fn pascal_case(s: Seq<char>) -> Seq<char>
    decreases s.len(),
{
    if s.len() == 0 {
        Seq::empty()
    } else {
        let prev = s.drop_last();
        let c = s.last();
        if c == '_' {
            pascal_case(prev)
        } else if prev.len() == 0 || prev.last() == '_' {
            pascal_case(prev) + char_upper(c)
        } else {
            pascal_case(prev).push(c)
        }
    }
}

/// Convert a slug like "site_settings" to the title "Site Settings".
pub fn to_title_case(slug: &str) -> (r: String)
    ensures
        r@ == title_case(slug@),
{
    let cs = chars_of(slug);
    let mut r = String::new();
    let mut i: usize = 0;
    while i < cs.len()
        invariant
            cs@ == slug@,
            i <= cs.len(),
            r@ == title_case(slug@.take(i as int)),
        decreases cs.len() - i,
    {
        let c = cs[i];
        let ghost pre = slug@.take(i as int);
        assert(slug@.take(i + 1).drop_last() =~= pre);
        if c == '_' {
            push_char(&mut r, ' ');
        } else if i == 0 || cs[i - 1] == '_' {
            let up = char_to_uppercase(c);
            r.append(up.as_str());
        } else {
            push_char(&mut r, c);
        }
        i = i + 1;
    }
    assert(slug@.take(cs.len() as int) =~= slug@);
    r
}

/// Automatic label for a field without one: its name in title case.
pub fn auto_label_from_name(name: &str) -> (r: String)
    ensures
        r@ == title_case(name@),
{
    to_title_case(name)
}

/// Convert a slug like "site_settings" to PascalCase "SiteSettings".
pub fn to_pascal_case(slug: &str) -> (r: String)
    ensures
        r@ == pascal_case(slug@),
{
    let cs = chars_of(slug);
    let mut r = String::new();
    let mut i: usize = 0;
    while i < cs.len()
        invariant
            cs@ == slug@,
            i <= cs.len(),
            r@ == pascal_case(slug@.take(i as int)),
        decreases cs.len() - i,
    {
        let c = cs[i];
        assert(slug@.take(i + 1).drop_last() =~= slug@.take(i as int));
        if c == '_' {
        } else if i == 0 || cs[i - 1] == '_' {
            let up = char_to_uppercase(c);
            r.append(up.as_str());
        } else {
            push_char(&mut r, c);
        }
        i = i + 1;
    }
    assert(slug@.take(cs.len() as int) =~= slug@);
    r
}

// ---------------------------------------------------------------------------
// Template ids
// ---------------------------------------------------------------------------

/// The DOM-safe id of a form name: every `[` becomes `-` and every `]` is dropped
/// ("content[0][items]" becomes "content-0-items").
pub open spec fn template_id_of(name: Seq<char>) -> Seq<char>
    decreases name.len(),
{
    if name.len() == 0 {
        Seq::empty()
    } else {
        let prev = template_id_of(name.drop_last());
        let c = name.last();
        if c == '[' {
            prev.push('-')
        } else if c == ']' {
            prev
        } else {
            prev.push(c)
        }
    }
}

/// A template id holds no brackets, whatever the name it was made from.
pub proof fn lemma_template_id_bracket_free(name: Seq<char>)
    ensures
        forall|i: int|
            0 <= i < template_id_of(name).len() ==> #[trigger] template_id_of(name)[i] != '['
                && template_id_of(name)[i] != ']',
    decreases name.len(),
{
    if name.len() > 0 {
        lemma_template_id_bracket_free(name.drop_last());
        let prev = template_id_of(name.drop_last());
        let t = template_id_of(name);
        assert forall|i: int| 0 <= i < t.len() implies #[trigger] t[i] != '[' && t[i] != ']' by {
            if i < prev.len() {
                assert(t[i] == prev[i]);
            }
        }
    }
}

/// DOM-safe template id for a (possibly bracketed) form field name.
pub fn safe_template_id(name: &str) -> (r: String)
    ensures
        r@ == template_id_of(name@),
{
    let cs = chars_of(name);
    let mut r = String::new();
    let mut i: usize = 0;
    while i < cs.len()
        invariant
            cs@ == name@,
            i <= cs.len(),
            r@ == template_id_of(name@.take(i as int)),
        decreases cs.len() - i,
    {
        let c = cs[i];
        assert(name@.take(i + 1).drop_last() =~= name@.take(i as int));
        if c == '[' {
            push_char(&mut r, '-');
        } else if c == ']' {
        } else {
            push_char(&mut r, c);
        }
        i = i + 1;
    }
    assert(name@.take(cs.len() as int) =~= name@);
    r
}

// ---------------------------------------------------------------------------
// Replacement
// ---------------------------------------------------------------------------

/// Every non-overlapping occurrence of `pat` in `s`, scanned from the left, replaced by
/// `rep` (std's `str::replace` for a non-empty pattern).
pub open spec fn replace_all(s: Seq<char>, pat: Seq<char>, rep: Seq<char>) -> Seq<char>
    recommends
        pat.len() > 0,
    decreases s.len(),
{
    if pat.len() == 0 || s.len() < pat.len() {
        s
    } else if s.take(pat.len() as int) == pat {
        rep + replace_all(s.skip(pat.len() as int), pat, rep)
    } else {
        seq![s[0]] + replace_all(s.skip(1), pat, rep)
    }
}

/// Does `pat` occur in `s` at position `at`?
fn matches_at(s: &Vec<char>, pat: &Vec<char>, at: usize) -> (r: bool)
    requires
        at + pat.len() <= s.len(),
    ensures
        r == (s@.subrange(at as int, at + pat.len()) == pat@),
{
    let mut j: usize = 0;
    while j < pat.len()
        invariant
            at + pat.len() <= s.len(),
            j <= pat.len(),
            forall|k: int| 0 <= k < j ==> s@[at + k] == pat@[k],
        decreases pat.len() - j,
    {
        if s[at + j] != pat[j] {
            assert(s@.subrange(at as int, at + pat.len())[j as int] != pat@[j as int]);
            return false;
        }
        j = j + 1;
    }
    assert(s@.subrange(at as int, at + pat.len()) =~= pat@);
    true
}

/// Replace every non-overlapping occurrence of `pat` in `s` with `rep`.
pub fn replace_str(s: &str, pat: &str, rep: &str) -> (r: String)
    requires
        pat@.len() > 0,
    ensures
        r@ == replace_all(s@, pat@, rep@),
{
    let sv = chars_of(s);
    let pv = chars_of(pat);
    let mut r = String::new();
    let mut i: usize = 0;
    assert(s@.skip(0) =~= s@);
    while i < sv.len()
        invariant
            sv@ == s@,
            pv@ == pat@,
            pat@.len() > 0,
            i <= sv.len(),
            replace_all(s@, pat@, rep@) == r@ + replace_all(s@.skip(i as int), pat@, rep@),
        decreases sv.len() - i,
    {
        let ghost rest = s@.skip(i as int);
        if pv.len() <= sv.len() - i && matches_at(&sv, &pv, i) {
            assert(rest.take(pat@.len() as int) =~= s@.subrange(i as int, i + pat@.len()));
            assert(rest.skip(pat@.len() as int) =~= s@.skip(i + pat@.len()));
            r.append(rep);
            assert(r@ + replace_all(s@.skip(i + pat@.len()), pat@, rep@) =~= (r@.subrange(
                0,
                r@.len() - rep@.len(),
            )) + (rep@ + replace_all(s@.skip(i + pat@.len()), pat@, rep@)));
            i = i + pv.len();
        } else {
            if pv.len() <= sv.len() - i {
                assert(rest.take(pat@.len() as int) =~= s@.subrange(i as int, i + pat@.len()));
            }
            assert(rest.skip(1) =~= s@.skip(i + 1));
            push_char(&mut r, sv[i]);
            assert(seq![s@[i as int]] =~= seq![rest[0]]);
            i = i + 1;
        }
    }
    assert(s@.skip(i as int).len() == 0);
    assert(r@ + s@.skip(i as int) =~= r@);
    r
}

// ---------------------------------------------------------------------------
// Hex encoding
// ---------------------------------------------------------------------------

/// The lower-case hex digit for `d < 16`.
pub open spec fn hex_digit(d: u8) -> char {
    if d < 10 {
        ((d as u32) + 48) as char
    } else {
        ((d as u32) + 87) as char
    }
}

/// Lower-case hex encoding, two digits per byte, most significant nibble first.
pub open spec fn hex_of(bytes: Seq<u8>) -> Seq<char>
    decreases bytes.len(),
{
    if bytes.len() == 0 {
        Seq::empty()
    } else {
        let b = bytes.last();
        hex_of(bytes.drop_last()).push(hex_digit(b / 16)).push(hex_digit(b % 16))
    }
}

fn hex_digit_exec(d: u8) -> (c: char)
    requires
        d < 16,
    ensures
        c == hex_digit(d),
{
    let table: [char; 16] = [
        '0', '1', '2', '3', '4', '5', '6', '7', '8', '9', 'a', 'b', 'c', 'd', 'e', 'f',
    ];
    let c = table[d as usize];
    assert(c == hex_digit(d)) by {
        assert(table@[0] == '0' && table@[9] == '9' && table@[10] == 'a' && table@[15] == 'f');
        assert(table@[1] == '1' && table@[2] == '2' && table@[3] == '3' && table@[4] == '4');
        assert(table@[5] == '5' && table@[6] == '6' && table@[7] == '7' && table@[8] == '8');
        assert(table@[11] == 'b' && table@[12] == 'c' && table@[13] == 'd' && table@[14] == 'e');
    }
    c
}

/// Encode bytes as lowercase hex string.
pub fn hex_encode(bytes: &[u8]) -> (r: String)
    ensures
        r@ == hex_of(bytes@),
        r@.len() == 2 * bytes@.len(),
{
    let mut r = String::new();
    let mut i: usize = 0;
    while i < bytes.len()
        invariant
            i <= bytes.len(),
            r@ == hex_of(bytes@.take(i as int)),
            r@.len() == 2 * i,
        decreases bytes.len() - i,
    {
        let b = bytes[i];
        assert(bytes@.take(i + 1).drop_last() =~= bytes@.take(i as int));
        push_char(&mut r, hex_digit_exec(b / 16));
        push_char(&mut r, hex_digit_exec(b % 16));
        i = i + 1;
    }
    assert(bytes@.take(bytes.len() as int) =~= bytes@);
    r
}

// ---------------------------------------------------------------------------
// Splitting
// ---------------------------------------------------------------------------

/// The index of the first occurrence of `c` in `s`, if any.
pub open spec fn first_index_of(s: Seq<char>, c: char) -> Option<int>
    decreases s.len(),
{
    if s.len() == 0 {
        None
    } else if s[0] == c {
        Some(0)
    } else {
        match first_index_of(s.skip(1), c) {
            Some(i) => Some(i + 1),
            None => None,
        }
    }
}

/// Position of the first `c` in `v`, if any.
pub fn find_char(v: &Vec<char>, c: char) -> (r: Option<usize>)
    ensures
        match r {
            Some(i) => first_index_of(v@, c) == Some(i as int) && i < v.len(),
            None => first_index_of(v@, c) is None,
        },
{
    let mut i: usize = 0;
    while i < v.len()
        invariant
            i <= v.len(),
            forall|j: int| 0 <= j < i ==> v@[j] != c,
        decreases v.len() - i,
    {
        if v[i] == c {
            proof {
                lemma_first_index_of_at(v@, c, i as int);
            }
            return Some(i);
        }
        i = i + 1;
    }
    proof {
        lemma_first_index_of_none(v@, c);
    }
    None
}

/// `first_index_of` finds `i` when `s[i] == c` and no earlier character is `c`.
pub proof fn lemma_first_index_of_at(s: Seq<char>, c: char, i: int)
    requires
        0 <= i < s.len(),
        s[i] == c,
        forall|j: int| 0 <= j < i ==> s[j] != c,
    ensures
        first_index_of(s, c) == Some(i),
    decreases i,
{
    if i > 0 {
        lemma_first_index_of_at(s.skip(1), c, i - 1);
    }
}

/// `first_index_of` finds nothing when no character is `c`.
pub proof fn lemma_first_index_of_none(s: Seq<char>, c: char)
    requires
        forall|j: int| 0 <= j < s.len() ==> s[j] != c,
    ensures
        first_index_of(s, c) is None,
    decreases s.len(),
{
    if s.len() > 0 {
        lemma_first_index_of_none(s.skip(1), c);
    }
}

/// `first_index_of` points at a `c` with none before it.
pub proof fn lemma_first_index_of_sound(s: Seq<char>, c: char)
    ensures
        match first_index_of(s, c) {
            Some(i) => 0 <= i < s.len() && s[i] == c && forall|j: int| 0 <= j < i ==> s[j] != c,
            None => forall|j: int| 0 <= j < s.len() ==> s[j] != c,
        },
    decreases s.len(),
{
    if s.len() > 0 {
        lemma_first_index_of_sound(s.skip(1), c);
        if s[0] != c {
            match first_index_of(s.skip(1), c) {
                Some(i) => {
                    assert forall|j: int| 0 <= j < i + 1 implies s[j] != c by {
                        if j > 0 {
                            assert(s[j] == s.skip(1)[j - 1]);
                        }
                    }
                },
                None => {
                    assert forall|j: int| 0 <= j < s.len() implies s[j] != c by {
                        if j > 0 {
                            assert(s[j] == s.skip(1)[j - 1]);
                        }
                    }
                },
            }
        }
    }
}

/// The part of `v` from `start` up to (not including) `end`, as a `String`.
pub fn substring_of(v: &Vec<char>, start: usize, end: usize) -> (s: String)
    requires
        start <= end <= v.len(),
    ensures
        s@ == v@.subrange(start as int, end as int),
{
    let mut s = String::new();
    let mut i: usize = start;
    while i < end
        invariant
            start <= i <= end <= v.len(),
            s@ == v@.subrange(start as int, i as int),
        decreases end - i,
    {
        push_char(&mut s, v[i]);
        assert(v@.subrange(start as int, i as int).push(v@[i as int]) =~= v@.subrange(
            start as int,
            i + 1,
        ));
        i = i + 1;
    }
    s
}

} // verus!
