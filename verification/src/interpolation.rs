//! What interpolating a translation template means: every `{{name}}` whose name is a
//! parameter becomes that parameter's value, all other text stays, and the order in
//! which the parameters are applied does not matter.

use vstd::prelude::*;
use crate::text::{replace_all, first_index_of, lemma_first_index_of_at, lemma_first_index_of_sound};
use crate::translations::{interpolate, placeholder};

verus! {

/// No `{` and no `}` in `s`.
pub open spec fn brace_free(s: Seq<char>) -> bool {
    forall|i: int| 0 <= i < s.len() ==> s[i] != '{' && s[i] != '}'
}

/// `t` starts with `{{`.
pub open spec fn opens_hole(t: Seq<char>) -> bool {
    t.len() >= 2 && t[0] == '{' && t[1] == '{'
}

/// The length of the `{{name}}` that `t` starts with, for a name without braces.
pub open spec fn hole_len(t: Seq<char>) -> Option<int> {
    match first_index_of(t.skip(2), '}') {
        Some(i) => if 2 + i + 1 < t.len() && t[2 + i + 1] == '}' && brace_free(
            t.subrange(2, 2 + i),
        ) {
            Some(i + 4)
        } else {
            None
        },
        None => None,
    }
}

/// A template in which every `{{` opens a `{{name}}` whose name has no braces.
pub open spec fn template_ok(t: Seq<char>) -> bool
    decreases t.len(),
{
    if t.len() == 0 {
        true
    } else if opens_hole(t) {
        match hole_len(t) {
            Some(n) => if 4 <= n <= t.len() {
                template_ok(t.skip(n))
            } else {
                false
            },
            None => false,
        }
    } else {
        template_ok(t.skip(1))
    }
}

/// `t` with each `{{name}}` whose name is a key of `params` replaced by its value,
/// scanning from the left; all other text, other placeholders included, is kept.
pub open spec fn substitute(t: Seq<char>, params: Map<Seq<char>, Seq<char>>) -> Seq<char>
    decreases t.len(),
{
    if t.len() == 0 {
        Seq::empty()
    } else if opens_hole(t) && hole_len(t) is Some && 4 <= hole_len(t)->0 <= t.len() {
        let n = hole_len(t)->0;
        let name = t.subrange(2, n - 2);
        (if params.contains_key(name) {
            params[name]
        } else {
            t.take(n)
        }) + substitute(t.skip(n), params)
    } else {
        seq![t[0]] + substitute(t.skip(1), params)
    }
}

/// The parameters as a map from name to value.
pub open spec fn param_map(params: Seq<(String, String)>) -> Map<Seq<char>, Seq<char>>
    decreases params.len(),
{
    if params.len() == 0 {
        Map::empty()
    } else {
        param_map(params.skip(1)).insert(params[0].0@, params[0].1@)
    }
}

/// Names and values without braces, and no name twice.
pub open spec fn params_ok(params: Seq<(String, String)>) -> bool {
    &&& forall|i: int| 0 <= i < params.len() ==> brace_free(#[trigger] params[i].0@)
    &&& forall|i: int| 0 <= i < params.len() ==> brace_free(#[trigger] params[i].1@)
    &&& forall|i: int, j: int|
        0 <= i < j < params.len() ==> #[trigger] params[i].0@ != #[trigger] params[j].0@
}

/// A step of `replace_all` where the pattern does not start the text.
proof fn lemma_replace_step(s: Seq<char>, pat: Seq<char>, rep: Seq<char>)
    requires
        s.len() > 0,
        pat.len() > 0,
        !pat.is_prefix_of(s),
    ensures
        replace_all(s, pat, rep) == seq![s[0]] + replace_all(s.skip(1), pat, rep),
{
    if s.len() < pat.len() {
        assert(seq![s[0]] + s.skip(1) =~= s);
    } else {
        assert(s.take(pat.len() as int) != pat) by {
            if s.take(pat.len() as int) == pat {
                assert(pat =~= s.subrange(0, pat.len() as int));
            }
        }
    }
}

/// A pattern that starts with `{{` never starts inside a prefix `w` in which each `{` is
/// followed by a character other than `{`: replacing leaves `w` as it is.
proof fn lemma_replace_keeps_prefix(w: Seq<char>, x: Seq<char>, pat: Seq<char>, rep: Seq<char>)
    requires
        pat.len() >= 2,
        pat[0] == '{',
        pat[1] == '{',
        forall|j: int| 0 <= j < w.len() && #[trigger] w[j] == '{' ==> j + 1 < w.len() && w[j + 1] != '{',
    ensures
        replace_all(w + x, pat, rep) == w + replace_all(x, pat, rep),
    decreases w.len(),
{
    if w.len() > 0 {
        let s = w + x;
        assert(!pat.is_prefix_of(s)) by {
            if pat.is_prefix_of(s) {
                assert(s[0] == pat[0]);
                assert(s[1] == pat[1]);
            }
        }
        lemma_replace_step(s, pat, rep);
        assert(s.skip(1) =~= w.skip(1) + x);
        assert forall|j: int| 0 <= j < w.skip(1).len() && #[trigger] w.skip(1)[j] == '{' implies j + 1 < w.skip(1).len()
            && w.skip(1)[j + 1] != '{' by {
            assert(w.skip(1)[j] == w[j + 1]);
        }
        lemma_replace_keeps_prefix(w.skip(1), x, pat, rep);
        assert(seq![s[0]] + (w.skip(1) + replace_all(x, pat, rep)) =~= w + replace_all(x, pat, rep));
    }
}

/// The hole that the placeholder of a brace-free name starts.
proof fn lemma_hole_of_placeholder(t: Seq<char>, k: Seq<char>)
    requires
        brace_free(k),
        placeholder(k).is_prefix_of(t),
    ensures
        opens_hole(t),
        hole_len(t) == Some(k.len() as int + 4),
        t.subrange(2, k.len() as int + 2) == k,
        t.take(k.len() as int + 4) == placeholder(k),
{
    reveal_strlit("{{");
    reveal_strlit("}}");
    let p = placeholder(k);
    assert(p.len() == k.len() as int + 4);
    assert forall|i: int| 0 <= i < p.len() implies t[i] == p[i] by {
        assert(t.subrange(0, p.len() as int)[i] == p[i]);
    }
    assert(t[0] == '{' && t[1] == '{');
    let r = t.skip(2);
    assert forall|j: int| 0 <= j < k.len() implies r[j] != '}' by {
        assert(r[j] == t[j + 2]);
        assert(p[j + 2] == k[j]);
    }
    assert(r[k.len() as int] == t[k.len() as int + 2]);
    assert(p[k.len() as int + 2] == '}');
    lemma_first_index_of_at(r, '}', k.len() as int);
    assert(p[k.len() as int + 3] == '}');
    assert forall|j: int| 0 <= j < k.len() implies t.subrange(2, k.len() as int + 2)[j] == k[j] by {
        assert(p[j + 2] == k[j]);
    }
    assert(t.subrange(2, k.len() as int + 2) =~= k);
    assert(t.take(k.len() as int + 4) =~= p);
}

/// A text that agrees with `t` on the hole `t` starts with starts with the same hole.
proof fn lemma_hole_of_prefix(t: Seq<char>, s: Seq<char>, n: int)
    requires
        opens_hole(t),
        hole_len(t) == Some(n),
        4 <= n <= t.len(),
        n <= s.len(),
        s.take(n) == t.take(n),
    ensures
        opens_hole(s),
        hole_len(s) == Some(n),
        s.subrange(2, n - 2) == t.subrange(2, n - 2),
{
    assert(s[0] == s.take(n)[0] && s[1] == s.take(n)[1]);
    assert(t[0] == t.take(n)[0] && t[1] == t.take(n)[1]);
    let i = n - 4;
    lemma_first_index_of_sound(t.skip(2), '}');
    assert forall|j: int| 0 <= j <= i + 1 implies s.skip(2)[j] == t.skip(2)[j] by {
        assert(s.skip(2)[j] == s[j + 2]);
        assert(t.skip(2)[j] == t[j + 2]);
        assert(j + 2 < n);
        assert(s.take(n)[j + 2] == s[j + 2]);
        assert(t.take(n)[j + 2] == t[j + 2]);
        assert(s.take(n)[j + 2] == t.take(n)[j + 2]);
    }
    assert forall|j: int| 0 <= j < i implies s.skip(2)[j] != '}' by {
        assert(s.skip(2)[j] == t.skip(2)[j]);
    }
    assert(s.skip(2)[i] == t.skip(2)[i]);
    lemma_first_index_of_at(s.skip(2), '}', i);
    assert(s[2 + i + 1] == s.skip(2)[i + 1]);
    assert(t[2 + i + 1] == t.skip(2)[i + 1]);
    assert(s.subrange(2, 2 + i) =~= t.subrange(2, 2 + i)) by {
        assert forall|j: int| 0 <= j < i implies #[trigger] s.subrange(2, 2 + i)[j] == t.subrange(2, 2 + i)[j] by {
            assert(s.skip(2)[j] == t.skip(2)[j]);
        }
    }
}

/// Text without braces passes through substitution unchanged, and keeps a template
/// well formed.
proof fn lemma_substitute_plain_prefix(v: Seq<char>, r: Seq<char>, params: Map<Seq<char>, Seq<char>>)
    requires
        brace_free(v),
    ensures
        substitute(v + r, params) == v + substitute(r, params),
        template_ok(r) ==> template_ok(v + r),
    decreases v.len(),
{
    if v.len() == 0 {
        assert(v + r =~= r);
    } else {
        let s = v + r;
        assert(s[0] == v[0]);
        assert(!opens_hole(s));
        assert(s.skip(1) =~= v.skip(1) + r);
        lemma_substitute_plain_prefix(v.skip(1), r, params);
        assert(seq![s[0]] + (v.skip(1) + substitute(r, params)) =~= v + substitute(r, params));
    }
}

/// Substituting nothing changes nothing.
proof fn lemma_substitute_empty(t: Seq<char>)
    ensures
        substitute(t, Map::empty()) == t,
    decreases t.len(),
{
    if t.len() > 0 {
        if opens_hole(t) && hole_len(t) is Some && 4 <= hole_len(t)->0 <= t.len() {
            let n = hole_len(t)->0;
            lemma_substitute_empty(t.skip(n));
            assert(t.take(n) + t.skip(n) =~= t);
        } else {
            lemma_substitute_empty(t.skip(1));
            assert(seq![t[0]] + t.skip(1) =~= t);
        }
    }
}

/// One step of interpolation: replacing the placeholder of one parameter, then
/// substituting the others, substitutes all of them; the result is still well formed.
proof fn lemma_replace_then_substitute(
    t: Seq<char>,
    k: Seq<char>,
    v: Seq<char>,
    rest: Map<Seq<char>, Seq<char>>,
)
    requires
        template_ok(t),
        brace_free(k),
        brace_free(v),
        !rest.contains_key(k),
    ensures
        template_ok(replace_all(t, placeholder(k), v)),
        substitute(replace_all(t, placeholder(k), v), rest) == substitute(t, rest.insert(k, v)),
    decreases t.len(),
{
    reveal_strlit("{{");
    reveal_strlit("}}");
    let pat = placeholder(k);
    let all = rest.insert(k, v);
    assert(pat.len() == k.len() + 4);
    assert(pat[0] == '{' && pat[1] == '{');
    if t.len() == 0 {
        assert(replace_all(t, pat, v) == t);
    } else if opens_hole(t) {
        let n = hole_len(t)->0;
        let name = t.subrange(2, n - 2);
        if pat.is_prefix_of(t) {
            lemma_hole_of_placeholder(t, k);
            assert(t.take(pat.len() as int) == pat);
            assert(replace_all(t, pat, v) == v + replace_all(t.skip(n), pat, v));
            lemma_replace_then_substitute(t.skip(n), k, v, rest);
            lemma_substitute_plain_prefix(v, replace_all(t.skip(n), pat, v), rest);
            assert(name == k);
        } else {
            lemma_replace_step(t, pat, v);
            let w = t.subrange(1, n);
            assert(t.skip(1) =~= w + t.skip(n));
            assert forall|j: int| 0 <= j < w.len() && #[trigger] w[j] == '{' implies j + 1 < w.len() && w[j + 1] != '{' by {
                assert(w[j] == t[j + 1]);
                lemma_first_index_of_sound(t.skip(2), '}');
                if j == 0 {
                    assert(w[1] == t[2]);
                    assert(t[2] == t.skip(2)[0]);
                    if n - 4 > 0 {
                        assert(t.subrange(2, n - 2)[0] == t[2]);
                    }
                } else if j < n - 3 {
                    assert(t.subrange(2, n - 2)[j - 1] == t[j + 1]);
                } else {
                    assert(t[j + 1] == t.skip(2)[j - 1]);
                }
            }
            lemma_replace_keeps_prefix(w, t.skip(n), pat, v);
            let r = replace_all(t.skip(n), pat, v);
            let s = replace_all(t, pat, v);
            assert(s =~= t.take(n) + r);
            assert(s.take(n) =~= t.take(n));
            lemma_hole_of_prefix(t, s, n);
            assert(s.skip(n) =~= r);
            lemma_replace_then_substitute(t.skip(n), k, v, rest);
            assert(name != k) by {
                if name == k {
                    assert(t.take(n) =~= pat) by {
                        assert forall|j: int| 0 <= j < n implies t.take(n)[j] == pat[j] by {
                            if 2 <= j < n - 2 {
                                assert(name[j - 2] == t[j]);
                            } else if j == n - 2 {
                                assert(t[n - 2] == t.skip(2)[n - 4]);
                                lemma_first_index_of_sound(t.skip(2), '}');
                            }
                        }
                    }
                    assert(pat =~= t.subrange(0, pat.len() as int));
                }
            }
            assert(s.take(n) =~= t.take(n));
        }
    } else {
        assert(!pat.is_prefix_of(t)) by {
            if pat.is_prefix_of(t) {
                assert(t[0] == pat[0]);
                assert(t.len() >= 2 && t[1] == pat[1]);
            }
        }
        lemma_replace_step(t, pat, v);
        lemma_replace_then_substitute(t.skip(1), k, v, rest);
        let r = replace_all(t.skip(1), pat, v);
        let s = replace_all(t, pat, v);
        assert(s =~= seq![t[0]] + r);
        assert(!opens_hole(s)) by {
            if opens_hole(s) {
                assert(t[0] == '{');
                assert(t.len() >= 2);
                assert(t[1] != '{');
                assert(!pat.is_prefix_of(t.skip(1))) by {
                    if pat.is_prefix_of(t.skip(1)) {
                        assert(t.skip(1)[0] == pat[0]);
                    }
                }
                lemma_replace_step(t.skip(1), pat, v);
                assert(s[1] == r[0]);
                assert(r[0] == t.skip(1)[0]);
            }
        }
        assert(s.skip(1) =~= r);
    }
}

/// The parameter names are the keys of the parameter map.
proof fn lemma_param_map_keys(params: Seq<(String, String)>, k: Seq<char>)
    ensures
        param_map(params).contains_key(k) <==> exists|i: int| 0 <= i < params.len() && #[trigger] params[i].0@ == k,
    decreases params.len(),
{
    if params.len() > 0 {
        lemma_param_map_keys(params.skip(1), k);
        if param_map(params.skip(1)).contains_key(k) {
            let i = choose|i: int| 0 <= i < params.skip(1).len() && #[trigger] params.skip(1)[i].0@ == k;
            assert(params[i + 1].0@ == k);
        }
        if exists|i: int| 0 <= i < params.len() && #[trigger] params[i].0@ == k {
            let i = choose|i: int| 0 <= i < params.len() && #[trigger] params[i].0@ == k;
            if i > 0 {
                assert(params.skip(1)[i - 1].0@ == k);
            }
        }
    }
}

/// Interpolating a template in which every `{{` opens a `{{name}}`, with parameter names
/// and values that hold no braces and no name twice, replaces each placeholder whose
/// name is a parameter by that parameter's value and keeps all other text; so the
/// result does not depend on the order of the parameters.
pub proof fn lemma_interpolate_substitutes(t: Seq<char>, params: Seq<(String, String)>)
    requires
        template_ok(t),
        params_ok(params),
    ensures
        interpolate(t, params) == substitute(t, param_map(params)),
    decreases params.len(),
{
    if params.len() == 0 {
        lemma_substitute_empty(t);
    } else {
        let k = params[0].0@;
        let v = params[0].1@;
        let tail = params.skip(1);
        assert(params_ok(tail)) by {
            assert forall|i: int| 0 <= i < tail.len() implies brace_free(#[trigger] tail[i].0@)
                && brace_free(tail[i].1@) by {
                assert(tail[i] == params[i + 1]);
            }
            assert forall|i: int, j: int| 0 <= i < j < tail.len() implies #[trigger] tail[i].0@
                != #[trigger] tail[j].0@ by {
                assert(tail[i] == params[i + 1]);
                assert(tail[j] == params[j + 1]);
            }
        }
        assert(brace_free(params[0].0@));
        assert(brace_free(params[0].1@));
        lemma_param_map_keys(tail, k);
        assert(!param_map(tail).contains_key(k)) by {
            if exists|i: int| 0 <= i < tail.len() && #[trigger] tail[i].0@ == k {
                let i = choose|i: int| 0 <= i < tail.len() && #[trigger] tail[i].0@ == k;
                assert(tail[i] == params[i + 1]);
                assert(params[0].0@ != params[i + 1].0@);
            }
        }
        lemma_replace_then_substitute(t, k, v, param_map(tail));
        lemma_interpolate_substitutes(replace_all(t, placeholder(k), v), tail);
    }
}

/// Two parameter lists that give the same names the same values interpolate such a
/// template alike, whatever their order.
pub proof fn lemma_interpolate_order_independent(
    t: Seq<char>,
    p1: Seq<(String, String)>,
    p2: Seq<(String, String)>,
)
    requires
        template_ok(t),
        params_ok(p1),
        params_ok(p2),
        param_map(p1) == param_map(p2),
    ensures
        interpolate(t, p1) == interpolate(t, p2),
{
    lemma_interpolate_substitutes(t, p1);
    lemma_interpolate_substitutes(t, p2);
}

} // verus!
