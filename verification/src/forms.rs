//! Reading submitted forms: the rows of array and blocks fields, sent as flat keys
//! such as `slides[0][title]`, and the join-table data of a form.

use vstd::prelude::*;
use vstd::string::*;
use crate::field::{FieldDefinition, FieldType};
use crate::strmap::StrMap;
use crate::enrich::indexed_name;
use crate::field::is_layout_wrapper;
use crate::scaffold::decimal;
use crate::text::{chars_of, find_char, first_index_of, lemma_first_index_of_at, string_of};

verus! {

// ---------------------------------------------------------------------------
// Row indices
// ---------------------------------------------------------------------------

/// Every character is an ASCII digit.
pub open spec fn all_digits(d: Seq<char>) -> bool {
    forall|i: int| 0 <= i < d.len() ==> '0' <= #[trigger] d[i] && d[i] <= '9'
}

/// The number that a string of ASCII digits writes in decimal.
pub open spec fn digits_value(d: Seq<char>) -> nat
    decreases d.len(),
{
    if d.len() == 0 {
        0
    } else {
        digits_value(d.drop_last()) * 10 + ((d.last() as u32) - 48) as nat
    }
}

/// What `usize::from_str` accepts: an optional `+`, then one or more ASCII digits
/// whose value fits in a `usize`.
pub open spec fn parse_index(s: Seq<char>) -> Option<nat> {
    let digits = if s.len() > 1 && s[0] == '+' {
        s.skip(1)
    } else {
        s
    };
    if digits.len() > 0 && all_digits(digits) && digits_value(digits) <= usize::MAX {
        Some(digits_value(digits))
    } else {
        None
    }
}

/// The value of a prefix of a digit string is at most the value of the whole.
proof fn lemma_digits_prefix_le(d: Seq<char>, i: int)
    requires
        all_digits(d),
        0 <= i <= d.len(),
    ensures
        digits_value(d.take(i)) <= digits_value(d),
    decreases d.len(),
{
    if i < d.len() {
        assert(d.drop_last().take(i) =~= d.take(i));
        lemma_digits_prefix_le(d.drop_last(), i);
    } else {
        assert(d.take(i) =~= d);
    }
}

/// The value of a digit string, or none when it does not fit in a `usize`.
fn digits_to_usize(d: &Vec<char>, start: usize, end: usize) -> (r: Option<usize>)
    requires
        start <= end <= d.len(),
        all_digits(d@.subrange(start as int, end as int)),
    ensures
        match r {
            Some(v) => digits_value(d@.subrange(start as int, end as int)) == v,
            None => digits_value(d@.subrange(start as int, end as int)) > usize::MAX,
        },
{
    let ghost s = d@.subrange(start as int, end as int);
    let mut v: usize = 0;
    let mut i: usize = start;
    assert(s.take(0) =~= Seq::<char>::empty());
    while i < end
        invariant
            start <= i <= end <= d.len(),
            s == d@.subrange(start as int, end as int),
            all_digits(s),
            v == digits_value(s.take(i - start)),
        decreases end - i,
    {
        let c = d[i];
        assert(s[i - start] == c);
        let digit: usize = ((c as u32) - 48) as usize;
        assert(s.take(i - start + 1).drop_last() =~= s.take(i - start));
        assert(s.take(i - start + 1).last() == c);
        match v.checked_mul(10) {
            Some(t) => match t.checked_add(digit) {
                Some(n) => {
                    v = n;
                },
                None => {
                    proof {
                        lemma_digits_prefix_le(s, i - start + 1);
                    }
                    return None;
                },
            },
            None => {
                proof {
                    lemma_digits_prefix_le(s, i - start + 1);
                }
                return None;
            },
        }
        i = i + 1;
    }
    assert(s.take(end - start) =~= s);
    Some(v)
}

// ---------------------------------------------------------------------------
// Form keys
// ---------------------------------------------------------------------------

/// The row index and sub-field key that a form key `field_name[idx][key]` names.
pub open spec fn array_form_key(key: Seq<char>, field_name: Seq<char>) -> Option<(nat, Seq<char>)> {
    let prefix = field_name + "["@;
    if !(prefix.len() <= key.len() && key.take(prefix.len() as int) == prefix) {
        None
    } else {
        let rest = key.skip(prefix.len() as int);
        match first_index_of(rest, ']') {
            None => None,
            Some(p) => match parse_index(rest.take(p)) {
                None => None,
                Some(idx) => {
                    let after = rest.skip(p + 1);
                    if after.len() >= 2 && after[0] == '[' && after.last() == ']' {
                        Some((idx, after.subrange(1, after.len() - 1)))
                    } else {
                        None
                    }
                },
            },
        }
    }
}

/// The characters of `v` from `start` to `end`.
fn slice_chars(v: &Vec<char>, start: usize, end: usize) -> (r: Vec<char>)
    requires
        start <= end <= v.len(),
    ensures
        r@ == v@.subrange(start as int, end as int),
{
    let mut r: Vec<char> = Vec::new();
    let mut i: usize = start;
    while i < end
        invariant
            start <= i <= end <= v.len(),
            r@ == v@.subrange(start as int, i as int),
        decreases end - i,
    {
        r.push(v[i]);
        assert(v@.subrange(start as int, i as int).push(v@[i as int]) =~= v@.subrange(start as int, i + 1));
        i = i + 1;
    }
    r
}

/// The row index and sub-field key of a form key `field_name[idx][key]` (see
/// `array_form_key`).
#[verifier::loop_isolation(false)]
pub fn parse_array_form_key(key: &str, field_name: &str) -> (r: Option<(usize, String)>)
    ensures
        match r {
            Some((i, k)) => array_form_key(key@, field_name@) == Some((i as nat, k@)),
            None => array_form_key(key@, field_name@) is None,
        },
{
    proof {
        reveal_strlit("[");
    }
    let kc = chars_of(key);
    let nc = chars_of(field_name);
    let ghost prefix = field_name@ + "["@;
    if kc.len() <= nc.len() {
        return None;
    }
    let plen = nc.len() + 1;
    let mut j: usize = 0;
    while j < nc.len()
        invariant
            j <= nc.len() < kc.len(),
            kc@ == key@,
            nc@ == field_name@,
            forall|t: int| 0 <= t < j ==> kc@[t] == nc@[t],
        decreases nc.len() - j,
    {
        if kc[j] != nc[j] {
            assert(key@.take(prefix.len() as int)[j as int] != prefix[j as int]);
            return None;
        }
        j = j + 1;
    }
    if kc[nc.len()] != '[' {
        assert(key@.take(prefix.len() as int)[nc.len() as int] != prefix[nc.len() as int]);
        return None;
    }
    assert(key@.take(prefix.len() as int) =~= prefix);
    let rest = slice_chars(&kc, plen, kc.len());
    assert(rest@ =~= key@.skip(prefix.len() as int));
    let p = match find_char(&rest, ']') {
        Some(p) => p,
        None => {
            return None;
        },
    };
    let digits = slice_chars(&rest, 0, p);
    assert(digits@ =~= rest@.take(p as int));
    let ds: usize = if digits.len() > 1 && digits[0] == '+' {
        1
    } else {
        0
    };
    let ghost dseq = if digits@.len() > 1 && digits@[0] == '+' {
        digits@.skip(1)
    } else {
        digits@
    };
    assert(dseq =~= digits@.subrange(ds as int, digits@.len() as int));
    if ds >= digits.len() {
        return None;
    }
    let mut t: usize = ds;
    while t < digits.len()
        invariant
            ds <= t <= digits.len(),
            forall|u: int| ds <= u < t ==> '0' <= #[trigger] digits@[u] && digits@[u] <= '9',
        decreases digits.len() - t,
    {
        let c = digits[t];
        if c < '0' || c > '9' {
            assert(dseq[t - ds] == c);
            return None;
        }
        t = t + 1;
    }
    assert(all_digits(dseq));
    let idx = match digits_to_usize(&digits, ds, digits.len()) {
        Some(v) => v,
        None => {
            return None;
        },
    };
    let after = slice_chars(&rest, p + 1, rest.len());
    assert(after@ =~= rest@.skip(p + 1));
    if after.len() >= 2 && after[0] == '[' && after[after.len() - 1] == ']' {
        let k = string_of(slice_chars(&after, 1, after.len() - 1).as_slice());
        Some((idx, k))
    } else {
        None
    }
}

// ---------------------------------------------------------------------------
// Rows of array and blocks fields
// ---------------------------------------------------------------------------

/// The rows that the form entries `pairs` give the field `field_name`: for each row
/// index, the sub-field values named for it. A later entry for the same sub-field of
/// the same row replaces an earlier one.
pub open spec fn form_rows(pairs: Seq<(String, String)>, field_name: Seq<char>) -> Map<nat, Map<Seq<char>, String>>
    decreases pairs.len(),
{
    if pairs.len() == 0 {
        Map::empty()
    } else {
        let m = form_rows(pairs.drop_last(), field_name);
        match array_form_key(pairs.last().0@, field_name) {
            Some((idx, k)) => m.insert(
                idx,
                (if m.contains_key(idx) {
                    m[idx]
                } else {
                    Map::empty()
                }).insert(k, pairs.last().1),
            ),
            None => m,
        }
    }
}

/// `ks` lists the row indices of `m` in increasing order.
pub open spec fn keys_listed(ks: Seq<nat>, m: Map<nat, Map<Seq<char>, String>>) -> bool {
    &&& forall|a: int, b: int| 0 <= a < b < ks.len() ==> ks[a] < ks[b]
    &&& forall|a: int| 0 <= a < ks.len() ==> m.contains_key(#[trigger] ks[a])
    &&& forall|i: nat| m.contains_key(i) ==> ks.contains(i)
}

/// `rows` are the rows of `m` in increasing order of their index.
pub open spec fn rows_in_order(rows: Seq<StrMap>, m: Map<nat, Map<Seq<char>, String>>) -> bool {
    exists|ks: Seq<nat>|
        #[trigger] keys_listed(ks, m) && rows.len() == ks.len() && forall|a: int|
            0 <= a < ks.len() ==> (#[trigger] rows[a])@ == m[ks[a]]
}

/// The row indices of the rows gathered so far.
spec fn acc_keys(acc: Seq<(usize, StrMap)>) -> Seq<nat> {
    acc.map_values(|e: (usize, StrMap)| e.0 as nat)
}

/// Gathered rows, kept in increasing order of their index.
spec fn acc_ok(acc: Seq<(usize, StrMap)>, m: Map<nat, Map<Seq<char>, String>>) -> bool {
    &&& keys_listed(acc_keys(acc), m)
    &&& forall|a: int| 0 <= a < acc.len() ==> (#[trigger] acc[a]).1@ == m[acc[a].0 as nat]
}

/// Record `value` for sub-field `k` of row `idx`.
fn upsert_row(acc: &mut Vec<(usize, StrMap)>, idx: usize, k: String, value: String, Ghost(m): Ghost<Map<nat, Map<Seq<char>, String>>>)
    requires
        acc_ok(old(acc)@, m),
    ensures
        acc_ok(
            final(acc)@,
            m.insert(
                idx as nat,
                (if m.contains_key(idx as nat) {
                    m[idx as nat]
                } else {
                    Map::empty()
                }).insert(k@, value),
            ),
        ),
{
    let ghost m2 = m.insert(
        idx as nat,
        (if m.contains_key(idx as nat) {
            m[idx as nat]
        } else {
            Map::empty()
        }).insert(k@, value),
    );
    let ghost ks = acc_keys(acc@);
    let mut p: usize = 0;
    while p < acc.len() && acc[p].0 < idx
        invariant
            p <= acc.len(),
            acc_ok(acc@, m),
            ks == acc_keys(acc@),
            forall|a: int| 0 <= a < p ==> acc@[a].0 < idx,
        decreases acc.len() - p,
    {
        p = p + 1;
    }
    if p < acc.len() && acc[p].0 == idx {
        let (i, mut row) = acc.remove(p);
        row.insert(k, value);
        acc.insert(p, (i, row));
        proof {
            assert(acc_keys(acc@) =~= ks);
            assert forall|a: int| 0 <= a < acc@.len() implies (#[trigger] acc@[a]).1@ == m2[acc@[a].0 as nat] by {
                if a != p {
                    assert(acc@[a].0 != idx) by {
                        assert(ks[a] != ks[p as int]);
                    }
                }
            }
            assert forall|i: nat| m2.contains_key(i) implies acc_keys(acc@).contains(i) by {
                if i != idx as nat {
                    assert(m.contains_key(i));
                    assert(ks.contains(i));
                } else {
                    assert(acc_keys(acc@)[p as int] == i);
                }
            }
        }
    } else {
        let mut row = StrMap::new();
        row.insert(k, value);
        let ghost before = acc@;
        acc.insert(p, (idx, row));
        proof {
            assert(!m.contains_key(idx as nat)) by {
                if m.contains_key(idx as nat) {
                    let a = choose|a: int| 0 <= a < ks.len() && ks[a] == idx as nat;
                    assert(ks.contains(idx as nat));
                    if a < p {
                        assert(before[a].0 < idx);
                    } else {
                        if p < before.len() {
                            assert(ks[p as int] <= ks[a]);
                            assert(before[p as int].0 > idx);
                        }
                    }
                }
            }
            assert(acc_keys(acc@) =~= ks.insert(p as int, idx as nat));
            let nks = acc_keys(acc@);
            assert forall|a: int, b: int| 0 <= a < b < nks.len() implies nks[a] < nks[b] by {
                if a < p && b > p {
                    assert(nks[a] == ks[a]);
                    assert(nks[b] == ks[b - 1]);
                    if p < before.len() {
                        assert(ks[p as int] >= idx);
                    }
                    assert(before[a].0 < idx);
                    if b - 1 > p {
                        assert(ks[p as int] < ks[b - 1]);
                    }
                } else if a == p as int {
                    assert(nks[b] == ks[b - 1]);
                    assert(before[p as int].0 > idx);
                    if b - 1 > p {
                        assert(ks[p as int] < ks[b - 1]);
                    }
                } else if b == p as int {
                    assert(before[a].0 < idx);
                } else if b < p {
                    assert(nks[a] == ks[a] && nks[b] == ks[b]);
                } else {
                    assert(nks[a] == ks[a - 1] && nks[b] == ks[b - 1]);
                }
            }
            assert forall|a: int| 0 <= a < acc@.len() implies (#[trigger] acc@[a]).1@ == m2[acc@[a].0 as nat] by {
                if a < p {
                    assert(acc@[a] == before[a]);
                    assert(before[a].0 < idx);
                } else if a > p {
                    assert(acc@[a] == before[a - 1]);
                    assert(before[p as int].0 > idx);
                    if a - 1 > p {
                        assert(ks[p as int] < ks[a - 1]);
                    }
                }
            }
            assert forall|a: int| 0 <= a < nks.len() implies m2.contains_key(#[trigger] nks[a]) by {
                if a < p {
                    assert(nks[a] == ks[a]);
                } else if a > p {
                    assert(nks[a] == ks[a - 1]);
                }
            }
            assert forall|i: nat| m2.contains_key(i) implies nks.contains(i) by {
                if i == idx as nat {
                    assert(nks[p as int] == i);
                } else {
                    assert(ks.contains(i));
                    let a = choose|a: int| 0 <= a < ks.len() && ks[a] == i;
                    if a < p {
                        assert(nks[a] == i);
                    } else {
                        assert(nks[a + 1] == i);
                    }
                }
            }
        }
    }
}

/// Parse the rows of an array or blocks field from flat form entries.
///
/// Entries named `field_name[idx][key]` (with `idx` a row index) give sub-field `key` of
/// row `idx`; other entries are ignored. The rows come out in increasing order of
/// their index, each as a map from sub-field to value.
pub fn parse_array_form_data(form: &Vec<(String, String)>, field_name: &str) -> (rows: Vec<StrMap>)
    ensures
        rows_in_order(rows@, form_rows(form@, field_name@)),
{
    let mut acc: Vec<(usize, StrMap)> = Vec::new();
    let mut i: usize = 0;
    proof {
        assert(form@.take(0) =~= Seq::<(String, String)>::empty());
        assert(acc_keys(acc@) =~= Seq::<nat>::empty());
    }
    while i < form.len()
        invariant
            i <= form.len(),
            acc_ok(acc@, form_rows(form@.take(i as int), field_name@)),
        decreases form.len() - i,
    {
        let ghost m = form_rows(form@.take(i as int), field_name@);
        assert(form@.take(i + 1).drop_last() =~= form@.take(i as int));
        assert(form@.take(i + 1).last() == form@[i as int]);
        match parse_array_form_key(form[i].0.as_str(), field_name) {
            Some((idx, k)) => {
                upsert_row(&mut acc, idx, k, form[i].1.clone(), Ghost(m));
            },
            None => {},
        }
        i = i + 1;
    }
    assert(form@.take(form.len() as int) =~= form@);
    let ghost m = form_rows(form@, field_name@);
    let ghost ks = acc_keys(acc@);
    let mut rows: Vec<StrMap> = Vec::new();
    let mut j: usize = 0;
    let ghost total = acc.len();
    while acc.len() > 0
        invariant
            j + acc.len() == total,
            total == ks.len(),
            acc_keys(acc@) == ks.skip(j as int),
            forall|a: int| 0 <= a < acc.len() ==> (#[trigger] acc@[a]).1@ == m[acc@[a].0 as nat],
            rows.len() == j,
            forall|a: int| 0 <= a < j ==> (#[trigger] rows@[a])@ == m[ks[a]],
        decreases acc.len(),
    {
        let ghost old_acc = acc@;
        let (_, row) = acc.remove(0);
        proof {
            assert(ks.skip(j as int)[0] == ks[j as int]);
            assert(acc_keys(old_acc)[0] == ks[j as int]);
        }
        rows.push(row);
        proof {
            assert forall|a: int| 0 <= a < acc@.len() implies acc_keys(acc@)[a] == ks.skip(j + 1)[a] by {
                assert(acc@[a] == old_acc[a + 1]);
                assert(acc_keys(old_acc)[a + 1] == ks.skip(j as int)[a + 1]);
            }
            assert(acc_keys(acc@) =~= ks.skip(j + 1));
            assert forall|a: int| 0 <= a < acc.len() implies (#[trigger] acc@[a]).1@ == m[acc@[a].0 as nat] by {
                assert(acc@[a] == old_acc[a + 1]);
            }
        }
        j = j + 1;
    }
    assert(keys_listed(ks, m));
    rows
}

// ---------------------------------------------------------------------------
// Join-table data
// ---------------------------------------------------------------------------

/// Join-table data of one field of a submitted form.
pub enum JoinValue {
    /// The comma-separated ids of a has-many relationship.
    Ids(String),
    /// The rows of an array or blocks field.
    Rows(Vec<StrMap>),
}

/// The value of the last form entry named `k`, if any.
pub open spec fn form_value(pairs: Seq<(String, String)>, k: Seq<char>) -> Option<Seq<char>>
    decreases pairs.len(),
{
    if pairs.len() == 0 {
        None
    } else if pairs.last().0@ == k {
        Some(pairs.last().1@)
    } else {
        form_value(pairs.drop_last(), k)
    }
}

/// Fields that store join-table data: has-many relationships, arrays and blocks.
pub open spec fn has_join_data(f: FieldDefinition) -> bool {
    ||| (f.field_type == FieldType::Relationship && f.relationship is Some
        && f.relationship->0.has_many)
    ||| f.field_type == FieldType::Array
    ||| f.field_type == FieldType::Blocks
}

/// The fields of a list that store join-table data, in order.
pub open spec fn join_fields(fs: Seq<FieldDefinition>) -> Seq<FieldDefinition>
    decreases fs.len(),
{
    if fs.len() == 0 {
        Seq::empty()
    } else if has_join_data(fs.last()) {
        join_fields(fs.drop_last()).push(fs.last())
    } else {
        join_fields(fs.drop_last())
    }
}

/// The join-table entry of field `f` for a submitted form.
pub open spec fn join_entry_ok(e: (String, JoinValue), f: FieldDefinition, form: Seq<(String, String)>) -> bool {
    &&& e.0@ == f.name@
    &&& if f.field_type == FieldType::Relationship {
        e.1 matches JoinValue::Ids(ids) && ids@ == match form_value(form, f.name@) {
            Some(v) => v,
            None => Seq::empty(),
        }
    } else {
        e.1 matches JoinValue::Rows(rows) && rows_in_order(rows@, form_rows(form, f.name@))
    }
}

/// The value of the last form entry named `k`, if any.
fn form_get(form: &Vec<(String, String)>, k: &str) -> (r: Option<String>)
    ensures
        match r {
            Some(v) => form_value(form@, k@) == Some(v@),
            None => form_value(form@, k@) is None,
        },
{
    let mut i: usize = form.len();
    assert(form@.take(form.len() as int) =~= form@);
    while i > 0
        invariant
            i <= form.len(),
            form_value(form@, k@) == form_value(form@.take(i as int), k@),
        decreases i,
    {
        assert(form@.take(i as int).drop_last() =~= form@.take(i - 1));
        assert(form@.take(i as int).last() == form@[i - 1]);
        if crate::text::str_eq(form[i - 1].0.as_str(), k) {
            return Some(form[i - 1].1.clone());
        }
        i = i - 1;
    }
    None
}

/// The join-table data of a submitted form: for each has-many relationship its
/// comma-separated ids (empty when the form has none, which clears the selection), and
/// for each array and blocks field its rows. One entry per such field, in order.
pub fn extract_join_data_from_form(form: &Vec<(String, String)>, field_defs: &[FieldDefinition]) -> (r: Vec<(String, JoinValue)>)
    ensures
        r.len() == join_fields(field_defs@).len(),
        forall|i: int| 0 <= i < r.len() ==> join_entry_ok(#[trigger] r@[i], join_fields(field_defs@)[i], form@),
{
    let mut r: Vec<(String, JoinValue)> = Vec::new();
    let mut i: usize = 0;
    while i < field_defs.len()
        invariant
            i <= field_defs.len(),
            r.len() == join_fields(field_defs@.take(i as int)).len(),
            forall|a: int| 0 <= a < r.len() ==> join_entry_ok(#[trigger] r@[a], join_fields(field_defs@.take(i as int))[a], form@),
        decreases field_defs.len() - i,
    {
        let f = &field_defs[i];
        assert(field_defs@.take(i + 1).drop_last() =~= field_defs@.take(i as int));
        assert(field_defs@.take(i + 1).last() == field_defs@[i as int]);
        match f.field_type {
            FieldType::Relationship => {
                let many = match &f.relationship {
                    Some(rc) => rc.has_many,
                    None => false,
                };
                if many {
                    let ids = match form_get(form, f.name.as_str()) {
                        Some(v) => v,
                        None => String::new(),
                    };
                    r.push((f.name.clone(), JoinValue::Ids(ids)));
                }
            },
            FieldType::Array | FieldType::Blocks => {
                let rows = parse_array_form_data(form, f.name.as_str());
                r.push((f.name.clone(), JoinValue::Rows(rows)));
            },
            _ => {},
        }
        i = i + 1;
    }
    assert(field_defs@.take(field_defs.len() as int) =~= field_defs@);
    r
}

// ---------------------------------------------------------------------------
// Laws
// ---------------------------------------------------------------------------

/// The decimal text of a number is a string of digits that reads back as the number.
pub proof fn lemma_decimal_digits(n: nat)
    ensures
        decimal(n).len() >= 1,
        all_digits(decimal(n)),
        digits_value(decimal(n)) == n,
    decreases n,
{
    let x: u32 = (((n % 10) as u32) + 48) as u32;
    let c = (x as char);
    assert(48 <= x < 58);
    assert((c as u32) == x);
    assert(n == (n / 10) * 10 + n % 10);
    if n >= 10 {
        lemma_decimal_digits(n / 10);
        let d = decimal(n / 10);
        assert(decimal(n) == d.push(c));
        assert(d.push(c).drop_last() =~= d);
        assert(d.push(c).last() == c);
        assert(digits_value(d.push(c)) == digits_value(d) * 10 + ((c as u32) - 48) as nat);
        assert forall|i: int| 0 <= i < d.push(c).len() implies '0' <= #[trigger] d.push(c)[i] && d.push(c)[i] <= '9' by {
            if i < d.len() {
                assert(d.push(c)[i] == d[i]);
            }
        }
    } else {
        assert(decimal(n) == seq![c]);
        assert(seq![c].drop_last() =~= Seq::<char>::empty());
        assert(seq![c].last() == c);
        assert(digits_value(seq![c]) == digits_value(Seq::<char>::empty()) * 10 + ((c as u32) - 48) as nat);
    }
}

/// Every row index that fits in a `usize` reads back from its decimal text.
pub proof fn lemma_parse_decimal(n: nat)
    requires
        n <= usize::MAX,
    ensures
        parse_index(decimal(n)) == Some(n),
{
    lemma_decimal_digits(n);
    let d = decimal(n);
    assert(d[0] != '+');
}

/// The form name of a sub-field of a stored row, as the form renders it
/// (`parent[idx][name]`), is read back by the form parser as that row and sub-field.
pub proof fn lemma_form_name_roundtrip(parent: Seq<char>, idx: nat, sf: FieldDefinition)
    requires
        idx <= usize::MAX,
        !is_layout_wrapper(sf.field_type),
    ensures
        array_form_key(indexed_name(parent, idx, sf), parent) == Some((idx, sf.name@)),
{
    reveal_strlit("[");
    reveal_strlit("][");
    reveal_strlit("]");
    let name = sf.name@;
    let d = decimal(idx);
    lemma_decimal_digits(idx);
    lemma_parse_decimal(idx);
    let key = indexed_name(parent, idx, sf);
    let prefix = parent + "["@;
    assert(key =~= prefix + (d + "]["@ + name + "]"@));
    assert(key.take(prefix.len() as int) =~= prefix);
    let rest = key.skip(prefix.len() as int);
    assert(rest =~= d + "]["@ + name + "]"@);
    assert forall|j: int| 0 <= j < d.len() implies rest[j] != ']' by {
        assert(rest[j] == d[j]);
        assert('0' <= d[j] && d[j] <= '9');
    }
    assert(rest[d.len() as int] == ']');
    lemma_first_index_of_at(rest, ']', d.len() as int);
    assert(rest.take(d.len() as int) =~= d);
    let after = rest.skip(d.len() as int + 1);
    assert(after =~= "["@ + name + "]"@);
    assert(after.subrange(1, after.len() - 1) =~= name);
}

} // verus!
