//! Document versions: what a stored snapshot restores into the main table, and the
//! SQL that the version table is read and written with.

use vstd::prelude::*;
use vstd::string::*;
use crate::enrich::{field_of, member, DocValue};
use crate::field::{has_parent_column, FieldDefinition, FieldType};
use crate::scaffold::{decimal, u64_to_decimal};
use crate::strmap::StrMap;
use crate::text::{concat_str, str_eq};

verus! {

// ---------------------------------------------------------------------------
// Snapshot values
// ---------------------------------------------------------------------------

/// The column text of a snapshot value: strings as they are, numbers and booleans by
/// their JSON text, nothing for null or absent; none for arrays and objects (their data
/// lives in join tables).
pub open spec fn snapshot_text(v: Option<DocValue>) -> Option<Seq<char>> {
    match v {
        Some(DocValue::Str(s)) => Some(s@),
        Some(DocValue::Number(n)) => Some(n@),
        Some(DocValue::Bool(b)) => Some(
            if b {
                "true"@
            } else {
                "false"@
            },
        ),
        Some(DocValue::Null) => Some(Seq::empty()),
        None => Some(Seq::empty()),
        _ => None,
    }
}

/// The value behind an optional reference.
pub open spec fn opt_val(o: Option<&DocValue>) -> Option<DocValue> {
    match o {
        Some(v) => Some(*v),
        None => None,
    }
}

/// The column text of a snapshot value (see `snapshot_text`).
pub fn snapshot_val_to_string(val: Option<&DocValue>) -> (r: Option<String>)
    ensures
        match r {
            Some(s) => snapshot_text(opt_val(val)) == Some(s@),
            None => snapshot_text(opt_val(val)) is None,
        },
{
    match val {
        Some(DocValue::Str(s)) => Some(s.clone()),
        Some(DocValue::Number(n)) => Some(n.clone()),
        Some(DocValue::Bool(b)) => Some(
            if *b {
                String::from_str("true")
            } else {
                String::from_str("false")
            },
        ),
        Some(DocValue::Null) | None => Some(String::new()),
        _ => None,
    }
}

/// The member `k` of a snapshot object.
fn get_entry<'a>(obj: &'a Vec<(String, DocValue)>, k: &str) -> (r: Option<&'a DocValue>)
    ensures
        opt_val(r) == member(obj@, k@),
{
    let mut i: usize = 0;
    assert(obj@.skip(0) =~= obj@);
    while i < obj.len()
        invariant
            i <= obj.len(),
            member(obj@, k@) == member(obj@.skip(i as int), k@),
        decreases obj.len() - i,
    {
        assert(obj@.skip(i as int).skip(1) =~= obj@.skip(i + 1));
        assert(obj@.skip(i as int)[0] == obj@[i as int]);
        if str_eq(obj[i].0.as_str(), k) {
            return Some(&obj[i].1);
        }
        i = i + 1;
    }
    None
}

// ---------------------------------------------------------------------------
// Column data of a snapshot
// ---------------------------------------------------------------------------

/// The `group__sub` column of a sub-field of a group.
pub open spec fn sub_column(group: Seq<char>, sub: Seq<char>) -> Seq<char> {
    group + "__"@ + sub
}

/// The snapshot value of a group sub-field: its flat `group__sub` key, else its member
/// of the nested group object.
pub open spec fn group_sub_value(obj: Seq<(String, DocValue)>, group: Seq<char>, sub: Seq<char>) -> Option<DocValue> {
    match member(obj, sub_column(group, sub)) {
        Some(v) => Some(v),
        None => field_of(member(obj, group), sub),
    }
}

/// The columns that the sub-fields `subs` of group `g` add to `m`.
pub open spec fn group_columns(
    m: Map<Seq<char>, Seq<char>>,
    obj: Seq<(String, DocValue)>,
    g: FieldDefinition,
    subs: Seq<FieldDefinition>,
    locales_enabled: bool,
) -> Map<Seq<char>, Seq<char>>
    decreases subs.len(),
{
    if subs.len() == 0 {
        m
    } else {
        let m1 = group_columns(m, obj, g, subs.drop_last(), locales_enabled);
        let sub = subs.last();
        if (g.localized || sub.localized) && locales_enabled {
            m1
        } else {
            match snapshot_text(group_sub_value(obj, g.name@, sub.name@)) {
                Some(s) => m1.insert(sub_column(g.name@, sub.name@), s),
                None => m1,
            }
        }
    }
}

/// The main-table columns that a snapshot restores for `fields`: group sub-fields as
/// `group__sub` columns, other fields with a parent column by name; localized fields
/// are left out when locales are enabled (their locale columns are restored apart).
pub open spec fn snapshot_columns(
    obj: Seq<(String, DocValue)>,
    fields: Seq<FieldDefinition>,
    locales_enabled: bool,
) -> Map<Seq<char>, Seq<char>>
    decreases fields.len(),
{
    if fields.len() == 0 {
        Map::empty()
    } else {
        let m = snapshot_columns(obj, fields.drop_last(), locales_enabled);
        let f = fields.last();
        if f.field_type == FieldType::Group {
            group_columns(m, obj, f, f.fields@, locales_enabled)
        } else if !has_parent_column(f) || (f.localized && locales_enabled) {
            m
        } else {
            match snapshot_text(member(obj, f.name@)) {
                Some(s) => m.insert(f.name@, s),
                None => m,
            }
        }
    }
}

/// Column `k` with text `v` is restored from sub-field `s` of group `g`: it is the
/// `g__s` column, neither the group nor the sub-field is localized while locales are
/// enabled, and `v` is the text of the sub-field's snapshot value.
pub open spec fn sub_source(
    obj: Seq<(String, DocValue)>,
    g: FieldDefinition,
    s: FieldDefinition,
    k: Seq<char>,
    v: Seq<char>,
    locales_enabled: bool,
) -> bool {
    &&& k == g.name@ + "__"@ + s.name@
    &&& !(locales_enabled && (g.localized || s.localized))
    &&& snapshot_text(group_sub_value(obj, g.name@, s.name@)) == Some(v)
}

/// Column `k` with text `v` is restored from field `f`: from one of its sub-fields
/// when it is a group, else it is the field's own column, the field is not localized
/// while locales are enabled, and `v` is the text of its snapshot value.
pub open spec fn field_source(
    obj: Seq<(String, DocValue)>,
    f: FieldDefinition,
    k: Seq<char>,
    v: Seq<char>,
    locales_enabled: bool,
) -> bool {
    if f.field_type == FieldType::Group {
        exists|j: int| 0 <= j < f.fields.len() && sub_source(obj, f, #[trigger] f.fields@[j], k, v, locales_enabled)
    } else {
        &&& k == f.name@
        &&& has_parent_column(f)
        &&& !(locales_enabled && f.localized)
        &&& snapshot_text(member(obj, f.name@)) == Some(v)
    }
}

proof fn lemma_group_columns_sources(
    m: Map<Seq<char>, Seq<char>>,
    obj: Seq<(String, DocValue)>,
    g: FieldDefinition,
    subs: Seq<FieldDefinition>,
    le: bool,
)
    ensures
        m.dom().subset_of(group_columns(m, obj, g, subs, le).dom()),
        forall|k: Seq<char>| #[trigger] group_columns(m, obj, g, subs, le).contains_key(k) ==> {
            let r = group_columns(m, obj, g, subs, le);
            (m.contains_key(k) && r[k] == m[k]) || exists|j: int|
                0 <= j < subs.len() && sub_source(obj, g, #[trigger] subs[j], k, r[k], le)
        },
        forall|j: int| 0 <= j < subs.len() && !(le && (g.localized || subs[j].localized))
            && (#[trigger] snapshot_text(group_sub_value(obj, g.name@, subs[j].name@))) is Some
            ==> group_columns(m, obj, g, subs, le).contains_key(sub_column(g.name@, subs[j].name@)),
    decreases subs.len(),
{
    if subs.len() > 0 {
        let init = subs.drop_last();
        lemma_group_columns_sources(m, obj, g, init, le);
        let m1 = group_columns(m, obj, g, init, le);
        let r = group_columns(m, obj, g, subs, le);
        let sub = subs.last();
        assert forall|k: Seq<char>| #[trigger] r.contains_key(k) implies (m.contains_key(k) && r[k] == m[k])
            || exists|j: int| 0 <= j < subs.len() && sub_source(obj, g, #[trigger] subs[j], k, r[k], le) by {
            if m1.contains_key(k) && r[k] == m1[k] {
                if !(m.contains_key(k) && m1[k] == m[k]) {
                    let j = choose|j: int| 0 <= j < init.len() && sub_source(obj, g, #[trigger] init[j], k, m1[k], le);
                    assert(subs[j] == init[j]);
                }
            } else {
                assert(subs[subs.len() - 1] == sub);
                assert(sub_source(obj, g, subs[subs.len() - 1], k, r[k], le));
            }
        }
        assert forall|j: int| 0 <= j < subs.len() && !(le && (g.localized || subs[j].localized))
            && (#[trigger] snapshot_text(group_sub_value(obj, g.name@, subs[j].name@))) is Some
            implies r.contains_key(sub_column(g.name@, subs[j].name@)) by {
            if j < init.len() {
                assert(subs[j] == init[j]);
                assert(m1.contains_key(sub_column(g.name@, init[j].name@)));
            }
        }
    }
}

/// Every column that restoring a snapshot writes to the main table comes from a field
/// that has it: a sub-field of a group (as `group__sub`) or a field with its own column,
/// never a localized one while locales are enabled, and holds the text of that field's
/// snapshot value. Every such column whose snapshot value has a text is written.
pub proof fn lemma_snapshot_columns_sources(
    obj: Seq<(String, DocValue)>,
    fields: Seq<FieldDefinition>,
    locales_enabled: bool,
)
    ensures
        forall|k: Seq<char>| #[trigger] snapshot_columns(obj, fields, locales_enabled).contains_key(k)
            ==> exists|i: int|
            0 <= i < fields.len() && field_source(
                obj,
                #[trigger] fields[i],
                k,
                snapshot_columns(obj, fields, locales_enabled)[k],
                locales_enabled,
            ),
        forall|i: int, j: int|
            0 <= i < fields.len() && fields[i].field_type == FieldType::Group && 0 <= j
                < fields[i].fields.len() && !(locales_enabled && (fields[i].localized
                || fields[i].fields@[j].localized)) && (#[trigger] snapshot_text(
                group_sub_value(obj, fields[i].name@, fields[i].fields@[j].name@),
            )) is Some ==> snapshot_columns(obj, fields, locales_enabled).contains_key(
                fields[i].name@ + "__"@ + fields[i].fields@[j].name@,
            ),
        forall|i: int|
            0 <= i < fields.len() && fields[i].field_type != FieldType::Group && has_parent_column(
                #[trigger] fields[i],
            ) && !(locales_enabled && fields[i].localized) && snapshot_text(
                member(obj, fields[i].name@),
            ) is Some ==> snapshot_columns(obj, fields, locales_enabled).contains_key(fields[i].name@),
    decreases fields.len(),
{
    let le = locales_enabled;
    if fields.len() > 0 {
        let init = fields.drop_last();
        lemma_snapshot_columns_sources(obj, init, le);
        let m = snapshot_columns(obj, init, le);
        let r = snapshot_columns(obj, fields, le);
        let f = fields.last();
        let n = fields.len() - 1;
        assert(fields[n] == f);
        assert forall|i: int| 0 <= i < init.len() implies #[trigger] fields[i] == init[i] by {}
        if f.field_type == FieldType::Group {
            lemma_group_columns_sources(m, obj, f, f.fields@, le);
        }
        // every key of the result has a source
        assert forall|k: Seq<char>| #[trigger] r.contains_key(k) implies exists|i: int|
            0 <= i < fields.len() && field_source(obj, #[trigger] fields[i], k, r[k], le) by {
            if m.contains_key(k) && r[k] == m[k] {
                let i = choose|i: int| 0 <= i < init.len() && field_source(obj, #[trigger] init[i], k, m[k], le);
                assert(fields[i] == init[i]);
            } else if f.field_type == FieldType::Group {
                let j = choose|j: int| 0 <= j < f.fields.len() && sub_source(obj, f, #[trigger] f.fields@[j], k, r[k], le);
                assert(field_source(obj, fields[n], k, r[k], le));
            } else {
                assert(field_source(obj, fields[n], k, r[k], le));
            }
        }
        // the result keeps the columns of the earlier fields
        assert(m.dom().subset_of(r.dom()));
        assert forall|i: int, j: int|
            0 <= i < fields.len() && fields[i].field_type == FieldType::Group && 0 <= j
                < fields[i].fields.len() && !(le && (fields[i].localized
                || fields[i].fields@[j].localized)) && (#[trigger] snapshot_text(
                group_sub_value(obj, fields[i].name@, fields[i].fields@[j].name@),
            )) is Some implies r.contains_key(fields[i].name@ + "__"@ + fields[i].fields@[j].name@) by {
            if i < n {
                assert(fields[i] == init[i]);
                assert(m.contains_key(init[i].name@ + "__"@ + init[i].fields@[j].name@));
            } else {
                assert(fields[i] == f);
                assert(sub_column(f.name@, f.fields@[j].name@) == f.name@ + "__"@ + f.fields@[j].name@);
            }
        }
        assert forall|i: int|
            0 <= i < fields.len() && fields[i].field_type != FieldType::Group && has_parent_column(
                #[trigger] fields[i],
            ) && !(le && fields[i].localized) && snapshot_text(member(obj, fields[i].name@)) is Some
            implies r.contains_key(fields[i].name@) by {
            if i < n {
                assert(fields[i] == init[i]);
                assert(m.contains_key(init[i].name@));
            }
        }
    }
}

/// A string map holds exactly the entries of `s`.
pub open spec fn holds(m: Map<Seq<char>, String>, s: Map<Seq<char>, Seq<char>>) -> bool {
    &&& m.dom() == s.dom()
    &&& forall|k: Seq<char>| #[trigger] m.contains_key(k) ==> m[k]@ == s[k]
}

/// The snapshot value of a group sub-field (see `group_sub_value`).
fn get_group_sub<'a>(obj: &'a Vec<(String, DocValue)>, group: &str, sub: &str) -> (r: Option<&'a DocValue>)
    ensures
        opt_val(r) == group_sub_value(obj@, group@, sub@),
{
    let col0 = concat_str(group, "__");
    let col = concat_str(col0.as_str(), sub);
    match get_entry(obj, col.as_str()) {
        Some(v) => Some(v),
        None => crate::enrich::get_member(get_entry(obj, group), sub),
    }
}

/// Extract the main-table column data from a snapshot object (see
/// `snapshot_columns`). Group fields are always expanded to `group__sub` columns;
/// both flat (`seo__title`) and nested (`seo: { title }`) snapshots are read.
pub fn extract_snapshot_data(
    obj: &Vec<(String, DocValue)>,
    fields: &[FieldDefinition],
    locales_enabled: bool,
) -> (data: StrMap)
    ensures
        holds(data@, snapshot_columns(obj@, fields@, locales_enabled)),
{
    let mut data = StrMap::new();
    let mut i: usize = 0;
    proof {
        assert(fields@.take(0) =~= Seq::<FieldDefinition>::empty());
        assert(data@.dom() =~= Set::<Seq<char>>::empty());
    }
    while i < fields.len()
        invariant
            i <= fields.len(),
            holds(data@, snapshot_columns(obj@, fields@.take(i as int), locales_enabled)),
        decreases fields.len() - i,
    {
        let f = &fields[i];
        assert(fields@.take(i + 1).drop_last() =~= fields@.take(i as int));
        assert(fields@.take(i + 1).last() == fields@[i as int]);
        let ghost m = snapshot_columns(obj@, fields@.take(i as int), locales_enabled);
        if f.field_type == FieldType::Group {
            let mut j: usize = 0;
            assert(f.fields@.take(0) =~= Seq::<FieldDefinition>::empty());
            while j < f.fields.len()
                invariant
                    j <= f.fields.len(),
                    holds(data@, group_columns(m, obj@, *f, f.fields@.take(j as int), locales_enabled)),
                decreases f.fields.len() - j,
            {
                let sub = &f.fields[j];
                assert(f.fields@.take(j + 1).drop_last() =~= f.fields@.take(j as int));
                assert(f.fields@.take(j + 1).last() == f.fields@[j as int]);
                if !((f.localized || sub.localized) && locales_enabled) {
                    let v = get_group_sub(obj, f.name.as_str(), sub.name.as_str());
                    match snapshot_val_to_string(v) {
                        Some(s) => {
                            let col0 = concat_str(f.name.as_str(), "__");
                            let col = concat_str(col0.as_str(), sub.name.as_str());
                            let ghost before = data@;
                            data.insert(col, s);
                            proof {
                                let g = group_columns(m, obj@, *f, f.fields@.take(j + 1), locales_enabled);
                                assert(data@.dom() =~= g.dom());
                            }
                        },
                        None => {},
                    }
                }
                j = j + 1;
            }
            assert(f.fields@.take(f.fields.len() as int) =~= f.fields@);
        } else if f.has_parent_column() && !(f.localized && locales_enabled) {
            match snapshot_val_to_string(get_entry(obj, f.name.as_str())) {
                Some(s) => {
                    data.insert(f.name.clone(), s);
                    proof {
                        let g = snapshot_columns(obj@, fields@.take(i + 1), locales_enabled);
                        assert(data@.dom() =~= g.dom());
                    }
                },
                None => {},
            }
        }
        i = i + 1;
    }
    assert(fields@.take(fields.len() as int) =~= fields@);
    data
}

// ---------------------------------------------------------------------------
// Locale columns
// ---------------------------------------------------------------------------

/// A bound parameter of an SQL statement.
#[derive(Debug)]
pub enum SqlParam {
    Text(String),
    Int(i32),
}

/// A parameter as (is an integer, its text, its integer).
pub open spec fn param_view(p: SqlParam) -> (bool, Seq<char>, i32) {
    match p {
        SqlParam::Text(s) => (false, s@, 0),
        SqlParam::Int(i) => (true, Seq::empty(), i),
    }
}

/// The parameters of a list, by `param_view`.
pub open spec fn params_view(ps: Seq<SqlParam>) -> Seq<(bool, Seq<char>, i32)> {
    ps.map_values(|p: SqlParam| param_view(p))
}

/// The characters of each string of a list.
pub open spec fn strs(v: Seq<String>) -> Seq<Seq<char>> {
    v.map_values(|s: String| s@)
}

/// The parameter that restores a snapshot value into a locale column: strings and
/// numbers as text, booleans as 1 or 0; none for anything else.
pub open spec fn locale_param(v: Option<DocValue>) -> Option<(bool, Seq<char>, i32)> {
    match v {
        Some(DocValue::Str(s)) => Some((false, s@, 0)),
        Some(DocValue::Number(n)) => Some((false, n@, 0)),
        Some(DocValue::Bool(b)) => Some(
            (
                true,
                Seq::empty(),
                if b {
                    1i32
                } else {
                    0i32
                },
            ),
        ),
        _ => None,
    }
}

/// The SET clauses, parameters and next parameter number that restore the locale
/// columns `base__<locale>` of one field: every column is cleared except the default
/// locale's, which takes the snapshot value (or is cleared when there is none).
pub open spec fn locale_restore(
    v: Option<DocValue>,
    base: Seq<char>,
    locales: Seq<String>,
    default_locale: Seq<char>,
    idx: nat,
) -> (Seq<Seq<char>>, Seq<(bool, Seq<char>, i32)>, nat)
    decreases locales.len(),
{
    if locales.len() == 0 {
        (Seq::empty(), Seq::empty(), idx)
    } else {
        let r = locale_restore(v, base, locales.drop_last(), default_locale, idx);
        let col = base + "__"@ + locales.last()@;
        if locales.last()@ == default_locale {
            match locale_param(v) {
                Some(p) => (r.0.push(col + " = ?"@ + decimal(r.2)), r.1.push(p), r.2 + 1),
                None => (r.0.push(col + " = NULL"@), r.1, r.2),
            }
        } else {
            (r.0.push(col + " = NULL"@), r.1, r.2)
        }
    }
}

/// Restoring a field's locale columns sets one clause per locale and binds at most one
/// parameter per locale; the next parameter number is the first plus those bound.
pub proof fn lemma_locale_restore_count(
    v: Option<DocValue>,
    base: Seq<char>,
    locales: Seq<String>,
    default_locale: Seq<char>,
    idx: nat,
)
    ensures
        locale_restore(v, base, locales, default_locale, idx).2 == idx + locale_restore(
            v,
            base,
            locales,
            default_locale,
            idx,
        ).1.len(),
        locale_restore(v, base, locales, default_locale, idx).1.len() <= locales.len(),
        locale_restore(v, base, locales, default_locale, idx).0.len() == locales.len(),
    decreases locales.len(),
{
    if locales.len() > 0 {
        lemma_locale_restore_count(v, base, locales.drop_last(), default_locale, idx);
    }
}

/// Restoring the locale columns of a field sets each locale's column `base__<locale>`
/// in the order of the locales: a locale other than the default is cleared; the
/// default locale's column is bound to a numbered parameter holding the snapshot value
/// when the value can be stored, and cleared otherwise. Every bound parameter holds that
/// value, and the parameters are numbered from `idx` on.
pub proof fn lemma_locale_restore_columns(
    v: Option<DocValue>,
    base: Seq<char>,
    locales: Seq<String>,
    default_locale: Seq<char>,
    idx: nat,
)
    ensures
        ({
            let r = locale_restore(v, base, locales, default_locale, idx);
            &&& r.0.len() == locales.len()
            &&& forall|i: int| 0 <= i < locales.len() && (locales[i]@ != default_locale || locale_param(v) is None)
                ==> #[trigger] r.0[i] == base + "__"@ + locales[i]@ + " = NULL"@
            &&& forall|i: int| 0 <= i < locales.len() && locales[i]@ == default_locale && locale_param(v) is Some
                ==> exists|n: nat| idx <= n < r.2 && #[trigger] r.0[i] == base + "__"@ + locales[i]@ + " = ?"@ + decimal(n)
            &&& forall|j: int| 0 <= j < r.1.len() ==> #[trigger] r.1[j] == locale_param(v)->0
            &&& idx <= r.2
        }),
    decreases locales.len(),
{
    if locales.len() > 0 {
        let init = locales.drop_last();
        lemma_locale_restore_columns(v, base, init, default_locale, idx);
        lemma_locale_restore_count(v, base, init, default_locale, idx);
        let p = locale_restore(v, base, init, default_locale, idx);
        let r = locale_restore(v, base, locales, default_locale, idx);
        let n = locales.len() - 1;
        assert forall|i: int| 0 <= i < n implies #[trigger] locales[i] == init[i] && r.0[i] == p.0[i] by {}
        assert(locales[n] == locales.last());
        assert forall|i: int| 0 <= i < locales.len() && locales[i]@ == default_locale && locale_param(v) is Some
            implies exists|m: nat| idx <= m < r.2 && #[trigger] r.0[i] == base + "__"@ + locales[i]@ + " = ?"@ + decimal(m) by {
            if i < n {
                assert(init[i]@ == default_locale);
                let m = choose|m: nat| idx <= m < p.2 && #[trigger] p.0[i] == base + "__"@ + init[i]@ + " = ?"@ + decimal(m);
                assert(r.0[i] == base + "__"@ + locales[i]@ + " = ?"@ + decimal(m));
            } else {
                assert(r.0[i] == base + "__"@ + locales[i]@ + " = ?"@ + decimal(p.2));
            }
        }
    }
}

/// Emit the SET clauses that restore the locale columns of one field (see
/// `locale_restore`), numbering parameters from `*idx`.
pub fn restore_locale_columns(
    snapshot_val: Option<&DocValue>,
    field_name: &str,
    locales: &Vec<String>,
    default_locale: &str,
    set_clauses: &mut Vec<String>,
    params: &mut Vec<SqlParam>,
    idx: &mut usize,
)
    requires
        *old(idx) + locales.len() <= usize::MAX,
    ensures
        strs(final(set_clauses)@) == strs(old(set_clauses)@) + locale_restore(
            opt_val(snapshot_val),
            field_name@,
            locales@,
            default_locale@,
            *old(idx) as nat,
        ).0,
        params_view(final(params)@) == params_view(old(params)@) + locale_restore(
            opt_val(snapshot_val),
            field_name@,
            locales@,
            default_locale@,
            *old(idx) as nat,
        ).1,
        *final(idx) as nat == locale_restore(
            opt_val(snapshot_val),
            field_name@,
            locales@,
            default_locale@,
            *old(idx) as nat,
        ).2,
{
    let ghost v = opt_val(snapshot_val);
    let ghost i0 = *idx as nat;
    let ghost c0 = strs(set_clauses@);
    let ghost p0 = params_view(params@);
    let mut j: usize = 0;
    assert(locales@.take(0) =~= Seq::<String>::empty());
    assert(c0 + Seq::<Seq<char>>::empty() =~= c0);
    assert(p0 + Seq::<(bool, Seq<char>, i32)>::empty() =~= p0);
    while j < locales.len()
        invariant
            j <= locales.len(),
            v == opt_val(snapshot_val),
            i0 + locales.len() <= usize::MAX,
            strs(set_clauses@) == c0 + locale_restore(v, field_name@, locales@.take(j as int), default_locale@, i0).0,
            params_view(params@) == p0 + locale_restore(v, field_name@, locales@.take(j as int), default_locale@, i0).1,
            *idx as nat == locale_restore(v, field_name@, locales@.take(j as int), default_locale@, i0).2,
        decreases locales.len() - j,
    {
        let ghost pre = locales@.take(j as int);
        assert(locales@.take(j + 1).drop_last() =~= pre);
        assert(locales@.take(j + 1).last() == locales@[j as int]);
        proof {
            lemma_locale_restore_count(v, field_name@, pre, default_locale@, i0);
        }
        let c0s = concat_str(field_name, "__");
        let col = concat_str(c0s.as_str(), locales[j].as_str());
        let ghost cs_before = set_clauses@;
        let ghost ps_before = params@;
        let ghost r = locale_restore(v, field_name@, pre, default_locale@, i0);
        if str_eq(locales[j].as_str(), default_locale) {
            let p: Option<SqlParam> = match snapshot_val {
                Some(DocValue::Str(s)) => Some(SqlParam::Text(s.clone())),
                Some(DocValue::Number(n)) => Some(SqlParam::Text(n.clone())),
                Some(DocValue::Bool(b)) => Some(SqlParam::Int(if *b { 1 } else { 0 })),
                _ => None,
            };
            match p {
                Some(p) => {
                    let num = u64_to_decimal(*idx as u64);
                    let a = concat_str(col.as_str(), " = ?");
                    let clause = concat_str(a.as_str(), num.as_str());
                    set_clauses.push(clause);
                    params.push(p);
                    *idx = *idx + 1;
                    proof {
                        assert(strs(set_clauses@) =~= strs(cs_before).push(clause@));
                        assert(params_view(params@) =~= params_view(ps_before).push(param_view(p)));
                        assert(strs(set_clauses@) =~= c0 + r.0.push(clause@));
                        assert(params_view(params@) =~= p0 + r.1.push(param_view(p)));
                        assert(locale_param(v) == Some(param_view(p)));
                        assert(locale_restore(v, field_name@, locales@.take(j + 1), default_locale@, i0).0 == r.0.push(clause@));
                    }
                },
                None => {
                    let clause = concat_str(col.as_str(), " = NULL");
                    set_clauses.push(clause);
                    proof {
                        assert(strs(set_clauses@) =~= strs(cs_before).push(clause@));
                        assert(strs(set_clauses@) =~= c0 + r.0.push(clause@));
                    }
                },
            }
        } else {
            let clause = concat_str(col.as_str(), " = NULL");
            set_clauses.push(clause);
            proof {
                assert(strs(set_clauses@) =~= strs(cs_before).push(clause@));
                assert(strs(set_clauses@) =~= c0 + r.0.push(clause@));
            }
        }
        j = j + 1;
    }
    assert(locales@.take(locales.len() as int) =~= locales@);
}

/// Clauses, parameters and next parameter number, extended by another step.
pub open spec fn append3(
    a: (Seq<Seq<char>>, Seq<(bool, Seq<char>, i32)>, nat),
    b: (Seq<Seq<char>>, Seq<(bool, Seq<char>, i32)>, nat),
) -> (Seq<Seq<char>>, Seq<(bool, Seq<char>, i32)>, nat) {
    (a.0 + b.0, a.1 + b.1, b.2)
}

/// The locale restores of the localized sub-fields `subs` of group `g`, after `acc`.
pub open spec fn locale_group_restore(
    acc: (Seq<Seq<char>>, Seq<(bool, Seq<char>, i32)>, nat),
    obj: Seq<(String, DocValue)>,
    g: FieldDefinition,
    subs: Seq<FieldDefinition>,
    locales: Seq<String>,
    default_locale: Seq<char>,
) -> (Seq<Seq<char>>, Seq<(bool, Seq<char>, i32)>, nat)
    decreases subs.len(),
{
    if subs.len() == 0 {
        acc
    } else {
        let a1 = locale_group_restore(acc, obj, g, subs.drop_last(), locales, default_locale);
        let sub = subs.last();
        if g.localized || sub.localized {
            append3(
                a1,
                locale_restore(
                    group_sub_value(obj, g.name@, sub.name@),
                    sub_column(g.name@, sub.name@),
                    locales,
                    default_locale,
                    a1.2,
                ),
            )
        } else {
            a1
        }
    }
}

/// The locale restores of all localized columns of `fields`, parameters numbered from 1.
pub open spec fn locale_fields_restore(
    obj: Seq<(String, DocValue)>,
    fields: Seq<FieldDefinition>,
    locales: Seq<String>,
    default_locale: Seq<char>,
) -> (Seq<Seq<char>>, Seq<(bool, Seq<char>, i32)>, nat)
    decreases fields.len(),
{
    if fields.len() == 0 {
        (Seq::empty(), Seq::empty(), 1)
    } else {
        let acc = locale_fields_restore(obj, fields.drop_last(), locales, default_locale);
        let f = fields.last();
        if f.field_type == FieldType::Group {
            locale_group_restore(acc, obj, f, f.fields@, locales, default_locale)
        } else if f.localized && has_parent_column(f) {
            append3(acc, locale_restore(member(obj, f.name@), f.name@, locales, default_locale, acc.2))
        } else {
            acc
        }
    }
}

/// Strings joined with a separator.
pub open spec fn join_sep(items: Seq<Seq<char>>, sep: Seq<char>) -> Seq<char>
    decreases items.len(),
{
    if items.len() == 0 {
        Seq::empty()
    } else if items.len() == 1 {
        items[0]
    } else {
        join_sep(items.drop_last(), sep) + sep + items.last()
    }
}

/// The UPDATE statement that restores the locale columns of a row.
pub open spec fn locale_update_sql(table: Seq<char>, clauses: Seq<Seq<char>>, idx: nat) -> Seq<char> {
    "UPDATE "@ + table + " SET "@ + join_sep(clauses, ", "@) + " WHERE id = ?"@ + decimal(idx)
}

proof fn lemma_group_mono(
    acc: (Seq<Seq<char>>, Seq<(bool, Seq<char>, i32)>, nat),
    obj: Seq<(String, DocValue)>,
    g: FieldDefinition,
    subs: Seq<FieldDefinition>,
    locales: Seq<String>,
    default_locale: Seq<char>,
    k: int,
)
    requires
        0 <= k <= subs.len(),
    ensures
        acc.2 <= locale_group_restore(acc, obj, g, subs.take(k), locales, default_locale).2,
        locale_group_restore(acc, obj, g, subs.take(k), locales, default_locale).2
            <= locale_group_restore(acc, obj, g, subs, locales, default_locale).2,
    decreases subs.len(),
{
    if k == subs.len() {
        assert(subs.take(k) =~= subs);
        if subs.len() > 0 {
            lemma_group_mono(acc, obj, g, subs.drop_last(), locales, default_locale, k - 1);
            assert(subs.drop_last().take(k - 1) =~= subs.drop_last());
            let a1 = locale_group_restore(acc, obj, g, subs.drop_last(), locales, default_locale);
            let sub = subs.last();
            lemma_locale_restore_count(
                group_sub_value(obj, g.name@, sub.name@),
                sub_column(g.name@, sub.name@),
                locales,
                default_locale,
                a1.2,
            );
        }
    } else {
        lemma_group_mono(acc, obj, g, subs.drop_last(), locales, default_locale, k);
        assert(subs.drop_last().take(k) =~= subs.take(k));
        let a1 = locale_group_restore(acc, obj, g, subs.drop_last(), locales, default_locale);
        let sub = subs.last();
        lemma_locale_restore_count(
            group_sub_value(obj, g.name@, sub.name@),
            sub_column(g.name@, sub.name@),
            locales,
            default_locale,
            a1.2,
        );
    }
}

proof fn lemma_fields_mono(
    obj: Seq<(String, DocValue)>,
    fields: Seq<FieldDefinition>,
    locales: Seq<String>,
    default_locale: Seq<char>,
    k: int,
)
    requires
        0 <= k <= fields.len(),
    ensures
        1 <= locale_fields_restore(obj, fields.take(k), locales, default_locale).2
            <= locale_fields_restore(obj, fields, locales, default_locale).2,
    decreases fields.len(),
{
    if fields.len() == 0 {
        assert(fields.take(k) =~= fields);
    } else {
        let n = fields.len() as int;
        if k == n {
            assert(fields.take(k) =~= fields);
        }
        let kk = if k == n { n - 1 } else { k };
        lemma_fields_mono(obj, fields.drop_last(), locales, default_locale, kk);
        assert(fields.drop_last().take(kk) =~= fields.take(kk));
        let acc = locale_fields_restore(obj, fields.drop_last(), locales, default_locale);
        let f = fields.last();
        if f.field_type == FieldType::Group {
            lemma_group_mono(acc, obj, f, f.fields@, locales, default_locale, f.fields@.len() as int);
            assert(f.fields@.take(f.fields@.len() as int) =~= f.fields@);
        } else if f.localized && has_parent_column(f) {
            lemma_locale_restore_count(member(obj, f.name@), f.name@, locales, default_locale, acc.2);
        }
        assert(fields.drop_last().take(n - 1) =~= fields.drop_last());
        lemma_fields_mono(obj, fields.drop_last(), locales, default_locale, n - 1);
    }
}

/// The UPDATE statement and its parameters that restore the localized main-table
/// columns of a row from a snapshot (see `locale_fields_restore`), or none when no
/// field is localized. The row id is bound as the last parameter.
pub fn locale_restore_statement(
    table: &str,
    parent_id: &str,
    fields: &[FieldDefinition],
    obj: &Vec<(String, DocValue)>,
    locales: &Vec<String>,
    default_locale: &str,
) -> (r: Option<(String, Vec<SqlParam>)>)
    requires
        locale_fields_restore(obj@, fields@, locales@, default_locale@).2 + locales.len() <= usize::MAX,
    ensures
        ({
            let lr = locale_fields_restore(obj@, fields@, locales@, default_locale@);
            match r {
                None => lr.0.len() == 0,
                Some((sql, ps)) => {
                    &&& lr.0.len() > 0
                    &&& sql@ == locale_update_sql(table@, lr.0, lr.2)
                    &&& params_view(ps@) == lr.1.push((false, parent_id@, 0i32))
                },
            }
        }),
{
    let mut clauses: Vec<String> = Vec::new();
    let mut params: Vec<SqlParam> = Vec::new();
    let mut idx: usize = 1;
    let ghost fin = locale_fields_restore(obj@, fields@, locales@, default_locale@);
    let mut i: usize = 0;
    proof {
        assert(fields@.take(0) =~= Seq::<FieldDefinition>::empty());
        assert(strs(clauses@) =~= Seq::<Seq<char>>::empty());
        assert(params_view(params@) =~= Seq::<(bool, Seq<char>, i32)>::empty());
    }
    while i < fields.len()
        invariant
            i <= fields.len(),
            fin == locale_fields_restore(obj@, fields@, locales@, default_locale@),
            fin.2 + locales.len() <= usize::MAX,
            ({
                let a = locale_fields_restore(obj@, fields@.take(i as int), locales@, default_locale@);
                &&& strs(clauses@) == a.0
                &&& params_view(params@) == a.1
                &&& idx as nat == a.2
            }),
        decreases fields.len() - i,
    {
        let f = &fields[i];
        assert(fields@.take(i + 1).drop_last() =~= fields@.take(i as int));
        assert(fields@.take(i + 1).last() == fields@[i as int]);
        proof {
            lemma_fields_mono(obj@, fields@, locales@, default_locale@, i + 1);
        }
        let ghost acc = locale_fields_restore(obj@, fields@.take(i as int), locales@, default_locale@);
        if f.field_type == FieldType::Group {
            let mut j: usize = 0;
            assert(f.fields@.take(0) =~= Seq::<FieldDefinition>::empty());
            while j < f.fields.len()
                invariant
                    j <= f.fields.len(),
                    fin.2 + locales.len() <= usize::MAX,
                    locale_group_restore(acc, obj@, *f, f.fields@, locales@, default_locale@).2 <= fin.2,
                    ({
                        let a = locale_group_restore(acc, obj@, *f, f.fields@.take(j as int), locales@, default_locale@);
                        &&& strs(clauses@) == a.0
                        &&& params_view(params@) == a.1
                        &&& idx as nat == a.2
                    }),
                decreases f.fields.len() - j,
            {
                let sub = &f.fields[j];
                assert(f.fields@.take(j + 1).drop_last() =~= f.fields@.take(j as int));
                assert(f.fields@.take(j + 1).last() == f.fields@[j as int]);
                proof {
                    lemma_group_mono(acc, obj@, *f, f.fields@, locales@, default_locale@, j as int);
                }
                if f.localized || sub.localized {
                    let v = get_group_sub(obj, f.name.as_str(), sub.name.as_str());
                    let c0 = concat_str(f.name.as_str(), "__");
                    let col = concat_str(c0.as_str(), sub.name.as_str());
                    let ghost a = locale_group_restore(acc, obj@, *f, f.fields@.take(j as int), locales@, default_locale@);
                    restore_locale_columns(v, col.as_str(), locales, default_locale, &mut clauses, &mut params, &mut idx);
                }
                j = j + 1;
            }
            assert(f.fields@.take(f.fields.len() as int) =~= f.fields@);
        } else if f.localized && f.has_parent_column() {
            let v = get_entry(obj, f.name.as_str());
            proof {
                lemma_locale_restore_count(member(obj@, f.name@), f.name@, locales@, default_locale@, acc.2);
            }
            restore_locale_columns(v, f.name.as_str(), locales, default_locale, &mut clauses, &mut params, &mut idx);
        }
        i = i + 1;
    }
    assert(fields@.take(fields.len() as int) =~= fields@);
    if clauses.len() == 0 {
        return None;
    }
    let mut sql = concat_str("UPDATE ", table);
    sql.append(" SET ");
    let mut k: usize = 0;
    let mut joined = String::new();
    assert(strs(clauses@).take(0) =~= Seq::<Seq<char>>::empty());
    while k < clauses.len()
        invariant
            k <= clauses.len(),
            joined@ == join_sep(strs(clauses@).take(k as int), ", "@),
        decreases clauses.len() - k,
    {
        assert(strs(clauses@).take(k + 1).drop_last() =~= strs(clauses@).take(k as int));
        assert(strs(clauses@).take(k + 1).last() == clauses@[k as int]@);
        if k > 0 {
            joined.append(", ");
        } else {
            assert(strs(clauses@).take(1) =~= seq![clauses@[0]@]);
        }
        joined.append(clauses[k].as_str());
        k = k + 1;
    }
    assert(strs(clauses@).take(clauses.len() as int) =~= strs(clauses@));
    sql.append(joined.as_str());
    sql.append(" WHERE id = ?");
    let num = u64_to_decimal(idx as u64);
    sql.append(num.as_str());
    let ghost before = params@;
    params.push(SqlParam::Text(String::from_str(parent_id)));
    assert(params_view(params@) =~= params_view(before).push((false, parent_id@, 0i32)));
    Some((sql, params))
}

/// The snapshot data that goes back into join tables: the stored value of each field
/// without a parent column, for the fields whose value the snapshot holds.
pub open spec fn join_restore(obj: Seq<(String, DocValue)>, fields: Seq<FieldDefinition>) -> Seq<(Seq<char>, DocValue)>
    decreases fields.len(),
{
    if fields.len() == 0 {
        Seq::empty()
    } else {
        let rest = join_restore(obj, fields.drop_last());
        let f = fields.last();
        if !has_parent_column(f) && member(obj, f.name@) is Some {
            rest.push((f.name@, member(obj, f.name@)->0))
        } else {
            rest
        }
    }
}

/// `entry` is field `f`'s join-table entry: the field has no parent column and `entry`
/// is its name with its stored value.
pub open spec fn entry_of_field(obj: Seq<(String, DocValue)>, f: FieldDefinition, entry: (Seq<char>, DocValue)) -> bool {
    &&& !has_parent_column(f)
    &&& entry.0 == f.name@
    &&& member(obj, f.name@) == Some(entry.1)
}

/// `entry` is the join-table entry of one of `fields`.
pub open spec fn join_entry_from(obj: Seq<(String, DocValue)>, fields: Seq<FieldDefinition>, entry: (Seq<char>, DocValue)) -> bool {
    exists|i: int| 0 <= i < fields.len() && entry_of_field(obj, #[trigger] fields[i], entry)
}

/// The join-table data of a snapshot holds, in the order of the fields, the stored value
/// of each field without a parent column whose value the snapshot holds, and nothing
/// else: every entry is such a field's name with its stored value, and each such field
/// has its entry.
pub proof fn lemma_join_restore_entries(obj: Seq<(String, DocValue)>, fields: Seq<FieldDefinition>)
    ensures
        forall|e: int| 0 <= e < join_restore(obj, fields).len() ==> join_entry_from(
            obj,
            fields,
            #[trigger] join_restore(obj, fields)[e],
        ),
        forall|i: int| 0 <= i < fields.len() && !has_parent_column(#[trigger] fields[i]) && member(
            obj,
            fields[i].name@,
        ) is Some ==> join_restore(obj, fields).contains((fields[i].name@, member(obj, fields[i].name@)->0)),
    decreases fields.len(),
{
    if fields.len() > 0 {
        let init = fields.drop_last();
        lemma_join_restore_entries(obj, init);
        let r = join_restore(obj, fields);
        let p = join_restore(obj, init);
        let n = fields.len() - 1;
        assert forall|i: int| 0 <= i < n implies #[trigger] fields[i] == init[i] by {}
        assert(fields[n] == fields.last());
        assert forall|e: int| 0 <= e < r.len() implies join_entry_from(obj, fields, #[trigger] r[e]) by {
            if e < p.len() {
                assert(r[e] == p[e]);
                assert(join_entry_from(obj, init, p[e]));
                let i = choose|i: int| 0 <= i < init.len() && entry_of_field(obj, #[trigger] init[i], p[e]);
                assert(fields[i] == init[i]);
                assert(entry_of_field(obj, fields[i], r[e]));
            } else {
                assert(!has_parent_column(fields[n]));
                assert(r[e] == (fields[n].name@, member(obj, fields[n].name@)->0));
                assert(entry_of_field(obj, fields[n], r[e]));
            }
        }
        assert forall|i: int| 0 <= i < fields.len() && !has_parent_column(#[trigger] fields[i]) && member(
            obj,
            fields[i].name@,
        ) is Some implies r.contains((fields[i].name@, member(obj, fields[i].name@)->0)) by {
            let x = (fields[i].name@, member(obj, fields[i].name@)->0);
            if i < n {
                assert(fields[i] == init[i]);
                assert(p.contains(x));
                let e = choose|e: int| 0 <= e < p.len() && p[e] == x;
                if r != p {
                    assert(r[e] == p[e]);
                }
                assert(r[e] == x);
            } else {
                assert(r[r.len() - 1] == x);
            }
        }
    } else {
        assert(join_restore(obj, fields).len() == 0);
    }
}

/// The join-table data of a snapshot (see `join_restore`), one entry per field.
pub fn join_restore_data<'a>(obj: &'a Vec<(String, DocValue)>, fields: &[FieldDefinition]) -> (r: Vec<(String, &'a DocValue)>)
    ensures
        r@.map_values(|e: (String, &'a DocValue)| (e.0@, *e.1)) == join_restore(obj@, fields@),
{
    let mut r: Vec<(String, &'a DocValue)> = Vec::new();
    let mut i: usize = 0;
    assert(fields@.take(0) =~= Seq::<FieldDefinition>::empty());
    assert(r@.map_values(|e: (String, &'a DocValue)| (e.0@, *e.1)) =~= Seq::<(Seq<char>, DocValue)>::empty());
    while i < fields.len()
        invariant
            i <= fields.len(),
            r@.map_values(|e: (String, &'a DocValue)| (e.0@, *e.1)) == join_restore(obj@, fields@.take(i as int)),
        decreases fields.len() - i,
    {
        let f = &fields[i];
        assert(fields@.take(i + 1).drop_last() =~= fields@.take(i as int));
        assert(fields@.take(i + 1).last() == fields@[i as int]);
        if !f.has_parent_column() {
            match get_entry(obj, f.name.as_str()) {
                Some(v) => {
                    let ghost before = r@;
                    r.push((f.name.clone(), v));
                    assert(r@.map_values(|e: (String, &'a DocValue)| (e.0@, *e.1)) =~= before.map_values(
                        |e: (String, &'a DocValue)| (e.0@, *e.1),
                    ).push((f.name@, *v)));
                },
                None => {},
            }
        }
        i = i + 1;
    }
    assert(fields@.take(fields.len() as int) =~= fields@);
    r
}

// ---------------------------------------------------------------------------
// Statements on the version table
// ---------------------------------------------------------------------------

/// The version table of a collection (or of a global's table).
pub open spec fn versions_table(slug: Seq<char>) -> Seq<char> {
    "_versions_"@ + slug
}

/// The columns read from a version row.
pub open spec fn version_columns() -> Seq<char> {
    "id, _parent, _version, _status, _latest, snapshot, created_at, updated_at"@
}

/// The decimal text of a signed integer.
pub open spec fn signed_decimal(i: int) -> Seq<char> {
    if i < 0 {
        "-"@ + decimal((-i) as nat)
    } else {
        decimal(i as nat)
    }
}

/// The decimal text of an `i64`.
pub fn i64_to_decimal(i: i64) -> (r: String)
    ensures
        r@ == signed_decimal(i as int),
{
    if i < 0 {
        let m: u64 = (-(i as i128)) as u64;
        let d = u64_to_decimal(m);
        concat_str("-", d.as_str())
    } else {
        u64_to_decimal(i as u64)
    }
}

/// The name of the version table of `slug`.
pub fn versions_table_name(slug: &str) -> (r: String)
    ensures
        r@ == versions_table(slug@),
{
    concat_str("_versions_", slug)
}

/// The query for the next version number of a document (one past the highest).
pub fn next_version_sql(slug: &str) -> (r: String)
    ensures
        r@ == "SELECT COALESCE(MAX(_version), 0) + 1 FROM "@ + versions_table(slug@) + " WHERE _parent = ?1"@,
{
    let t = versions_table_name(slug);
    let a = concat_str("SELECT COALESCE(MAX(_version), 0) + 1 FROM ", t.as_str());
    concat_str(a.as_str(), " WHERE _parent = ?1")
}

/// The statement that clears the latest flag of a document's versions.
pub fn clear_latest_sql(slug: &str) -> (r: String)
    ensures
        r@ == "UPDATE "@ + versions_table(slug@) + " SET _latest = 0 WHERE _parent = ?1 AND _latest = 1"@,
{
    let t = versions_table_name(slug);
    let a = concat_str("UPDATE ", t.as_str());
    concat_str(a.as_str(), " SET _latest = 0 WHERE _parent = ?1 AND _latest = 1")
}

/// The statement that inserts a new latest version.
pub fn insert_version_sql(slug: &str) -> (r: String)
    ensures
        r@ == "INSERT INTO "@ + versions_table(slug@)
            + " (id, _parent, _version, _status, _latest, snapshot) VALUES (?1, ?2, ?3, ?4, 1, ?5)"@,
{
    let t = versions_table_name(slug);
    let a = concat_str("INSERT INTO ", t.as_str());
    concat_str(a.as_str(), " (id, _parent, _version, _status, _latest, snapshot) VALUES (?1, ?2, ?3, ?4, 1, ?5)")
}

/// `SELECT <version columns> FROM <version table>`.
fn select_versions(slug: &str) -> (r: String)
    ensures
        r@ == "SELECT "@ + version_columns() + " FROM "@ + versions_table(slug@),
{
    let t = versions_table_name(slug);
    let a = concat_str("SELECT ", "id, _parent, _version, _status, _latest, snapshot, created_at, updated_at");
    let b = concat_str(a.as_str(), " FROM ");
    concat_str(b.as_str(), t.as_str())
}

/// The query for the latest version of a document.
pub fn latest_version_sql(slug: &str) -> (r: String)
    ensures
        r@ == "SELECT "@ + version_columns() + " FROM "@ + versions_table(slug@)
            + " WHERE _parent = ?1 AND _latest = 1 LIMIT 1"@,
{
    let a = select_versions(slug);
    concat_str(a.as_str(), " WHERE _parent = ?1 AND _latest = 1 LIMIT 1")
}

/// The query for the number of versions of a document.
pub fn count_versions_sql(slug: &str) -> (r: String)
    ensures
        r@ == "SELECT COUNT(*) FROM "@ + versions_table(slug@) + " WHERE _parent = ?1"@,
{
    let t = versions_table_name(slug);
    let a = concat_str("SELECT COUNT(*) FROM ", t.as_str());
    concat_str(a.as_str(), " WHERE _parent = ?1")
}

/// The query for a document's versions, newest first, with an optional limit and
/// offset.
pub fn list_versions_sql(slug: &str, limit: Option<i64>, offset: Option<i64>) -> (r: String)
    ensures
        r@ == "SELECT "@ + version_columns() + " FROM "@ + versions_table(slug@)
            + " WHERE _parent = ?1 ORDER BY _version DESC"@ + match limit {
            Some(l) => " LIMIT "@ + signed_decimal(l as int),
            None => Seq::empty(),
        } + match offset {
            Some(o) => " OFFSET "@ + signed_decimal(o as int),
            None => Seq::empty(),
        },
{
    let a = select_versions(slug);
    let mut q = concat_str(a.as_str(), " WHERE _parent = ?1 ORDER BY _version DESC");
    let ghost q0 = q@;
    match limit {
        Some(l) => {
            q.append(" LIMIT ");
            let d = i64_to_decimal(l);
            q.append(d.as_str());
        },
        None => {},
    }
    let ghost q1 = q@;
    match offset {
        Some(o) => {
            q.append(" OFFSET ");
            let d = i64_to_decimal(o);
            q.append(d.as_str());
        },
        None => {},
    }
    proof {
        assert(q1 =~= q0 + match limit {
            Some(l) => " LIMIT "@ + signed_decimal(l as int),
            None => Seq::empty(),
        });
        assert(q@ =~= q1 + match offset {
            Some(o) => " OFFSET "@ + signed_decimal(o as int),
            None => Seq::empty(),
        });
    }
    q
}

/// The query for one version by its id.
pub fn version_by_id_sql(slug: &str) -> (r: String)
    ensures
        r@ == "SELECT "@ + version_columns() + " FROM "@ + versions_table(slug@) + " WHERE id = ?1 LIMIT 1"@,
{
    let a = select_versions(slug);
    concat_str(a.as_str(), " WHERE id = ?1 LIMIT 1")
}

/// The statement that sets the status of a document in its main table.
pub fn set_status_sql(table: &str) -> (r: String)
    ensures
        r@ == "UPDATE "@ + table@ + " SET _status = ?1, updated_at = datetime('now') WHERE id = ?2"@,
{
    let a = concat_str("UPDATE ", table);
    concat_str(a.as_str(), " SET _status = ?1, updated_at = datetime('now') WHERE id = ?2")
}

/// The query for the status of a document in its main table.
pub fn get_status_sql(table: &str) -> (r: String)
    ensures
        r@ == "SELECT _status FROM "@ + table@ + " WHERE id = ?1"@,
{
    let a = concat_str("SELECT _status FROM ", table);
    concat_str(a.as_str(), " WHERE id = ?1")
}

/// The statement that deletes the versions of a document beyond the newest
/// `max_versions`; none when `max_versions` is 0 (unlimited).
pub fn prune_versions_sql(slug: &str, max_versions: u32) -> (r: Option<String>)
    ensures
        max_versions == 0 ==> r is None,
        max_versions != 0 ==> (r matches Some(s) && s@ == "DELETE FROM "@ + versions_table(slug@)
            + " WHERE _parent = ?1 AND id NOT IN (SELECT id FROM "@ + versions_table(slug@)
            + " WHERE _parent = ?1 ORDER BY _version DESC LIMIT ?2)"@),
{
    if max_versions == 0 {
        return None;
    }
    let t = versions_table_name(slug);
    let a = concat_str("DELETE FROM ", t.as_str());
    let b = concat_str(a.as_str(), " WHERE _parent = ?1 AND id NOT IN (SELECT id FROM ");
    let c = concat_str(b.as_str(), t.as_str());
    Some(concat_str(c.as_str(), " WHERE _parent = ?1 ORDER BY _version DESC LIMIT ?2)"))
}

// ---------------------------------------------------------------------------
// The version history page
// ---------------------------------------------------------------------------

/// The page shown: the requested one, at least 1 (1 when none is requested).
pub open spec fn page_of(page: Option<i64>) -> int {
    let p = match page {
        Some(p) => p as int,
        None => 1,
    };
    if p < 1 {
        1
    } else {
        p
    }
}

/// The page size: the requested one (else the default), at most the maximum.
pub open spec fn per_page_of(per_page: Option<i64>, default_limit: i64, max_limit: i64) -> int {
    let v = match per_page {
        Some(v) => v as int,
        None => default_limit as int,
    };
    if v > max_limit {
        max_limit as int
    } else {
        v
    }
}

/// The page, page size and row offset of the version history page.
pub fn version_page_window(page: Option<i64>, per_page: Option<i64>, default_limit: i64, max_limit: i64) -> (r: (i64, i64, i64))
    requires
        i64::MIN <= (page_of(page) - 1) * per_page_of(per_page, default_limit, max_limit) <= i64::MAX,
    ensures
        r.0 == page_of(page),
        r.1 == per_page_of(per_page, default_limit, max_limit),
        r.2 == (r.0 - 1) * r.1,
{
    let p = match page {
        Some(p) => p,
        None => 1,
    };
    let p = if p < 1 {
        1
    } else {
        p
    };
    let pp = match per_page {
        Some(v) => v,
        None => default_limit,
    };
    let pp = if pp > max_limit {
        max_limit
    } else {
        pp
    };
    (p, pp, (p - 1) * pp)
}

/// The link to one page of a document's version history.
pub fn versions_page_url(slug: &str, id: &str, page: i64) -> (r: String)
    ensures
        r@ == "/admin/collections/"@ + slug@ + "/"@ + id@ + "/versions?page="@ + signed_decimal(page as int),
{
    let a = concat_str("/admin/collections/", slug);
    let b = concat_str(a.as_str(), "/");
    let c = concat_str(b.as_str(), id);
    let d = concat_str(c.as_str(), "/versions?page=");
    let n = i64_to_decimal(page);
    concat_str(d.as_str(), n.as_str())
}

/// The title of a document's version history page.
pub fn version_history_title(doc_title: &str) -> (r: String)
    ensures
        r@ == "Version History — "@ + doc_title@,
{
    concat_str("Version History — ", doc_title)
}

} // verus!
