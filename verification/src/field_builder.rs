//! Building the field contexts of a form from field definitions, submitted values and
//! validation errors.

use vstd::prelude::*;
use vstd::string::*;
use crate::context::{
    basic_ok, blocks_ok, branch_ok, count_errors, errors_in, errors_rows, errors_seq, errors_tabs, group_kids_ok,
    group_sub_ok, head_same, is_checked, join_commas, kids_ok, label_of, no_entries, opt_text,
    options_ok, or_default, byte_prefix, utf8_len, single_ok, sv, svs, tabs_ok, tags_of, type_ok,
    BlockDefContext, FieldContext, OptionContext, RowContext, TabContext, MAX_FIELD_DEPTH,
};
use crate::field::{
    default_text, field_type_name, BlockDefinition, FieldDefinition, FieldTab, FieldType,
    LocalizedString, SelectOption,
};
use crate::strmap::{json_string_list, lookup, lookup_opt, parse_string_list, StrMap};
use crate::text::{auto_label_from_name, chars_of, concat_str, safe_template_id, str_eq, string_of};

verus! {

// ---------------------------------------------------------------------------
// Small conversions
// ---------------------------------------------------------------------------

/// A copy of an optional string.
pub(crate) fn clone_opt(o: &Option<String>) -> (r: Option<String>)
    ensures
        sv(r) == sv(*o),
{
    match o {
        Some(s) => Some(s.clone()),
        None => None,
    }
}

/// The text of an optional setting, or `d`.
pub(crate) fn text_or(o: &Option<String>, d: &str) -> (r: String)
    ensures
        r@ == or_default(*o, d@),
{
    match o {
        Some(s) => s.clone(),
        None => String::from_str(d),
    }
}

/// The default-locale text of an optional label.
pub(crate) fn resolve_opt(o: &Option<LocalizedString>) -> (r: Option<String>)
    ensures
        sv(r) == opt_text(*o),
{
    match o {
        Some(l) => Some(l.resolve_default()),
        None => None,
    }
}

/// A copy of a list of strings.
pub(crate) fn clone_strings(v: &Vec<String>) -> (r: Vec<String>)
    ensures
        svs(r) == svs(*v),
{
    let mut r: Vec<String> = Vec::new();
    let mut i: usize = 0;
    while i < v.len()
        invariant
            i <= v.len(),
            r.len() == i,
            forall|j: int| 0 <= j < i ==> (#[trigger] r@[j])@ == v@[j]@,
        decreases v.len() - i,
    {
        r.push(v[i].clone());
        i = i + 1;
    }
    assert(svs(r) =~= svs(*v));
    r
}

/// Whether a list of strings holds `s`.
pub(crate) fn contains_str(v: &Vec<String>, s: &str) -> (r: bool)
    ensures
        r == svs(*v).contains(s@),
{
    let mut i: usize = 0;
    while i < v.len()
        invariant
            i <= v.len(),
            forall|j: int| 0 <= j < i ==> (#[trigger] v@[j])@ != s@,
        decreases v.len() - i,
    {
        if str_eq(v[i].as_str(), s) {
            assert(svs(*v)[i as int] == s@);
            return true;
        }
        i = i + 1;
    }
    assert forall|j: int| 0 <= j < svs(*v).len() implies svs(*v)[j] != s@ by {
        assert(svs(*v)[j] == v@[j]@);
    }
    false
}

/// The strings of a JSON array held in a form value (none when it is not one).
pub(crate) fn parse_tags(value: &str) -> (r: Vec<String>)
    ensures
        svs(r) == tags_of(value@),
{
    match parse_string_list(value) {
        Some(v) => v,
        None => Vec::new(),
    }
}

/// Strings joined with ",".
pub(crate) fn join_with_commas(v: &Vec<String>) -> (r: String)
    ensures
        r@ == join_commas(svs(*v)),
{
    if v.len() == 0 {
        return String::new();
    }
    let mut r = v[0].clone();
    let mut i: usize = 1;
    assert(svs(*v).take(1) =~= seq![v@[0]@]);
    while i < v.len()
        invariant
            1 <= i <= v.len(),
            r@ == join_commas(svs(*v).take(i as int)),
        decreases v.len() - i,
    {
        let ghost before = svs(*v).take(i as int);
        r.append(",");
        r.append(v[i].as_str());
        assert(svs(*v).take(i + 1).drop_last() =~= before);
        assert(svs(*v).take(i + 1).last() == v@[i as int]@);
        i = i + 1;
    }
    assert(svs(*v).take(v.len() as int) =~= svs(*v));
    r
}

/// The UTF-8 length of a character.
fn char_utf8_len(c: char) -> (r: usize)
    ensures
        r == utf8_len(c),
{
    if (c as u32) < 0x80 {
        1
    } else if (c as u32) < 0x800 {
        2
    } else if (c as u32) < 0x10000 {
        3
    } else {
        4
    }
}

/// The leading characters of `s` that fit in its first `n` bytes (see `byte_prefix`).
pub(crate) fn first_bytes(s: &str, n: usize) -> (r: String)
    ensures
        r@ == byte_prefix(s@, n as int),
{
    let cs = chars_of(s);
    let mut out = String::new();
    let mut used: usize = 0;
    let mut i: usize = 0;
    assert(s@.skip(0) =~= s@);
    assert(out@ + byte_prefix(s@.skip(0), n as int) =~= byte_prefix(s@, n as int));
    while i < cs.len()
        invariant
            cs@ == s@,
            i <= cs.len(),
            used <= n,
            out@ + byte_prefix(s@.skip(i as int), n - used) == byte_prefix(s@, n as int),
        decreases cs.len() - i,
    {
        let w = char_utf8_len(cs[i]);
        assert(s@.skip(i as int)[0] == s@[i as int]);
        if w > n - used {
            assert(byte_prefix(s@.skip(i as int), n - used) =~= Seq::<char>::empty());
            assert(out@ + Seq::<char>::empty() =~= out@);
            return out;
        }
        let ghost old_out = out@;
        crate::text::push_char(&mut out, cs[i]);
        assert(s@.skip(i as int).skip(1) =~= s@.skip(i + 1));
        assert(byte_prefix(s@.skip(i as int), n - used) =~= seq![s@[i as int]] + byte_prefix(
            s@.skip(i + 1),
            n - used - w,
        ));
        assert(old_out + (seq![s@[i as int]] + byte_prefix(s@.skip(i + 1), n - used - w)) =~= out@
            + byte_prefix(s@.skip(i + 1), n - used - w));
        used = used + w;
        i = i + 1;
    }
    assert(s@.skip(i as int) =~= Seq::<char>::empty());
    assert(out@ + Seq::<char>::empty() =~= out@);
    out
}

/// `prefix[name]`.
pub(crate) fn bracket_name(prefix: &str, name: &str) -> (r: String)
    ensures
        r@ == prefix@ + "["@ + name@ + "]"@,
{
    let a = concat_str(prefix, "[");
    let b = concat_str(a.as_str(), name);
    concat_str(b.as_str(), "]")
}

/// The label shown for a field: its configured label, else its name in title case.
pub(crate) fn field_label(f: &FieldDefinition) -> (r: String)
    ensures
        r@ == label_of(*f),
{
    match &f.admin.label {
        Some(l) => l.resolve_default(),
        None => auto_label_from_name(f.name.as_str()),
    }
}

/// Whether a form value marks a checkbox as checked.
pub(crate) fn checkbox_checked(value: &str) -> (r: bool)
    ensures
        r == is_checked(value@),
{
    str_eq(value, "1") || str_eq(value, "true") || str_eq(value, "on") || str_eq(value, "yes")
}

// ---------------------------------------------------------------------------
// Bare contexts
// ---------------------------------------------------------------------------

/// A context that holds only its head entries (name, label, value and the like).
pub open spec fn bare(c: FieldContext) -> bool {
    &&& c.min_length is None
    &&& c.max_length is None
    &&& c.step is None
    &&& c.rows is None
    &&& c.min_date is None
    &&& c.max_date is None
    &&& c.language is None
    &&& c.options is None
    &&& c.has_many is None
    &&& c.checked is None
    &&& c.relationship_collection is None
    &&& c.polymorphic is None
    &&& c.collections is None
    &&& c.picker is None
    &&& c.sub_fields is None
    &&& c.row_count is None
    &&& c.template_id is None
    &&& c.label_field is None
    &&& c.max_rows is None
    &&& c.min_rows is None
    &&& c.init_collapsed is None
    &&& c.add_label is None
    &&& c.collapsed is None
    &&& c.tabs is None
    &&& c.picker_appearance is None
    &&& c.date_only_value is None
    &&& c.datetime_local_value is None
    &&& c.tags is None
    &&& c.features is None
    &&& c.richtext_format is None
    &&& c.node_names is None
    &&& c.block_definitions is None
    &&& c.join_collection is None
    &&& c.join_on is None
    &&& c.rows_data is None
}

/// A context with the given head entries and nothing else.
pub(crate) fn head_context(
    name: String,
    field_type: FieldType,
    label: String,
    required: bool,
    value: String,
    placeholder: Option<String>,
    description: Option<String>,
    readonly: bool,
    localized: Option<bool>,
    locale_locked: bool,
) -> (c: FieldContext)
    ensures
        c.name == name,
        c.field_type@ == field_type_name(field_type),
        c.label == label,
        c.required == required,
        c.value == value,
        c.placeholder == placeholder,
        c.description == description,
        c.readonly == readonly,
        c.localized == localized,
        c.locale_locked == locale_locked,
        c.position is None,
        c.error is None,
        bare(c),
{
    FieldContext {
        name,
        field_type: String::from_str(field_type.as_str()),
        label,
        required,
        value,
        placeholder,
        description,
        readonly,
        localized,
        locale_locked,
        position: None,
        error: None,
        min_length: None,
        max_length: None,
        step: None,
        rows: None,
        min_date: None,
        max_date: None,
        language: None,
        options: None,
        has_many: None,
        checked: None,
        relationship_collection: None,
        polymorphic: None,
        collections: None,
        picker: None,
        sub_fields: None,
        row_count: None,
        template_id: None,
        label_field: None,
        max_rows: None,
        min_rows: None,
        init_collapsed: None,
        add_label: None,
        collapsed: None,
        tabs: None,
        picker_appearance: None,
        date_only_value: None,
        datetime_local_value: None,
        tags: None,
        features: None,
        richtext_format: None,
        node_names: None,
        block_definitions: None,
        join_collection: None,
        join_on: None,
        rows_data: None,
    }
}

/// Type entries added over a bare context are the entries of a fresh context.
pub(crate) proof fn lemma_fresh(
    new: FieldContext,
    old: FieldContext,
    f: FieldDefinition,
    value: Seq<char>,
    values: Map<Seq<char>, String>,
    errors: Map<Seq<char>, String>,
    prefix: Seq<char>,
    base: Seq<char>,
    ndl: bool,
    depth: nat,
    single: bool,
    base_value: Seq<char>,
    base_readonly: bool,
)
    requires
        type_ok(new, old, f, value, values, errors, prefix, base, ndl, depth, single, false, base_value, base_readonly),
        bare(old),
    ensures
        type_ok(new, new, f, value, values, errors, prefix, base, ndl, depth, single, true, base_value, base_readonly),
{
}


// ---------------------------------------------------------------------------
// Error counts
// ---------------------------------------------------------------------------

/// `n` capped at `usize::MAX`.
pub open spec fn capped(n: nat) -> usize {
    if n > usize::MAX {
        usize::MAX
    } else {
        n as usize
    }
}

/// `a + b`, capped at `usize::MAX`.
pub(crate) fn add_capped(a: usize, b: usize) -> (r: usize)
    ensures
        r == capped((a + b) as nat),
{
    if a <= usize::MAX - b {
        a + b
    } else {
        usize::MAX
    }
}

/// Errors in the sub-fields of a context.
spec fn sub_errors(c: FieldContext) -> nat {
    match c.sub_fields {
        Some(v) => errors_seq(v@, v@.len() as int),
        None => 0nat,
    }
}

/// Errors in the tab panels of a context.
spec fn tab_errors(c: FieldContext) -> nat {
    match c.tabs {
        Some(t) => errors_tabs(t@, t@.len() as int),
        None => 0nat,
    }
}

/// Errors in the rows of a context.
spec fn row_errors(c: FieldContext) -> nat {
    match c.rows_data {
        Some(r) => errors_rows(r@, r@.len() as int),
        None => 0nat,
    }
}

/// Errors in one context, capped at `usize::MAX`.
#[verifier::loop_isolation(false)]
fn count_errors_in_context(c: &FieldContext) -> (r: usize)
    ensures
        r == capped(errors_in(*c)),
    decreases c, 1int,
{
    let mut r: usize = if c.error.is_some() { 1 } else { 0 };
    let ghost own: nat = if c.error is Some { 1nat } else { 0nat };
    let ghost s1: nat = sub_errors(*c);
    let ghost s2: nat = tab_errors(*c);
    let ghost s3: nat = row_errors(*c);
    assert(errors_in(*c) == own + s1 + s2 + s3);
    match &c.sub_fields {
        Some(v) => {
            let n = count_errors_in_list(v);
            r = add_capped(r, n);
        },
        None => {},
    }
    assert(r == capped(own + s1));
    match &c.tabs {
        Some(ts) => {
            let mut i: usize = 0;
            let mut acc: usize = 0;
            while i < ts.len()
                invariant
                    i <= ts.len(),
                    acc == capped(errors_tabs(ts@, i as int)),
                decreases ts.len() - i,
            {
                let n = count_errors_in_list(&ts[i].sub_fields);
                acc = add_capped(acc, n);
                i = i + 1;
            }
            r = add_capped(r, acc);
        },
        None => {},
    }
    assert(r == capped(own + s1 + s2));
    match &c.rows_data {
        Some(rs) => {
            let mut i: usize = 0;
            let mut acc: usize = 0;
            while i < rs.len()
                invariant
                    i <= rs.len(),
                    acc == capped(errors_rows(rs@, i as int)),
                decreases rs.len() - i,
            {
                let n = count_errors_in_list(&rs[i].sub_fields);
                acc = add_capped(acc, n);
                i = i + 1;
            }
            r = add_capped(r, acc);
        },
        None => {},
    }
    r
}

/// Errors in a list of contexts, capped at `usize::MAX`.
fn count_errors_in_list(cs: &Vec<FieldContext>) -> (r: usize)
    ensures
        r == capped(errors_seq(cs@, cs@.len() as int)),
    decreases cs, 0int,
{
    let mut i: usize = 0;
    let mut acc: usize = 0;
    while i < cs.len()
        invariant
            i <= cs.len(),
            acc == capped(errors_seq(cs@, i as int)),
        decreases cs.len() - i,
    {
        let n = count_errors_in_context(&cs[i]);
        acc = add_capped(acc, n);
        i = i + 1;
    }
    acc
}

/// The number of fields carrying a validation error, counting the sub-fields of
/// composites, the fields of tab panels and the fields of array and blocks rows;
/// capped at `usize::MAX`.
pub fn count_errors_in_fields(fields: &Vec<FieldContext>) -> (r: usize)
    ensures
        r == capped(count_errors(fields@)),
{
    count_errors_in_list(fields)
}


// ---------------------------------------------------------------------------
// Lists that agree on a prefix
// ---------------------------------------------------------------------------

pub(crate) proof fn lemma_kids_ext(
    a: Seq<FieldContext>,
    b: Seq<FieldContext>,
    fs: Seq<FieldDefinition>,
    values: Map<Seq<char>, String>,
    errors: Map<Seq<char>, String>,
    prefix: Seq<char>,
    ndl: bool,
    depth: nat,
    k: int,
)
    requires
        kids_ok(a, fs, values, errors, prefix, ndl, depth, k),
        0 <= k <= b.len(),
        forall|i: int| 0 <= i < k ==> a[i] == b[i],
    ensures
        kids_ok(b, fs, values, errors, prefix, ndl, depth, k),
    decreases k,
{
    if k > 0 {
        lemma_kids_ext(a, b, fs, values, errors, prefix, ndl, depth, k - 1);
    }
}

proof fn lemma_group_kids_ext(
    a: Seq<FieldContext>,
    b: Seq<FieldContext>,
    fs: Seq<FieldDefinition>,
    group: Seq<char>,
    group_localized: bool,
    values: Map<Seq<char>, String>,
    errors: Map<Seq<char>, String>,
    ndl: bool,
    depth: nat,
    k: int,
)
    requires
        group_kids_ok(a, fs, group, group_localized, values, errors, ndl, depth, k),
        0 <= k <= b.len(),
        forall|i: int| 0 <= i < k ==> a[i] == b[i],
    ensures
        group_kids_ok(b, fs, group, group_localized, values, errors, ndl, depth, k),
    decreases k,
{
    if k > 0 {
        lemma_group_kids_ext(a, b, fs, group, group_localized, values, errors, ndl, depth, k - 1);
    }
}

proof fn lemma_tabs_ext(
    a: Seq<TabContext>,
    b: Seq<TabContext>,
    defs: Seq<FieldTab>,
    values: Map<Seq<char>, String>,
    errors: Map<Seq<char>, String>,
    prefix: Seq<char>,
    ndl: bool,
    depth: nat,
    k: int,
)
    requires
        tabs_ok(a, defs, values, errors, prefix, ndl, depth, k),
        0 <= k <= b.len(),
        forall|i: int| 0 <= i < k ==> a[i] == b[i],
    ensures
        tabs_ok(b, defs, values, errors, prefix, ndl, depth, k),
    decreases k,
{
    if k > 0 {
        lemma_tabs_ext(a, b, defs, values, errors, prefix, ndl, depth, k - 1);
    }
}

proof fn lemma_blocks_ext(
    a: Seq<BlockDefContext>,
    b: Seq<BlockDefContext>,
    defs: Seq<BlockDefinition>,
    tmpl: Seq<char>,
    ndl: bool,
    depth: nat,
    k: int,
)
    requires
        blocks_ok(a, defs, tmpl, ndl, depth, k),
        0 <= k <= b.len(),
        forall|i: int| 0 <= i < k ==> a[i] == b[i],
    ensures
        blocks_ok(b, defs, tmpl, ndl, depth, k),
    decreases k,
{
    if k > 0 {
        lemma_blocks_ext(a, b, defs, tmpl, ndl, depth, k - 1);
    }
}

// ---------------------------------------------------------------------------
// Building
// ---------------------------------------------------------------------------

/// Contexts for a list of field definitions, all under one prefix.
pub(crate) fn build_kids(
    fs: &Vec<FieldDefinition>,
    values: &StrMap,
    errors: &StrMap,
    prefix: &str,
    ndl: bool,
    depth: usize,
) -> (cs: Vec<FieldContext>)
    ensures
        cs.len() == fs.len(),
        kids_ok(cs@, fs@, values@, errors@, prefix@, ndl, depth as nat, fs.len() as int),
    decreases fs, 0int,
{
    let mut cs: Vec<FieldContext> = Vec::new();
    let mut i: usize = 0;
    while i < fs.len()
        invariant
            i <= fs.len(),
            cs.len() == i,
            kids_ok(cs@, fs@, values@, errors@, prefix@, ndl, depth as nat, i as int),
        decreases fs.len() - i,
    {
        let c = build_single_field_context(&fs[i], values, errors, prefix, ndl, depth);
        let ghost before = cs@;
        cs.push(c);
        proof {
            lemma_kids_ext(before, cs@, fs@, values@, errors@, prefix@, ndl, depth as nat, i as int);
        }
        i = i + 1;
    }
    cs
}

/// The sub-field contexts of a top-level group: each named `group__sub`, locked by the
/// group's localization.
fn build_group_kids(
    group: &FieldDefinition,
    values: &StrMap,
    errors: &StrMap,
    ndl: bool,
    depth: usize,
) -> (cs: Vec<FieldContext>)
    ensures
        cs.len() == group.fields.len(),
        group_kids_ok(
            cs@,
            group.fields@,
            group.name@,
            group.localized,
            values@,
            errors@,
            ndl,
            depth as nat,
            group.fields.len() as int,
        ),
    decreases group, 0int,
{
    let fs = &group.fields;
    let mut cs: Vec<FieldContext> = Vec::new();
    let mut i: usize = 0;
    let empty = String::new();
    let locked = ndl && !group.localized;
    while i < fs.len()
        invariant
            fs == &group.fields,
            empty@ == Seq::<char>::empty(),
            locked == (ndl && !group.localized),
            i <= fs.len(),
            cs.len() == i,
            group_kids_ok(
                cs@,
                fs@,
                group.name@,
                group.localized,
                values@,
                errors@,
                ndl,
                depth as nat,
                i as int,
            ),
        decreases fs.len() - i,
    {
        let sf = &fs[i];
        let col0 = concat_str(group.name.as_str(), "__");
        let col = concat_str(col0.as_str(), sf.name.as_str());
        let sub_value = values.get_or_empty(col.as_str());
        let mut sub = head_context(
            col.clone(),
            sf.field_type,
            field_label(sf),
            sf.required,
            sub_value.clone(),
            resolve_opt(&sf.admin.placeholder),
            resolve_opt(&sf.admin.description),
            sf.admin.readonly || locked,
            Some(group.localized),
            locked,
        );
        let ghost head = sub;
        apply_type_entries(
            sf,
            sub_value.as_str(),
            &mut sub,
            values,
            errors,
            empty.as_str(),
            col.as_str(),
            ndl,
            depth,
            false,
        );
        proof {
            lemma_fresh(
                sub,
                head,
                *sf,
                sub_value@,
                values@,
                errors@,
                Seq::empty(),
                col@,
                ndl,
                depth as nat,
                false,
                head.value@,
                head.readonly,
            );
            assert(group_sub_ok(sub, *sf, group.name@, group.localized, values@, errors@, ndl, depth as nat));
        }
        let ghost before = cs@;
        cs.push(sub);
        proof {
            lemma_group_kids_ext(
                before,
                cs@,
                fs@,
                group.name@,
                group.localized,
                values@,
                errors@,
                ndl,
                depth as nat,
                i as int,
            );
        }
        i = i + 1;
    }
    cs
}

/// The tab panels of a tabs field.
pub(crate) fn build_tabs(
    tabs: &Vec<FieldTab>,
    values: &StrMap,
    errors: &StrMap,
    prefix: &str,
    ndl: bool,
    depth: usize,
) -> (ts: Vec<TabContext>)
    ensures
        ts.len() == tabs.len(),
        tabs_ok(ts@, tabs@, values@, errors@, prefix@, ndl, depth as nat, tabs.len() as int),
    decreases tabs, 0int,
{
    let mut ts: Vec<TabContext> = Vec::new();
    let mut i: usize = 0;
    while i < tabs.len()
        invariant
            i <= tabs.len(),
            ts.len() == i,
            tabs_ok(ts@, tabs@, values@, errors@, prefix@, ndl, depth as nat, i as int),
        decreases tabs.len() - i,
    {
        let tab = &tabs[i];
        let subs = build_kids(&tab.fields, values, errors, prefix, ndl, depth);
        let n = count_errors_in_fields(&subs);
        let t = TabContext {
            label: tab.label.clone(),
            sub_fields: subs,
            error_count: if n > 0 {
                Some(n)
            } else {
                None
            },
            description: clone_opt(&tab.description),
        };
        let ghost before = ts@;
        ts.push(t);
        proof {
            lemma_tabs_ext(before, ts@, tabs@, values@, errors@, prefix@, ndl, depth as nat, i as int);
        }
        i = i + 1;
    }
    ts
}

/// The row templates of the block types of a blocks field.
pub(crate) fn build_block_defs(
    blocks: &Vec<BlockDefinition>,
    tmpl: &str,
    ndl: bool,
    depth: usize,
) -> (bs: Vec<BlockDefContext>)
    ensures
        bs.len() == blocks.len(),
        blocks_ok(bs@, blocks@, tmpl@, ndl, depth as nat, blocks.len() as int),
    decreases blocks, 0int,
{
    let mut bs: Vec<BlockDefContext> = Vec::new();
    let mut i: usize = 0;
    let no_values = StrMap::new();
    let no_errors = StrMap::new();
    while i < blocks.len()
        invariant
            no_values@ == no_entries(),
            no_errors@ == no_entries(),
            i <= blocks.len(),
            bs.len() == i,
            blocks_ok(bs@, blocks@, tmpl@, ndl, depth as nat, i as int),
        decreases blocks.len() - i,
    {
        let bd = &blocks[i];
        let fields = build_kids(&bd.fields, &no_values, &no_errors, tmpl, ndl, depth);
        let label = match &bd.label {
            Some(l) => l.resolve_default(),
            None => bd.block_type.clone(),
        };
        let b = BlockDefContext {
            block_type: bd.block_type.clone(),
            label,
            fields,
            label_field: clone_opt(&bd.label_field),
            group: clone_opt(&bd.group),
            image_url: clone_opt(&bd.image_url),
        };
        let ghost before = bs@;
        bs.push(b);
        proof {
            lemma_blocks_ext(before, bs@, blocks@, tmpl@, ndl, depth as nat, i as int);
        }
        i = i + 1;
    }
    bs
}


/// The option contexts of a select or radio field.
pub(crate) fn build_options(opts: &Vec<SelectOption>, value: &str, has_many: bool) -> (os: Vec<OptionContext>)
    ensures
        options_ok(os@, opts@, value@, has_many),
{
    let tags = if has_many {
        parse_tags(value)
    } else {
        Vec::new()
    };
    let mut os: Vec<OptionContext> = Vec::new();
    let mut i: usize = 0;
    while i < opts.len()
        invariant
            has_many ==> svs(tags) == tags_of(value@),
            i <= opts.len(),
            os.len() == i,
            forall|j: int|
                0 <= j < i ==> {
                    &&& (#[trigger] os@[j]).label@ == default_text(opts@[j].label)
                    &&& os@[j].value@ == opts@[j].value@
                    &&& os@[j].selected == if has_many {
                        tags_of(value@).contains(opts@[j].value@)
                    } else {
                        opts@[j].value@ == value@
                    }
                },
        decreases opts.len() - i,
    {
        let opt = &opts[i];
        let selected = if has_many {
            contains_str(&tags, opt.value.as_str())
        } else {
            str_eq(opt.value.as_str(), value)
        };
        os.push(OptionContext { label: opt.label.resolve_default(), value: opt.value.clone(), selected });
        i = i + 1;
    }
    os
}

/// The entries that `basic_ok` speaks of agree.
pub open spec fn basic_same(a: FieldContext, b: FieldContext) -> bool {
    &&& a.min_length == b.min_length
    &&& a.max_length == b.max_length
    &&& a.step == b.step
    &&& a.rows == b.rows
    &&& a.min_date == b.min_date
    &&& a.max_date == b.max_date
    &&& a.language == b.language
}

/// The entries that `branch_ok` speaks of agree.
pub open spec fn branch_same(a: FieldContext, b: FieldContext) -> bool {
    &&& a.value == b.value
    &&& a.readonly == b.readonly
    &&& a.checked == b.checked
    &&& a.options == b.options
    &&& a.has_many == b.has_many
    &&& a.relationship_collection == b.relationship_collection
    &&& a.polymorphic == b.polymorphic
    &&& a.collections == b.collections
    &&& a.picker == b.picker
    &&& a.sub_fields == b.sub_fields
    &&& a.row_count == b.row_count
    &&& a.template_id == b.template_id
    &&& a.label_field == b.label_field
    &&& a.max_rows == b.max_rows
    &&& a.min_rows == b.min_rows
    &&& a.init_collapsed == b.init_collapsed
    &&& a.add_label == b.add_label
    &&& a.collapsed == b.collapsed
    &&& a.tabs == b.tabs
    &&& a.picker_appearance == b.picker_appearance
    &&& a.date_only_value == b.date_only_value
    &&& a.datetime_local_value == b.datetime_local_value
    &&& a.tags == b.tags
    &&& a.features == b.features
    &&& a.richtext_format == b.richtext_format
    &&& a.node_names == b.node_names
    &&& a.block_definitions == b.block_definitions
    &&& a.join_collection == b.join_collection
    &&& a.join_on == b.join_on
    &&& a.rows_data == b.rows_data
}

/// Set the entries of `basic_ok`.
fn apply_basic_entries(f: &FieldDefinition, ctx: &mut FieldContext, depth: usize, single: bool)
    ensures
        basic_ok(*final(ctx), *old(ctx), *f, depth as nat, single, false),
        branch_same(*final(ctx), *old(ctx)),
        head_same(*final(ctx), *old(ctx)),
{
    let t = f.field_type;
    if f.min_length.is_some() {
        ctx.min_length = f.min_length;
    }
    if f.max_length.is_some() {
        ctx.max_length = f.max_length;
    }
    if t == FieldType::Number {
        ctx.step = Some(text_or(&f.admin.step, "any"));
    }
    if t == FieldType::Textarea {
        ctx.rows = Some(
            match f.admin.rows {
                Some(r) => r,
                None => 8u32,
            },
        );
    }
    if t == FieldType::Date {
        if f.min_date.is_some() {
            ctx.min_date = clone_opt(&f.min_date);
        }
        if f.max_date.is_some() {
            ctx.max_date = clone_opt(&f.max_date);
        }
    }
    if t == FieldType::Code && (single || depth < MAX_FIELD_DEPTH) {
        ctx.language = Some(text_or(&f.admin.language, "json"));
    }
}

/// The branch entries of a field type that sets none of them.
proof fn lemma_branch_idle(
    c: FieldContext,
    f: FieldDefinition,
    value: Seq<char>,
    values: Map<Seq<char>, String>,
    errors: Map<Seq<char>, String>,
    prefix: Seq<char>,
    base: Seq<char>,
    ndl: bool,
    depth: nat,
    single: bool,
)
    requires
        depth >= MAX_FIELD_DEPTH || f.field_type == FieldType::Email || f.field_type
            == FieldType::Textarea || f.field_type == FieldType::Json || f.field_type
            == FieldType::Code || ((f.field_type == FieldType::Text || f.field_type
            == FieldType::Number) && !f.has_many) || (!single && (f.field_type
            == FieldType::Richtext || f.field_type == FieldType::Join)),
    ensures
        branch_ok(c, c, f, value, values, errors, prefix, base, ndl, depth, single, false, c.value@, c.readonly),
{
}

/// Options of a select or radio field.
fn apply_choice(f: &FieldDefinition, value: &str, ctx: &mut FieldContext, values: &StrMap, errors: &StrMap, prefix: &str, base: &str, ndl: bool, depth: usize, single: bool)
    requires
        f.field_type == FieldType::Select || f.field_type == FieldType::Radio,
        depth < MAX_FIELD_DEPTH,
    ensures
        branch_ok(*final(ctx), *old(ctx), *f, value@, values@, errors@, prefix@, base@, ndl, depth as nat, single, false, old(ctx).value@, old(ctx).readonly),
        basic_same(*final(ctx), *old(ctx)),
        head_same(*final(ctx), *old(ctx)),
{
    ctx.options = Some(build_options(&f.options, value, f.has_many));
    if f.has_many {
        ctx.has_many = Some(true);
    }
}

/// The checked state of a checkbox.
fn apply_checkbox(f: &FieldDefinition, value: &str, ctx: &mut FieldContext, values: &StrMap, errors: &StrMap, prefix: &str, base: &str, ndl: bool, depth: usize, single: bool)
    requires
        f.field_type == FieldType::Checkbox,
        depth < MAX_FIELD_DEPTH,
    ensures
        branch_ok(*final(ctx), *old(ctx), *f, value@, values@, errors@, prefix@, base@, ndl, depth as nat, single, false, old(ctx).value@, old(ctx).readonly),
        basic_same(*final(ctx), *old(ctx)),
        head_same(*final(ctx), *old(ctx)),
{
    ctx.checked = Some(checkbox_checked(value));
}

/// Target collection, cardinality, polymorphic targets and picker of a relationship.
fn apply_relationship(f: &FieldDefinition, value: &str, ctx: &mut FieldContext, values: &StrMap, errors: &StrMap, prefix: &str, base: &str, ndl: bool, depth: usize, single: bool)
    requires
        f.field_type == FieldType::Relationship,
        depth < MAX_FIELD_DEPTH,
    ensures
        branch_ok(*final(ctx), *old(ctx), *f, value@, values@, errors@, prefix@, base@, ndl, depth as nat, single, false, old(ctx).value@, old(ctx).readonly),
        basic_same(*final(ctx), *old(ctx)),
        head_same(*final(ctx), *old(ctx)),
{
    match &f.relationship {
        Some(rc) => {
            ctx.relationship_collection = Some(rc.collection.clone());
            ctx.has_many = Some(rc.has_many);
            if rc.is_polymorphic() {
                ctx.polymorphic = Some(true);
                ctx.collections = Some(clone_strings(&rc.polymorphic));
            }
        },
        None => {},
    }
    if f.admin.picker.is_some() {
        ctx.picker = clone_opt(&f.admin.picker);
    }
}

/// Target collection, cardinality and picker of an upload field.
fn apply_upload(f: &FieldDefinition, value: &str, ctx: &mut FieldContext, values: &StrMap, errors: &StrMap, prefix: &str, base: &str, ndl: bool, depth: usize, single: bool)
    requires
        f.field_type == FieldType::Upload,
        depth < MAX_FIELD_DEPTH,
    ensures
        branch_ok(*final(ctx), *old(ctx), *f, value@, values@, errors@, prefix@, base@, ndl, depth as nat, single, false, old(ctx).value@, old(ctx).readonly),
        basic_same(*final(ctx), *old(ctx)),
        head_same(*final(ctx), *old(ctx)),
{
    match &f.relationship {
        Some(rc) => {
            ctx.relationship_collection = Some(rc.collection.clone());
            if rc.has_many {
                ctx.has_many = Some(true);
            }
        },
        None => {},
    }
    let picker = text_or(&f.admin.picker, "drawer");
    if !str_eq(picker.as_str(), "none") {
        ctx.picker = Some(picker);
    }
}

/// Picker appearance and the cut-down value of a date field.
fn apply_date(f: &FieldDefinition, value: &str, ctx: &mut FieldContext, values: &StrMap, errors: &StrMap, prefix: &str, base: &str, ndl: bool, depth: usize, single: bool)
    requires
        f.field_type == FieldType::Date,
        depth < MAX_FIELD_DEPTH,
    ensures
        branch_ok(*final(ctx), *old(ctx), *f, value@, values@, errors@, prefix@, base@, ndl, depth as nat, single, false, old(ctx).value@, old(ctx).readonly),
        basic_same(*final(ctx), *old(ctx)),
        head_same(*final(ctx), *old(ctx)),
{
    let appearance = text_or(&f.picker_appearance, "dayOnly");
    proof {
        reveal_strlit("dayOnly");
        reveal_strlit("dayAndTime");
        assert("dayOnly"@.len() != "dayAndTime"@.len());
    }
    if str_eq(appearance.as_str(), "dayOnly") {
        ctx.date_only_value = Some(first_bytes(value, 10));
    } else if str_eq(appearance.as_str(), "dayAndTime") {
        ctx.datetime_local_value = Some(first_bytes(value, 16));
    }
    ctx.picker_appearance = Some(appearance);
}

/// The tags of a text or number field that holds many values.
fn apply_tags(f: &FieldDefinition, value: &str, ctx: &mut FieldContext, values: &StrMap, errors: &StrMap, prefix: &str, base: &str, ndl: bool, depth: usize, single: bool)
    requires
        f.field_type == FieldType::Text || f.field_type == FieldType::Number,
        depth < MAX_FIELD_DEPTH,
    ensures
        branch_ok(*final(ctx), *old(ctx), *f, value@, values@, errors@, prefix@, base@, ndl, depth as nat, single, false, old(ctx).value@, old(ctx).readonly),
        basic_same(*final(ctx), *old(ctx)),
        head_same(*final(ctx), *old(ctx)),
{
    if f.has_many {
        let tags = parse_tags(value);
        ctx.has_many = Some(true);
        ctx.value = join_with_commas(&tags);
        ctx.tags = Some(tags);
    }
}

/// Editor features, storage format and node names of a rich text field.
fn apply_richtext(f: &FieldDefinition, value: &str, ctx: &mut FieldContext, values: &StrMap, errors: &StrMap, prefix: &str, base: &str, ndl: bool, depth: usize, single: bool)
    requires
        f.field_type == FieldType::Richtext,
        depth < MAX_FIELD_DEPTH,
    ensures
        branch_ok(*final(ctx), *old(ctx), *f, value@, values@, errors@, prefix@, base@, ndl, depth as nat, single, false, old(ctx).value@, old(ctx).readonly),
        basic_same(*final(ctx), *old(ctx)),
        head_same(*final(ctx), *old(ctx)),
{
    if single {
        if f.admin.features.len() > 0 {
            ctx.features = Some(clone_strings(&f.admin.features));
        }
        ctx.richtext_format = Some(text_or(&f.admin.richtext_format, "html"));
        if f.admin.nodes.len() > 0 {
            ctx.node_names = Some(clone_strings(&f.admin.nodes));
        }
    }
}

/// The reverse relationship of a join field, which is always read-only.
fn apply_join(f: &FieldDefinition, value: &str, ctx: &mut FieldContext, values: &StrMap, errors: &StrMap, prefix: &str, base: &str, ndl: bool, depth: usize, single: bool)
    requires
        f.field_type == FieldType::Join,
        depth < MAX_FIELD_DEPTH,
    ensures
        branch_ok(*final(ctx), *old(ctx), *f, value@, values@, errors@, prefix@, base@, ndl, depth as nat, single, false, old(ctx).value@, old(ctx).readonly),
        basic_same(*final(ctx), *old(ctx)),
        head_same(*final(ctx), *old(ctx)),
{
    if single {
        match &f.join {
            Some(jc) => {
                ctx.join_collection = Some(jc.collection.clone());
                ctx.join_on = Some(jc.on.clone());
            },
            None => {},
        }
        ctx.readonly = true;
    }
}

/// The row template and row settings of an array field.
fn apply_array(f: &FieldDefinition, value: &str, ctx: &mut FieldContext, values: &StrMap, errors: &StrMap, prefix: &str, base: &str, ndl: bool, depth: usize, single: bool)
    requires
        f.field_type == FieldType::Array,
        depth < MAX_FIELD_DEPTH,
    ensures
        branch_ok(*final(ctx), *old(ctx), *f, value@, values@, errors@, prefix@, base@, ndl, depth as nat, single, false, old(ctx).value@, old(ctx).readonly),
        basic_same(*final(ctx), *old(ctx)),
        head_same(*final(ctx), *old(ctx)),
    decreases f, 1int,
{
    let tmpl = concat_str(base, "[__INDEX__]");
    let no_values = StrMap::new();
    let no_errors = StrMap::new();
    let subs = build_kids(&f.fields, &no_values, &no_errors, tmpl.as_str(), ndl, depth + 1);
    ctx.sub_fields = Some(subs);
    ctx.row_count = Some(0);
    ctx.template_id = Some(safe_template_id(base));
    if f.admin.label_field.is_some() {
        ctx.label_field = clone_opt(&f.admin.label_field);
    }
    if f.max_rows.is_some() {
        ctx.max_rows = f.max_rows;
    }
    if f.min_rows.is_some() {
        ctx.min_rows = f.min_rows;
    }
    ctx.init_collapsed = Some(f.admin.collapsed);
    if f.admin.labels_singular.is_some() {
        ctx.add_label = resolve_opt(&f.admin.labels_singular);
    }
}

/// The row templates and row settings of a blocks field.
fn apply_blocks(f: &FieldDefinition, value: &str, ctx: &mut FieldContext, values: &StrMap, errors: &StrMap, prefix: &str, base: &str, ndl: bool, depth: usize, single: bool)
    requires
        f.field_type == FieldType::Blocks,
        depth < MAX_FIELD_DEPTH,
    ensures
        branch_ok(*final(ctx), *old(ctx), *f, value@, values@, errors@, prefix@, base@, ndl, depth as nat, single, false, old(ctx).value@, old(ctx).readonly),
        basic_same(*final(ctx), *old(ctx)),
        head_same(*final(ctx), *old(ctx)),
    decreases f, 1int,
{
    let tmpl = concat_str(base, "[__INDEX__]");
    let bs = build_block_defs(&f.blocks, tmpl.as_str(), ndl, depth + 1);
    ctx.block_definitions = Some(bs);
    ctx.row_count = Some(0);
    ctx.template_id = Some(safe_template_id(base));
    if single && f.admin.label_field.is_some() {
        ctx.label_field = clone_opt(&f.admin.label_field);
    }
    if f.max_rows.is_some() {
        ctx.max_rows = f.max_rows;
    }
    if f.min_rows.is_some() {
        ctx.min_rows = f.min_rows;
    }
    ctx.init_collapsed = Some(f.admin.collapsed);
    if f.admin.labels_singular.is_some() {
        ctx.add_label = resolve_opt(&f.admin.labels_singular);
    }
    if f.admin.picker.is_some() {
        ctx.picker = clone_opt(&f.admin.picker);
    }
}

/// The sub-fields of a group, row or collapsible.
fn apply_container(f: &FieldDefinition, value: &str, ctx: &mut FieldContext, values: &StrMap, errors: &StrMap, prefix: &str, base: &str, ndl: bool, depth: usize, single: bool)
    requires
        f.field_type == FieldType::Group || f.field_type == FieldType::Row || f.field_type
            == FieldType::Collapsible,
        depth < MAX_FIELD_DEPTH,
    ensures
        branch_ok(*final(ctx), *old(ctx), *f, value@, values@, errors@, prefix@, base@, ndl, depth as nat, single, false, old(ctx).value@, old(ctx).readonly),
        basic_same(*final(ctx), *old(ctx)),
        head_same(*final(ctx), *old(ctx)),
    decreases f, 1int,
{
    let top = single && prefix.is_empty();
    let subs = if f.field_type == FieldType::Group && top {
        build_group_kids(f, values, errors, ndl, depth + 1)
    } else if top {
        let empty = String::new();
        build_kids(&f.fields, values, errors, empty.as_str(), ndl, depth + 1)
    } else {
        build_kids(&f.fields, values, errors, base, ndl, depth + 1)
    };
    ctx.sub_fields = Some(subs);
    if f.field_type != FieldType::Row {
        ctx.collapsed = Some(f.admin.collapsed);
    }
}

/// The tab panels of a tabs field.
fn apply_tabs(f: &FieldDefinition, value: &str, ctx: &mut FieldContext, values: &StrMap, errors: &StrMap, prefix: &str, base: &str, ndl: bool, depth: usize, single: bool)
    requires
        f.field_type == FieldType::Tabs,
        depth < MAX_FIELD_DEPTH,
    ensures
        branch_ok(*final(ctx), *old(ctx), *f, value@, values@, errors@, prefix@, base@, ndl, depth as nat, single, false, old(ctx).value@, old(ctx).readonly),
        basic_same(*final(ctx), *old(ctx)),
        head_same(*final(ctx), *old(ctx)),
    decreases f, 1int,
{
    let ts = if single && prefix.is_empty() {
        let empty = String::new();
        build_tabs(&f.tabs, values, errors, empty.as_str(), ndl, depth + 1)
    } else {
        build_tabs(&f.tabs, values, errors, base, ndl, depth + 1)
    };
    ctx.tabs = Some(ts);
}

/// Both steps together give the entries of the type.
proof fn lemma_combine(
    fin: FieldContext,
    mid: FieldContext,
    orig: FieldContext,
    f: FieldDefinition,
    value: Seq<char>,
    values: Map<Seq<char>, String>,
    errors: Map<Seq<char>, String>,
    prefix: Seq<char>,
    base: Seq<char>,
    ndl: bool,
    depth: nat,
    single: bool,
)
    requires
        basic_ok(mid, orig, f, depth, single, false),
        branch_same(mid, orig),
        branch_ok(fin, mid, f, value, values, errors, prefix, base, ndl, depth, single, false, mid.value@, mid.readonly),
        basic_same(fin, mid),
    ensures
        type_ok(fin, orig, f, value, values, errors, prefix, base, ndl, depth, single, false, orig.value@, orig.readonly),
{
}

/// Add to `ctx` the entries that the type of `f` calls for. `single` selects the
/// top-level form building, else the form used inside top-level groups; `base` is the
/// form name of the field, which nested row templates extend.
fn apply_type_entries(
    f: &FieldDefinition,
    value: &str,
    ctx: &mut FieldContext,
    values: &StrMap,
    errors: &StrMap,
    prefix: &str,
    base: &str,
    ndl: bool,
    depth: usize,
    single: bool,
)
    ensures
        type_ok(
            *final(ctx),
            *old(ctx),
            *f,
            value@,
            values@,
            errors@,
            prefix@,
            base@,
            ndl,
            depth as nat,
            single,
            false,
            old(ctx).value@,
            old(ctx).readonly,
        ),
        head_same(*final(ctx), *old(ctx)),
    decreases f, 2int,
{
    let ghost orig = *ctx;
    apply_basic_entries(f, ctx, depth, single);
    let ghost mid = *ctx;
    let t = f.field_type;
    if depth >= MAX_FIELD_DEPTH {
        proof {
            lemma_branch_idle(mid, *f, value@, values@, errors@, prefix@, base@, ndl, depth as nat, single);
            lemma_combine(mid, mid, orig, *f, value@, values@, errors@, prefix@, base@, ndl, depth as nat, single);
        }
        return ;
    }
    match t {
        FieldType::Select | FieldType::Radio => {
            apply_choice(f, value, ctx, values, errors, prefix, base, ndl, depth, single);
        },
        FieldType::Checkbox => {
            apply_checkbox(f, value, ctx, values, errors, prefix, base, ndl, depth, single);
        },
        FieldType::Relationship => {
            apply_relationship(f, value, ctx, values, errors, prefix, base, ndl, depth, single);
        },
        FieldType::Array => {
            apply_array(f, value, ctx, values, errors, prefix, base, ndl, depth, single);
        },
        FieldType::Group | FieldType::Row | FieldType::Collapsible => {
            apply_container(f, value, ctx, values, errors, prefix, base, ndl, depth, single);
        },
        FieldType::Tabs => {
            apply_tabs(f, value, ctx, values, errors, prefix, base, ndl, depth, single);
        },
        FieldType::Date => {
            apply_date(f, value, ctx, values, errors, prefix, base, ndl, depth, single);
        },
        FieldType::Upload => {
            apply_upload(f, value, ctx, values, errors, prefix, base, ndl, depth, single);
        },
        FieldType::Text | FieldType::Number => {
            apply_tags(f, value, ctx, values, errors, prefix, base, ndl, depth, single);
        },
        FieldType::Richtext => {
            apply_richtext(f, value, ctx, values, errors, prefix, base, ndl, depth, single);
        },
        FieldType::Blocks => {
            apply_blocks(f, value, ctx, values, errors, prefix, base, ndl, depth, single);
        },
        FieldType::Join => {
            apply_join(f, value, ctx, values, errors, prefix, base, ndl, depth, single);
        },
        _ => {
            proof {
                lemma_branch_idle(mid, *f, value@, values@, errors@, prefix@, base@, ndl, depth as nat, single);
            }
        },
    }
    proof {
        lemma_combine(*ctx, mid, orig, *f, value@, values@, errors@, prefix@, base@, ndl, depth as nat, single);
    }
}

/// Build the context of one field definition, recursing into composite sub-fields.
///
/// `name_prefix` is the form-name prefix of the field (`"content[0]"` for a field inside
/// the first row of a blocks field; empty at the top level). `depth` is the nesting
/// depth (0 at the top level); from `MAX_FIELD_DEPTH` on, composites are not expanded.
pub fn build_single_field_context(
    field: &FieldDefinition,
    values: &StrMap,
    errors: &StrMap,
    name_prefix: &str,
    non_default_locale: bool,
    depth: usize,
) -> (c: FieldContext)
    ensures
        single_ok(c, *field, values@, errors@, name_prefix@, non_default_locale, depth as nat),
    decreases field, 3int,
{
    let full_name: String = if name_prefix.is_empty() {
        field.name.clone()
    } else if field.field_type.is_layout_wrapper() {
        String::from_str(name_prefix)
    } else {
        bracket_name(name_prefix, field.name.as_str())
    };
    let value = values.get_or_empty(full_name.as_str());
    let locked = non_default_locale && !field.localized;
    let mut ctx = head_context(
        full_name.clone(),
        field.field_type,
        field_label(field),
        field.required,
        value.clone(),
        resolve_opt(&field.admin.placeholder),
        resolve_opt(&field.admin.description),
        field.admin.readonly || locked,
        Some(field.localized),
        locked,
    );
    ctx.position = clone_opt(&field.admin.position);
    ctx.error = match errors.get(full_name.as_str()) {
        Some(e) => Some(e.clone()),
        None => None,
    };
    let ghost head = ctx;
    apply_type_entries(
        field,
        value.as_str(),
        &mut ctx,
        values,
        errors,
        name_prefix,
        full_name.as_str(),
        non_default_locale,
        depth,
        true,
    );
    proof {
        lemma_fresh(
            ctx,
            head,
            *field,
            value@,
            values@,
            errors@,
            name_prefix@,
            full_name@,
            non_default_locale,
            depth as nat,
            true,
            head.value@,
            head.readonly,
        );
    }
    ctx
}

// ---------------------------------------------------------------------------
// The public entry points
// ---------------------------------------------------------------------------

/// Add the entries of the type of `sf` to a context built for a sub-field of a
/// top-level group (named by the `group__sub` column pattern), recursing into
/// composites. `name_prefix` is the sub-field's form name.
pub fn apply_field_type_extras(
    sf: &FieldDefinition,
    value: &str,
    sub_ctx: &mut FieldContext,
    values: &StrMap,
    errors: &StrMap,
    name_prefix: &str,
    non_default_locale: bool,
    depth: usize,
)
    ensures
        type_ok(
            *final(sub_ctx),
            *old(sub_ctx),
            *sf,
            value@,
            values@,
            errors@,
            Seq::empty(),
            name_prefix@,
            non_default_locale,
            depth as nat,
            false,
            false,
            old(sub_ctx).value@,
            old(sub_ctx).readonly,
        ),
        head_same(*final(sub_ctx), *old(sub_ctx)),
{
    let empty = String::new();
    apply_type_entries(
        sf,
        value,
        sub_ctx,
        values,
        errors,
        empty.as_str(),
        name_prefix,
        non_default_locale,
        depth,
        false,
    );
}

/// The definitions that a form shows: all of them, or those not hidden when hidden
/// fields are filtered out. Order is kept.
pub open spec fn shown_fields(fs: Seq<FieldDefinition>, filter_hidden: bool) -> Seq<FieldDefinition>
    decreases fs.len(),
{
    if fs.len() == 0 {
        Seq::empty()
    } else {
        let rest = shown_fields(fs.drop_last(), filter_hidden);
        if filter_hidden && fs.last().admin.hidden {
            rest
        } else {
            rest.push(fs.last())
        }
    }
}

/// Build the contexts of the top-level fields of a form.
///
/// With `filter_hidden`, fields hidden in the admin UI are left out. With
/// `non_default_locale`, non-localized fields are locked (read-only), since they are
/// shared by all locales and edited from the default one.
pub fn build_field_contexts(
    fields: &[FieldDefinition],
    values: &StrMap,
    errors: &StrMap,
    filter_hidden: bool,
    non_default_locale: bool,
) -> (r: Vec<FieldContext>)
    ensures
        r.len() == shown_fields(fields@, filter_hidden).len(),
        forall|i: int|
            0 <= i < r.len() ==> single_ok(
                #[trigger] r@[i],
                shown_fields(fields@, filter_hidden)[i],
                values@,
                errors@,
                Seq::empty(),
                non_default_locale,
                0,
            ),
{
    let empty = String::new();
    let mut r: Vec<FieldContext> = Vec::new();
    let mut i: usize = 0;
    while i < fields.len()
        invariant
            empty@ == Seq::<char>::empty(),
            i <= fields.len(),
            r.len() == shown_fields(fields@.take(i as int), filter_hidden).len(),
            forall|j: int|
                0 <= j < r.len() ==> single_ok(
                    #[trigger] r@[j],
                    shown_fields(fields@.take(i as int), filter_hidden)[j],
                    values@,
                    errors@,
                    Seq::empty(),
                    non_default_locale,
                    0,
                ),
        decreases fields.len() - i,
    {
        let ghost before = shown_fields(fields@.take(i as int), filter_hidden);
        assert(fields@.take(i + 1).drop_last() =~= fields@.take(i as int));
        assert(fields@.take(i + 1).last() == fields@[i as int]);
        let f = &fields[i];
        if !(filter_hidden && f.admin.hidden) {
            let c = build_single_field_context(f, values, errors, empty.as_str(), non_default_locale, 0);
            r.push(c);
        }
        i = i + 1;
    }
    assert(fields@.take(fields.len() as int) =~= fields@);
    r
}

/// Whether a context is placed in the sidebar.
pub open spec fn in_sidebar(c: FieldContext) -> bool {
    c.position matches Some(p) && p@ == "sidebar"@
}

/// The contexts of a list that are (`side`) or are not (`!side`) in the sidebar, in order.
pub open spec fn placed(cs: Seq<FieldContext>, side: bool) -> Seq<FieldContext>
    decreases cs.len(),
{
    if cs.len() == 0 {
        Seq::empty()
    } else {
        let rest = placed(cs.drop_last(), side);
        if in_sidebar(cs.last()) == side {
            rest.push(cs.last())
        } else {
            rest
        }
    }
}

/// Split contexts into the main column and the sidebar (position "sidebar"), keeping
/// the order within each.
pub fn split_sidebar_fields(fields: Vec<FieldContext>) -> (r: (Vec<FieldContext>, Vec<FieldContext>))
    ensures
        r.0@ == placed(fields@, false),
        r.1@ == placed(fields@, true),
{
    let ghost all = fields@;
    let mut rest = fields;
    let mut main: Vec<FieldContext> = Vec::new();
    let mut side: Vec<FieldContext> = Vec::new();
    let mut i: usize = 0;
    let ghost n = rest.len();
    while rest.len() > 0
        invariant
            all.len() == n,
            n <= usize::MAX,
            i <= all.len(),
            rest@ == all.skip(i as int),
            main@ == placed(all.take(i as int), false),
            side@ == placed(all.take(i as int), true),
        decreases rest.len(),
    {
        let c = rest.remove(0);
        assert(all.take(i + 1).drop_last() =~= all.take(i as int));
        assert(all.take(i + 1).last() == c);
        assert(all.skip(i + 1) =~= all.skip(i as int).skip(1));
        let is_side = match &c.position {
            Some(p) => str_eq(p.as_str(), "sidebar"),
            None => false,
        };
        if is_side {
            side.push(c);
        } else {
            main.push(c);
        }
        i = i + 1;
    }
    assert(all.take(i as int) =~= all);
    (main, side)
}

// ---------------------------------------------------------------------------
// Laws
// ---------------------------------------------------------------------------

/// Without filtering a form shows every field; with filtering it shows exactly the
/// fields not hidden, in order.
pub proof fn lemma_shown_fields(fs: Seq<FieldDefinition>)
    ensures
        shown_fields(fs, false) == fs,
        forall|i: int| 0 <= i < shown_fields(fs, true).len() ==> !(#[trigger] shown_fields(fs, true)[i]).admin.hidden,
        forall|i: int| 0 <= i < fs.len() && !fs[i].admin.hidden ==> shown_fields(fs, true).contains(#[trigger] fs[i]),
    decreases fs.len(),
{
    if fs.len() > 0 {
        lemma_shown_fields(fs.drop_last());
        assert(fs.drop_last().push(fs.last()) =~= fs);
        let rest = shown_fields(fs.drop_last(), true);
        let all = shown_fields(fs, true);
        assert forall|i: int| 0 <= i < fs.len() && !fs[i].admin.hidden implies all.contains(#[trigger] fs[i]) by {
            if i < fs.len() - 1 {
                assert(fs.drop_last()[i] == fs[i]);
                assert(rest.contains(fs[i]));
                let j = choose|j: int| 0 <= j < rest.len() && rest[j] == fs[i];
                if !fs.last().admin.hidden {
                    assert(all[j] == fs[i]);
                }
            } else {
                assert(all[all.len() - 1] == fs[i]);
            }
        }
        assert forall|i: int| 0 <= i < all.len() implies !(#[trigger] all[i]).admin.hidden by {
            if i < rest.len() {
                assert(all[i] == rest[i]);
            }
        }
    }
}

/// Splitting keeps every context: the main column and the sidebar together hold the
/// input (as a multiset), every sidebar context is placed in the sidebar and no main
/// one is.
pub proof fn lemma_split_partition(cs: Seq<FieldContext>)
    ensures
        placed(cs, false).len() + placed(cs, true).len() == cs.len(),
        placed(cs, false).to_multiset().add(placed(cs, true).to_multiset()) =~= cs.to_multiset(),
        forall|i: int| 0 <= i < placed(cs, true).len() ==> in_sidebar(#[trigger] placed(cs, true)[i]),
        forall|i: int| 0 <= i < placed(cs, false).len() ==> !in_sidebar(#[trigger] placed(cs, false)[i]),
    decreases cs.len(),
{
    broadcast use vstd::seq_lib::group_to_multiset_ensures;

    if cs.len() > 0 {
        lemma_split_partition(cs.drop_last());
        assert(cs.drop_last().push(cs.last()) =~= cs);
        let m = placed(cs.drop_last(), false);
        let s = placed(cs.drop_last(), true);
        assert forall|i: int| 0 <= i < placed(cs, true).len() implies in_sidebar(#[trigger] placed(cs, true)[i]) by {
            if i < s.len() {
                assert(placed(cs, true)[i] == s[i]);
            }
        }
        assert forall|i: int| 0 <= i < placed(cs, false).len() implies !in_sidebar(#[trigger] placed(cs, false)[i]) by {
            if i < m.len() {
                assert(placed(cs, false)[i] == m[i]);
            }
        }
    }
}

} // verus!
