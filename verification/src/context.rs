//! Field contexts: what the admin templates render for each field of a form, built from
//! the field definitions, the submitted values and the validation errors (no DB access).

use vstd::prelude::*;
use vstd::string::*;
use crate::field::{
    default_text, field_type_name, is_layout_wrapper, BlockDefinition, FieldDefinition,
    FieldTab, FieldType, LocalizedString, SelectOption,
};
use crate::strmap::{json_string_list, lookup, lookup_opt, parse_string_list, StrMap};
use crate::text::{
    auto_label_from_name, chars_of, concat_str, safe_template_id, str_eq, string_of,
    template_id_of, title_case,
};

verus! {

/// Nesting depth beyond which composite fields render as plain inputs.
pub const MAX_FIELD_DEPTH: usize = 5;

// ---------------------------------------------------------------------------
// The context records
// ---------------------------------------------------------------------------

/// One option of a select or radio field.
#[derive(Debug, Default)]
pub struct OptionContext {
    pub label: String,
    pub value: String,
    pub selected: bool,
}

/// One tab panel of a tabs field.
#[derive(Debug, Default)]
pub struct TabContext {
    pub label: String,
    pub sub_fields: Vec<FieldContext>,
    /// Number of errors inside the tab, present only when above zero.
    pub error_count: Option<usize>,
    pub description: Option<String>,
}

/// The template of one block type of a blocks field.
#[derive(Debug, Default)]
pub struct BlockDefContext {
    pub block_type: String,
    pub label: String,
    pub fields: Vec<FieldContext>,
    pub label_field: Option<String>,
    pub group: Option<String>,
    pub image_url: Option<String>,
}

/// One existing row of an array or blocks field.
#[derive(Debug, Default)]
pub struct RowContext {
    pub index: usize,
    /// Block type of a blocks row (absent for array rows).
    pub block_type: Option<String>,
    /// Label of the block type of a blocks row (absent for array rows).
    pub block_label: Option<String>,
    pub sub_fields: Vec<FieldContext>,
    /// Whether any sub-field of the row carries an error.
    pub has_errors: bool,
}

/// Everything a template renders for one field. Absent (`None`) entries are keys the
/// template does not receive.
#[derive(Debug, Default)]
pub struct FieldContext {
    pub name: String,
    pub field_type: String,
    pub label: String,
    pub required: bool,
    pub value: String,
    pub placeholder: Option<String>,
    pub description: Option<String>,
    pub readonly: bool,
    pub localized: Option<bool>,
    pub locale_locked: bool,
    pub position: Option<String>,
    pub error: Option<String>,
    pub min_length: Option<u64>,
    pub max_length: Option<u64>,
    pub step: Option<String>,
    pub rows: Option<u32>,
    pub min_date: Option<String>,
    pub max_date: Option<String>,
    pub language: Option<String>,
    pub options: Option<Vec<OptionContext>>,
    pub has_many: Option<bool>,
    pub checked: Option<bool>,
    pub relationship_collection: Option<String>,
    pub polymorphic: Option<bool>,
    pub collections: Option<Vec<String>>,
    pub picker: Option<String>,
    pub sub_fields: Option<Vec<FieldContext>>,
    pub row_count: Option<usize>,
    pub template_id: Option<String>,
    pub label_field: Option<String>,
    pub max_rows: Option<u64>,
    pub min_rows: Option<u64>,
    pub init_collapsed: Option<bool>,
    pub add_label: Option<String>,
    pub collapsed: Option<bool>,
    pub tabs: Option<Vec<TabContext>>,
    pub picker_appearance: Option<String>,
    pub date_only_value: Option<String>,
    pub datetime_local_value: Option<String>,
    pub tags: Option<Vec<String>>,
    pub features: Option<Vec<String>>,
    pub richtext_format: Option<String>,
    pub node_names: Option<Vec<String>>,
    pub block_definitions: Option<Vec<BlockDefContext>>,
    pub join_collection: Option<String>,
    pub join_on: Option<String>,
    pub rows_data: Option<Vec<RowContext>>,
}

// ---------------------------------------------------------------------------
// Views and small spec helpers
// ---------------------------------------------------------------------------

/// The characters of an optional string.
pub open spec fn sv(o: Option<String>) -> Option<Seq<char>> {
    match o {
        Some(s) => Some(s@),
        None => None,
    }
}

/// The characters of each string of a vector.
pub open spec fn svs(v: Vec<String>) -> Seq<Seq<char>> {
    v@.map_values(|s: String| s@)
}

/// The default-locale text of an optional label.
pub open spec fn opt_text(o: Option<LocalizedString>) -> Option<Seq<char>> {
    match o {
        Some(l) => Some(default_text(l)),
        None => None,
    }
}

/// The text of an optional setting, or a default.
pub open spec fn or_default(o: Option<String>, d: Seq<char>) -> Seq<char> {
    match o {
        Some(s) => s@,
        None => d,
    }
}

/// The label shown for a field: its configured label, else its name in title case.
pub open spec fn label_of(f: FieldDefinition) -> Seq<char> {
    match f.admin.label {
        Some(l) => default_text(l),
        None => title_case(f.name@),
    }
}

/// The form name of a field under a prefix. Top-level fields use their own name; layout
/// wrappers are transparent; everything else is `prefix[name]`.
pub open spec fn full_name(prefix: Seq<char>, f: FieldDefinition) -> Seq<char> {
    if prefix.len() == 0 {
        f.name@
    } else if is_layout_wrapper(f.field_type) {
        prefix
    } else {
        prefix + "["@ + f.name@ + "]"@
    }
}

/// Values that mark a checkbox as checked.
pub open spec fn is_checked(v: Seq<char>) -> bool {
    v == "1"@ || v == "true"@ || v == "on"@ || v == "yes"@
}

/// The number of bytes of a character in UTF-8.
pub open spec fn utf8_len(c: char) -> nat {
    if (c as u32) < 0x80 {
        1
    } else if (c as u32) < 0x800 {
        2
    } else if (c as u32) < 0x10000 {
        3
    } else {
        4
    }
}

/// The longest run of leading characters whose UTF-8 encoding takes at most `n` bytes:
/// the whole value when it is shorter, else the first `n` bytes (up to the last
/// character that ends within them).
pub open spec fn byte_prefix(v: Seq<char>, n: int) -> Seq<char>
    decreases v.len(),
{
    if v.len() == 0 || utf8_len(v[0]) > n {
        Seq::empty()
    } else {
        seq![v[0]] + byte_prefix(v.skip(1), n - utf8_len(v[0]))
    }
}

/// The strings of a JSON array held in a form value (none when it is not one).
pub open spec fn tags_of(v: Seq<char>) -> Seq<Seq<char>> {
    match json_string_list(v) {
        Some(l) => l,
        None => Seq::empty(),
    }
}

/// Strings joined with ",".
pub open spec fn join_commas(items: Seq<Seq<char>>) -> Seq<char>
    decreases items.len(),
{
    if items.len() == 0 {
        Seq::empty()
    } else if items.len() == 1 {
        items[0]
    } else {
        join_commas(items.drop_last()) + ","@ + items.last()
    }
}

/// The prior value of a key: nothing for a fresh context, else the old one.
pub open spec fn prior<T>(fresh: bool, v: Option<T>) -> Option<T> {
    if fresh {
        None
    } else {
        v
    }
}

/// The option contexts of a select field: labels and values of the options, each
/// marked selected when the field value names it.
pub open spec fn options_ok(os: Seq<OptionContext>, defs: Seq<SelectOption>, value: Seq<char>, has_many: bool) -> bool {
    &&& os.len() == defs.len()
    &&& forall|i: int|
        0 <= i < defs.len() ==> {
            &&& (#[trigger] os[i]).label@ == default_text(defs[i].label)
            &&& os[i].value@ == defs[i].value@
            &&& os[i].selected == if has_many {
                tags_of(value).contains(defs[i].value@)
            } else {
                defs[i].value@ == value
            }
        }
}

/// The empty string map.
pub open spec fn no_entries() -> Map<Seq<char>, String> {
    Map::empty()
}

/// The number of contexts carrying an error, counting sub-fields, tab panels and rows.
pub open spec fn errors_in(c: FieldContext) -> nat
    decreases c, 0nat,
{
    (if c.error is Some { 1nat } else { 0nat }) + match c.sub_fields {
        Some(v) => errors_seq(v@, v@.len() as int),
        None => 0nat,
    } + match c.tabs {
        Some(t) => errors_tabs(t@, t@.len() as int),
        None => 0nat,
    } + match c.rows_data {
        Some(r) => errors_rows(r@, r@.len() as int),
        None => 0nat,
    }
}

/// Errors in the first `k` contexts.
pub open spec fn errors_seq(cs: Seq<FieldContext>, k: int) -> nat
    decreases cs, k,
{
    if k <= 0 || k > cs.len() {
        0
    } else {
        errors_seq(cs, k - 1) + errors_in(cs[k - 1])
    }
}

/// Errors in the first `k` tab panels.
pub open spec fn errors_tabs(ts: Seq<TabContext>, k: int) -> nat
    decreases ts, k,
{
    if k <= 0 || k > ts.len() {
        0
    } else {
        errors_tabs(ts, k - 1) + errors_seq(ts[k - 1].sub_fields@, ts[k - 1].sub_fields@.len() as int)
    }
}

/// Errors in the first `k` rows.
pub open spec fn errors_rows(rs: Seq<RowContext>, k: int) -> nat
    decreases rs, k,
{
    if k <= 0 || k > rs.len() {
        0
    } else {
        errors_rows(rs, k - 1) + errors_seq(rs[k - 1].sub_fields@, rs[k - 1].sub_fields@.len() as int)
    }
}

/// Errors in a list of contexts.
pub open spec fn count_errors(cs: Seq<FieldContext>) -> nat {
    errors_seq(cs, cs.len() as int)
}

// ---------------------------------------------------------------------------
// The meaning of a built context
// ---------------------------------------------------------------------------

/// A context built for field `f` by `build_single_field_context`.
pub open spec fn single_ok(
    c: FieldContext,
    f: FieldDefinition,
    values: Map<Seq<char>, String>,
    errors: Map<Seq<char>, String>,
    prefix: Seq<char>,
    ndl: bool,
    depth: nat,
) -> bool
    decreases f, 2int,
{
    let name = full_name(prefix, f);
    let value = lookup(values, name);
    let locked = ndl && !f.localized;
    &&& c.name@ == name
    &&& c.field_type@ == field_type_name(f.field_type)
    &&& c.label@ == label_of(f)
    &&& c.required == f.required
    &&& sv(c.placeholder) == opt_text(f.admin.placeholder)
    &&& sv(c.description) == opt_text(f.admin.description)
    &&& c.localized == Some(f.localized)
    &&& c.locale_locked == locked
    &&& sv(c.position) == sv(f.admin.position)
    &&& sv(c.error) == lookup_opt(errors, name)
    &&& basic_ok(c, c, f, depth, true, true)
    &&& branch_ok(
        c,
        c,
        f,
        value,
        values,
        errors,
        prefix,
        name,
        ndl,
        depth,
        true,
        true,
        value,
        f.admin.readonly || locked,
    )
}

/// The entries that the type of `f` adds to a context `new` (over `old`, or over an
/// empty context when `fresh`). `single` selects the top-level form building, else the
/// form used inside groups; `base` is the name that templates of nested rows extend.
pub open spec fn type_ok(
    new: FieldContext,
    old: FieldContext,
    f: FieldDefinition,
    value: Seq<char>,
    values: Map<Seq<char>, String>,
    errors: Map<Seq<char>, String>,
    prefix: Seq<char>,
    base: Seq<char>,
    ndl: bool,
    depth: nat,
    single: bool,
    fresh: bool,
    base_value: Seq<char>,
    base_readonly: bool,
) -> bool {
    &&& basic_ok(new, old, f, depth, single, fresh)
    &&& branch_ok(new, old, f, value, values, errors, prefix, base, ndl, depth, single, fresh, base_value, base_readonly)
}

/// The entries set whatever the nesting depth: length bounds, number step, textarea
/// rows, date bounds, and the code language (inside groups only below the depth limit).
pub open spec fn basic_ok(
    new: FieldContext,
    old: FieldContext,
    f: FieldDefinition,
    depth: nat,
    single: bool,
    fresh: bool,
) -> bool {
    let t = f.field_type;
    let d = depth < MAX_FIELD_DEPTH;
    &&& new.min_length == if f.min_length is Some {
        f.min_length
    } else {
        prior(fresh, old.min_length)
    }
    &&& new.max_length == if f.max_length is Some {
        f.max_length
    } else {
        prior(fresh, old.max_length)
    }
    &&& sv(new.step) == if t == FieldType::Number {
        Some(or_default(f.admin.step, "any"@))
    } else {
        sv(prior(fresh, old.step))
    }
    &&& new.rows == if t == FieldType::Textarea {
        Some(
            match f.admin.rows {
                Some(r) => r,
                None => 8u32,
            },
        )
    } else {
        prior(fresh, old.rows)
    }
    &&& sv(new.min_date) == if t == FieldType::Date && f.min_date is Some {
        sv(f.min_date)
    } else {
        sv(prior(fresh, old.min_date))
    }
    &&& sv(new.max_date) == if t == FieldType::Date && f.max_date is Some {
        sv(f.max_date)
    } else {
        sv(prior(fresh, old.max_date))
    }
    &&& sv(new.language) == if t == FieldType::Code && (single || d) {
        Some(or_default(f.admin.language, "json"@))
    } else {
        sv(prior(fresh, old.language))
    }
}

/// The entries of the type branch, set only below the depth limit: choices, relations,
/// nested contexts, row settings, date values, tags, rich text settings and joins.
pub open spec fn branch_ok(
    new: FieldContext,
    old: FieldContext,
    f: FieldDefinition,
    value: Seq<char>,
    values: Map<Seq<char>, String>,
    errors: Map<Seq<char>, String>,
    prefix: Seq<char>,
    base: Seq<char>,
    ndl: bool,
    depth: nat,
    single: bool,
    fresh: bool,
    base_value: Seq<char>,
    base_readonly: bool,
) -> bool
    decreases f, 1int,
{
    let t = f.field_type;
    let d = depth < MAX_FIELD_DEPTH;
    let tmpl = base + "[__INDEX__]"@;
    let kids_prefix = if single && prefix.len() == 0 {
        Seq::<char>::empty()
    } else {
        base
    };
    let appearance = or_default(f.picker_appearance, "dayOnly"@);
    let tag_branch = d && (t == FieldType::Text || t == FieldType::Number) && f.has_many;
    &&& new.checked == if d && t == FieldType::Checkbox {
        Some(is_checked(value))
    } else {
        prior(fresh, old.checked)
    }
    &&& if d && (t == FieldType::Select || t == FieldType::Radio) {
        new.options matches Some(os) && options_ok(os@, f.options@, value, f.has_many)
    } else {
        new.options == prior(fresh, old.options)
    }
    &&& new.has_many == if d && (t == FieldType::Select || t == FieldType::Radio) && f.has_many {
        Some(true)
    } else if d && t == FieldType::Relationship && f.relationship is Some {
        Some(f.relationship->0.has_many)
    } else if d && t == FieldType::Upload && f.relationship is Some
        && f.relationship->0.has_many {
        Some(true)
    } else if tag_branch {
        Some(true)
    } else {
        prior(fresh, old.has_many)
    }
    &&& sv(new.relationship_collection) == if d && (t == FieldType::Relationship || t
        == FieldType::Upload) && f.relationship is Some {
        Some(f.relationship->0.collection@)
    } else {
        sv(prior(fresh, old.relationship_collection))
    }
    &&& new.polymorphic == if d && t == FieldType::Relationship && f.relationship is Some
        && f.relationship->0.polymorphic.len() > 0 {
        Some(true)
    } else {
        prior(fresh, old.polymorphic)
    }
    &&& if d && t == FieldType::Relationship && f.relationship is Some
        && f.relationship->0.polymorphic.len() > 0 {
        new.collections matches Some(cs) && svs(cs) == svs(f.relationship->0.polymorphic)
    } else {
        new.collections == prior(fresh, old.collections)
    }
    &&& sv(new.picker) == if d && (t == FieldType::Relationship || t == FieldType::Blocks)
        && f.admin.picker is Some {
        sv(f.admin.picker)
    } else if d && t == FieldType::Upload && or_default(f.admin.picker, "drawer"@) != "none"@ {
        Some(or_default(f.admin.picker, "drawer"@))
    } else {
        sv(prior(fresh, old.picker))
    }
    &&& if d && t == FieldType::Array {
        new.sub_fields matches Some(subs) && subs.len() == f.fields.len() && kids_ok(
            subs@,
            f.fields@,
            no_entries(),
            no_entries(),
            tmpl,
            ndl,
            depth + 1,
            f.fields.len() as int,
        )
    } else if d && t == FieldType::Group && single && prefix.len() == 0 {
        new.sub_fields matches Some(subs) && subs.len() == f.fields.len() && group_kids_ok(
            subs@,
            f.fields@,
            f.name@,
            f.localized,
            values,
            errors,
            ndl,
            depth + 1,
            f.fields.len() as int,
        )
    } else if d && (t == FieldType::Group || t == FieldType::Row || t == FieldType::Collapsible) {
        new.sub_fields matches Some(subs) && subs.len() == f.fields.len() && kids_ok(
            subs@,
            f.fields@,
            values,
            errors,
            kids_prefix,
            ndl,
            depth + 1,
            f.fields.len() as int,
        )
    } else {
        new.sub_fields == prior(fresh, old.sub_fields)
    }
    &&& new.row_count == if d && (t == FieldType::Array || t == FieldType::Blocks) {
        Some(0usize)
    } else {
        prior(fresh, old.row_count)
    }
    &&& sv(new.template_id) == if d && (t == FieldType::Array || t == FieldType::Blocks) {
        Some(template_id_of(base))
    } else {
        sv(prior(fresh, old.template_id))
    }
    &&& sv(new.label_field) == if d && (t == FieldType::Array || (t == FieldType::Blocks && single))
        && f.admin.label_field is Some {
        sv(f.admin.label_field)
    } else {
        sv(prior(fresh, old.label_field))
    }
    &&& new.max_rows == if d && (t == FieldType::Array || t == FieldType::Blocks)
        && f.max_rows is Some {
        f.max_rows
    } else {
        prior(fresh, old.max_rows)
    }
    &&& new.min_rows == if d && (t == FieldType::Array || t == FieldType::Blocks)
        && f.min_rows is Some {
        f.min_rows
    } else {
        prior(fresh, old.min_rows)
    }
    &&& new.init_collapsed == if d && (t == FieldType::Array || t == FieldType::Blocks) {
        Some(f.admin.collapsed)
    } else {
        prior(fresh, old.init_collapsed)
    }
    &&& sv(new.add_label) == if d && (t == FieldType::Array || t == FieldType::Blocks)
        && f.admin.labels_singular is Some {
        opt_text(f.admin.labels_singular)
    } else {
        sv(prior(fresh, old.add_label))
    }
    &&& new.collapsed == if d && (t == FieldType::Group || t == FieldType::Collapsible) {
        Some(f.admin.collapsed)
    } else {
        prior(fresh, old.collapsed)
    }
    &&& if d && t == FieldType::Tabs {
        new.tabs matches Some(ts) && ts.len() == f.tabs.len() && tabs_ok(
            ts@,
            f.tabs@,
            values,
            errors,
            kids_prefix,
            ndl,
            depth + 1,
            f.tabs.len() as int,
        )
    } else {
        new.tabs == prior(fresh, old.tabs)
    }
    &&& sv(new.picker_appearance) == if d && t == FieldType::Date {
        Some(appearance)
    } else {
        sv(prior(fresh, old.picker_appearance))
    }
    &&& sv(new.date_only_value) == if d && t == FieldType::Date && appearance == "dayOnly"@ {
        Some(byte_prefix(value, 10))
    } else {
        sv(prior(fresh, old.date_only_value))
    }
    &&& sv(new.datetime_local_value) == if d && t == FieldType::Date && appearance
        == "dayAndTime"@ {
        Some(byte_prefix(value, 16))
    } else {
        sv(prior(fresh, old.datetime_local_value))
    }
    &&& if tag_branch {
        new.tags matches Some(ts) && svs(ts) == tags_of(value)
    } else {
        new.tags == prior(fresh, old.tags)
    }
    &&& new.value@ == if tag_branch {
        join_commas(tags_of(value))
    } else {
        base_value
    }
    &&& if d && single && t == FieldType::Richtext && f.admin.features.len() > 0 {
        new.features matches Some(fs) && svs(fs) == svs(f.admin.features)
    } else {
        new.features == prior(fresh, old.features)
    }
    &&& sv(new.richtext_format) == if d && single && t == FieldType::Richtext {
        Some(or_default(f.admin.richtext_format, "html"@))
    } else {
        sv(prior(fresh, old.richtext_format))
    }
    &&& if d && single && t == FieldType::Richtext && f.admin.nodes.len() > 0 {
        new.node_names matches Some(ns) && svs(ns) == svs(f.admin.nodes)
    } else {
        new.node_names == prior(fresh, old.node_names)
    }
    &&& if d && t == FieldType::Blocks {
        new.block_definitions matches Some(bs) && bs.len() == f.blocks.len() && blocks_ok(
            bs@,
            f.blocks@,
            tmpl,
            ndl,
            depth + 1,
            f.blocks.len() as int,
        )
    } else {
        new.block_definitions == prior(fresh, old.block_definitions)
    }
    &&& sv(new.join_collection) == if d && single && t == FieldType::Join && f.join is Some {
        Some(f.join->0.collection@)
    } else {
        sv(prior(fresh, old.join_collection))
    }
    &&& sv(new.join_on) == if d && single && t == FieldType::Join && f.join is Some {
        Some(f.join->0.on@)
    } else {
        sv(prior(fresh, old.join_on))
    }
    &&& new.readonly == if d && single && t == FieldType::Join {
        true
    } else {
        base_readonly
    }
    &&& new.rows_data == prior(fresh, old.rows_data)
}

/// The first `k` contexts are built for the first `k` definitions.
pub open spec fn kids_ok(
    cs: Seq<FieldContext>,
    fs: Seq<FieldDefinition>,
    values: Map<Seq<char>, String>,
    errors: Map<Seq<char>, String>,
    prefix: Seq<char>,
    ndl: bool,
    depth: nat,
    k: int,
) -> bool
    decreases fs, k,
{
    if k <= 0 || k > fs.len() || k > cs.len() {
        k <= 0 || (k <= fs.len() && k <= cs.len())
    } else {
        kids_ok(cs, fs, values, errors, prefix, ndl, depth, k - 1) && single_ok(
            cs[k - 1],
            fs[k - 1],
            values,
            errors,
            prefix,
            ndl,
            depth,
        )
    }
}

/// The first `k` contexts are the sub-fields of a top-level group named `group`, built
/// for the first `k` definitions with `group__sub` column names.
pub open spec fn group_kids_ok(
    cs: Seq<FieldContext>,
    fs: Seq<FieldDefinition>,
    group: Seq<char>,
    group_localized: bool,
    values: Map<Seq<char>, String>,
    errors: Map<Seq<char>, String>,
    ndl: bool,
    depth: nat,
    k: int,
) -> bool
    decreases fs, k,
{
    if k <= 0 || k > fs.len() || k > cs.len() {
        k <= 0 || (k <= fs.len() && k <= cs.len())
    } else {
        group_kids_ok(cs, fs, group, group_localized, values, errors, ndl, depth, k - 1)
            && group_sub_ok(cs[k - 1], fs[k - 1], group, group_localized, values, errors, ndl, depth)
    }
}

/// A sub-field context of a top-level group: named `group__sub`, locked by the group's
/// localization, with the entries of its type as inside groups.
pub open spec fn group_sub_ok(
    c: FieldContext,
    sf: FieldDefinition,
    group: Seq<char>,
    group_localized: bool,
    values: Map<Seq<char>, String>,
    errors: Map<Seq<char>, String>,
    ndl: bool,
    depth: nat,
) -> bool
    decreases sf, 2int,
{
    let col = group + "__"@ + sf.name@;
    let value = lookup(values, col);
    let locked = ndl && !group_localized;
    &&& c.name@ == col
    &&& c.field_type@ == field_type_name(sf.field_type)
    &&& c.label@ == label_of(sf)
    &&& c.required == sf.required
    &&& sv(c.placeholder) == opt_text(sf.admin.placeholder)
    &&& sv(c.description) == opt_text(sf.admin.description)
    &&& c.localized == Some(group_localized)
    &&& c.locale_locked == locked
    &&& c.position is None
    &&& c.error is None
    &&& basic_ok(c, c, sf, depth, false, true)
    &&& branch_ok(
        c,
        c,
        sf,
        value,
        values,
        errors,
        Seq::empty(),
        col,
        ndl,
        depth,
        false,
        true,
        value,
        sf.admin.readonly || locked,
    )
}

/// The first `k` tab contexts are built for the first `k` tab definitions.
pub open spec fn tabs_ok(
    ts: Seq<TabContext>,
    defs: Seq<FieldTab>,
    values: Map<Seq<char>, String>,
    errors: Map<Seq<char>, String>,
    prefix: Seq<char>,
    ndl: bool,
    depth: nat,
    k: int,
) -> bool
    decreases defs, k,
{
    if k <= 0 || k > defs.len() || k > ts.len() {
        k <= 0 || (k <= defs.len() && k <= ts.len())
    } else {
        let t = ts[k - 1];
        let def = defs[k - 1];
        &&& tabs_ok(ts, defs, values, errors, prefix, ndl, depth, k - 1)
        &&& t.label@ == def.label@
        &&& sv(t.description) == sv(def.description)
        &&& t.sub_fields.len() == def.fields.len()
        &&& kids_ok(
            t.sub_fields@,
            def.fields@,
            values,
            errors,
            prefix,
            ndl,
            depth,
            def.fields.len() as int,
        )
        &&& t.error_count == if count_errors(t.sub_fields@) > 0 {
            Some(
                if count_errors(t.sub_fields@) > usize::MAX {
                    usize::MAX
                } else {
                    count_errors(t.sub_fields@) as usize
                },
            )
        } else {
            None
        }
    }
}

/// The first `k` block templates are built for the first `k` block definitions.
pub open spec fn blocks_ok(
    bs: Seq<BlockDefContext>,
    defs: Seq<BlockDefinition>,
    tmpl: Seq<char>,
    ndl: bool,
    depth: nat,
    k: int,
) -> bool
    decreases defs, k,
{
    if k <= 0 || k > defs.len() || k > bs.len() {
        k <= 0 || (k <= defs.len() && k <= bs.len())
    } else {
        let b = bs[k - 1];
        let def = defs[k - 1];
        &&& blocks_ok(bs, defs, tmpl, ndl, depth, k - 1)
        &&& b.block_type@ == def.block_type@
        &&& b.label@ == match def.label {
            Some(l) => default_text(l),
            None => def.block_type@,
        }
        &&& sv(b.label_field) == sv(def.label_field)
        &&& sv(b.group) == sv(def.group)
        &&& sv(b.image_url) == sv(def.image_url)
        &&& b.fields.len() == def.fields.len()
        &&& kids_ok(
            b.fields@,
            def.fields@,
            no_entries(),
            no_entries(),
            tmpl,
            ndl,
            depth,
            def.fields.len() as int,
        )
    }
}

/// The entries of a context that the type entries leave alone.
pub open spec fn head_same(new: FieldContext, old: FieldContext) -> bool {
    &&& new.name == old.name
    &&& new.field_type == old.field_type
    &&& new.label == old.label
    &&& new.required == old.required
    &&& new.placeholder == old.placeholder
    &&& new.description == old.description
    &&& new.localized == old.localized
    &&& new.locale_locked == old.locale_locked
    &&& new.position == old.position
    &&& new.error == old.error
}

/// The settings a form context takes from its field definition whatever the nesting
/// depth: configured length bounds and date bounds are kept; a number field gets its
/// configured step, "any" when none is configured; a textarea its configured row count,
/// 8 when none is configured; a code field its configured language, "json" when none is
/// configured (inside groups only below the depth limit).
pub proof fn lemma_basic_settings(
    new: FieldContext,
    old: FieldContext,
    f: FieldDefinition,
    depth: nat,
    single: bool,
    fresh: bool,
)
    requires
        basic_ok(new, old, f, depth, single, fresh),
    ensures
        f.min_length is Some ==> new.min_length == f.min_length,
        f.max_length is Some ==> new.max_length == f.max_length,
        f.field_type == FieldType::Number && f.admin.step is Some ==> sv(new.step) == sv(f.admin.step),
        f.field_type == FieldType::Number && f.admin.step is None ==> sv(new.step) == Some("any"@),
        f.field_type == FieldType::Textarea && f.admin.rows is Some ==> new.rows == f.admin.rows,
        f.field_type == FieldType::Textarea && f.admin.rows is None ==> new.rows == Some(8u32),
        f.field_type == FieldType::Date && f.min_date is Some ==> sv(new.min_date) == sv(f.min_date),
        f.field_type == FieldType::Date && f.max_date is Some ==> sv(new.max_date) == sv(f.max_date),
        f.field_type == FieldType::Code && (single || depth < MAX_FIELD_DEPTH) && f.admin.language is Some
            ==> sv(new.language) == sv(f.admin.language),
        f.field_type == FieldType::Code && (single || depth < MAX_FIELD_DEPTH) && f.admin.language is None
            ==> sv(new.language) == Some("json"@),
{
}

/// A top-level form context (as `build_field_contexts` and `build_single_field_context`
/// give them) has exactly the field's length bounds, and a textarea's context has the
/// configured row count, 8 when none is configured; a number field's step is the
/// configured one, "any" when none is configured. Other fields have no rows and no step.
pub proof fn lemma_single_context_settings(
    c: FieldContext,
    f: FieldDefinition,
    values: Map<Seq<char>, String>,
    errors: Map<Seq<char>, String>,
    prefix: Seq<char>,
    ndl: bool,
    depth: nat,
)
    requires
        single_ok(c, f, values, errors, prefix, ndl, depth),
    ensures
        c.min_length == f.min_length,
        c.max_length == f.max_length,
        f.field_type == FieldType::Textarea && f.admin.rows is Some ==> c.rows == f.admin.rows,
        f.field_type == FieldType::Textarea && f.admin.rows is None ==> c.rows == Some(8u32),
        f.field_type != FieldType::Textarea ==> c.rows is None,
        f.field_type == FieldType::Number && f.admin.step is Some ==> sv(c.step) == sv(f.admin.step),
        f.field_type == FieldType::Number && f.admin.step is None ==> sv(c.step) == Some("any"@),
        f.field_type != FieldType::Number ==> c.step is None,
{
    lemma_basic_settings(c, c, f, depth, true, true);
}

/// Below the depth limit, the relationship and upload settings of a form context come
/// from the field definition: a relationship (or blocks) field's configured picker is
/// kept; an upload field's picker is the configured one, "drawer" when none is configured
/// (unless it is "none"); relationship and upload fields name their related collection;
/// a relationship field says whether it holds many; a polymorphic one lists its
/// collections.
pub proof fn lemma_relation_settings(
    new: FieldContext,
    old: FieldContext,
    f: FieldDefinition,
    value: Seq<char>,
    values: Map<Seq<char>, String>,
    errors: Map<Seq<char>, String>,
    prefix: Seq<char>,
    base: Seq<char>,
    ndl: bool,
    depth: nat,
    single: bool,
    fresh: bool,
    base_value: Seq<char>,
    base_readonly: bool,
)
    requires
        branch_ok(new, old, f, value, values, errors, prefix, base, ndl, depth, single, fresh, base_value, base_readonly),
        depth < MAX_FIELD_DEPTH,
    ensures
        (f.field_type == FieldType::Relationship || f.field_type == FieldType::Blocks) && f.admin.picker is Some
            ==> sv(new.picker) == sv(f.admin.picker),
        f.field_type == FieldType::Upload && f.admin.picker is None ==> sv(new.picker) == Some("drawer"@),
        f.field_type == FieldType::Upload && f.admin.picker is Some && f.admin.picker->0@ != "none"@
            ==> sv(new.picker) == sv(f.admin.picker),
        (f.field_type == FieldType::Relationship || f.field_type == FieldType::Upload) && f.relationship is Some
            ==> sv(new.relationship_collection) == Some(f.relationship->0.collection@),
        f.field_type == FieldType::Relationship && f.relationship is Some ==> new.has_many == Some(
            f.relationship->0.has_many,
        ),
        f.field_type == FieldType::Relationship && f.relationship is Some && f.relationship->0.polymorphic.len() > 0
            ==> new.polymorphic == Some(true) && new.collections is Some && svs(new.collections->0) == svs(
            f.relationship->0.polymorphic,
        ),
{
    reveal_strlit("drawer");
    reveal_strlit("none");
    assert("drawer"@.len() == 6 && "none"@.len() == 4);
    assert("drawer"@ != "none"@);
}

/// The head of a form context: a top-level field is named by its own name, a nested
/// one `prefix[name]` (a layout wrapper takes the prefix); it carries the field's type
/// name, its required flag and its localized flag; it is locked on a non-default locale
/// exactly when the field is not localized; a plain label and placeholder are shown as
/// written, and an unlabelled field by its name in title case; the error is the one
/// recorded under the context's name, if any.
pub proof fn lemma_single_context_head(
    c: FieldContext,
    f: FieldDefinition,
    values: Map<Seq<char>, String>,
    errors: Map<Seq<char>, String>,
    prefix: Seq<char>,
    ndl: bool,
    depth: nat,
)
    requires
        single_ok(c, f, values, errors, prefix, ndl, depth),
    ensures
        prefix.len() == 0 ==> c.name@ == f.name@,
        prefix.len() > 0 && !(f.field_type == FieldType::Tabs || f.field_type == FieldType::Row
            || f.field_type == FieldType::Collapsible) ==> c.name@ == prefix + "["@ + f.name@ + "]"@,
        c.field_type@ == field_type_name(f.field_type),
        c.required == f.required,
        c.localized == Some(f.localized),
        c.locale_locked == (ndl && !f.localized),
        f.admin.label matches Some(LocalizedString::Plain(l)) ==> c.label@ == l@,
        f.admin.label is None ==> c.label@ == title_case(f.name@),
        f.admin.placeholder matches Some(LocalizedString::Plain(p)) ==> (c.placeholder matches Some(cp) && cp@
            == p@),
        f.admin.placeholder is None ==> c.placeholder is None,
        errors.contains_key(c.name@) ==> (c.error matches Some(e) && e@ == errors[c.name@]@),
        !errors.contains_key(c.name@) ==> c.error is None,
{
}

} // verus!
