//! Field contexts built from the stored data of a document: the rows of array and
//! blocks fields, nested groups, and layout wrappers inside rows.

use vstd::prelude::*;
use vstd::string::*;
use crate::context::{
    basic_ok, blocks_ok, branch_ok, count_errors, head_same, is_checked, join_commas, kids_ok, label_of,
    no_entries, opt_text, options_ok, or_default, byte_prefix, sv, svs, tags_of,
    BlockDefContext, FieldContext, OptionContext, RowContext, TabContext, MAX_FIELD_DEPTH,
};
use crate::field::{
    default_text, field_type_name, is_layout_wrapper, BlockDefinition, FieldDefinition, FieldTab,
    FieldType,
};
use crate::field_builder::{
    apply_field_type_extras, bare, shown_fields, bracket_name, build_block_defs, build_kids, build_options,
    capped, checkbox_checked, clone_opt, clone_strings, count_errors_in_fields, field_label,
    first_bytes, head_context, join_with_commas, parse_tags, resolve_opt, text_or,
};
use crate::scaffold::{decimal, u64_to_decimal};
use crate::strmap::{lookup_opt, StrMap};
use crate::text::{concat_str, safe_template_id, str_eq, template_id_of};

verus! {

// ---------------------------------------------------------------------------
// Stored document values
// ---------------------------------------------------------------------------

/// A JSON value of a stored document, holding what the form logic reads of it.
#[derive(Debug)]
pub enum DocValue {
    Null,
    Bool(bool),
    /// A number, by its JSON text.
    Number(String),
    Str(String),
    /// An array: its items and its compact JSON text.
    Array(Vec<DocValue>, String),
    /// An object: its members in order and its compact JSON text.
    Object(Vec<(String, DocValue)>, String),
}

/// The first member of an object stored under `k`.
pub open spec fn member(ms: Seq<(String, DocValue)>, k: Seq<char>) -> Option<DocValue>
    decreases ms.len(),
{
    if ms.len() == 0 {
        None
    } else if ms[0].0@ == k {
        Some(ms[0].1)
    } else {
        member(ms.skip(1), k)
    }
}

/// The member `k` of a value when it is an object.
pub open spec fn field_of(v: Option<DocValue>, k: Seq<char>) -> Option<DocValue> {
    match v {
        Some(DocValue::Object(ms, _)) => member(ms@, k),
        _ => None,
    }
}

/// The items of a value when it is an array (none otherwise).
pub open spec fn items_of(v: Option<DocValue>) -> Seq<DocValue> {
    match v {
        Some(DocValue::Array(items, _)) => items@,
        _ => Seq::empty(),
    }
}

/// The form value of a stored value: a string as it is, nothing for null or absent,
/// and the JSON text of anything else unless `blank_other`.
pub open spec fn text_of(v: Option<DocValue>, blank_other: bool) -> Seq<char> {
    match v {
        Some(DocValue::Str(s)) => s@,
        Some(DocValue::Bool(b)) => if blank_other {
            Seq::empty()
        } else if b {
            "true"@
        } else {
            "false"@
        },
        Some(DocValue::Number(t)) => if blank_other {
            Seq::empty()
        } else {
            t@
        },
        Some(DocValue::Array(_, t)) => if blank_other {
            Seq::empty()
        } else {
            t@
        },
        Some(DocValue::Object(_, t)) => if blank_other {
            Seq::empty()
        } else {
            t@
        },
        _ => Seq::empty(),
    }
}

/// Field types whose stored value is structured (their form value is left blank).
pub open spec fn is_composite(t: FieldType) -> bool {
    t == FieldType::Array || t == FieldType::Blocks || t == FieldType::Group || t
        == FieldType::Row || t == FieldType::Collapsible || t == FieldType::Tabs
}

/// The stored value that a sub-field of a row reads: a layout wrapper reads the whole
/// row (its data is stored flat), any other field its own member.
pub open spec fn row_raw(sf: FieldDefinition, row: DocValue) -> Option<DocValue> {
    if is_layout_wrapper(sf.field_type) {
        Some(row)
    } else {
        field_of(Some(row), sf.name@)
    }
}

/// The form name of a sub-field of row `idx` of `parent`.
pub open spec fn indexed_name(parent: Seq<char>, idx: nat, sf: FieldDefinition) -> Seq<char> {
    if is_layout_wrapper(sf.field_type) {
        parent + "["@ + decimal(idx) + "]"@
    } else {
        parent + "["@ + decimal(idx) + "]["@ + sf.name@ + "]"@
    }
}

/// The block type a stored blocks row names ("unknown" when it names none).
pub open spec fn block_type_of(row: DocValue) -> Seq<char> {
    match field_of(Some(row), "_block_type"@) {
        Some(DocValue::Str(s)) => s@,
        _ => "unknown"@,
    }
}

/// The index of the first block definition of type `bt`.
pub open spec fn first_block(blocks: Seq<BlockDefinition>, bt: Seq<char>) -> Option<int>
    decreases blocks.len(),
{
    if blocks.len() == 0 {
        None
    } else if blocks[0].block_type@ == bt {
        Some(0)
    } else {
        match first_block(blocks.skip(1), bt) {
            Some(i) => Some(i + 1),
            None => None,
        }
    }
}

/// Whether any context of a list carries an error.
pub open spec fn any_error(cs: Seq<FieldContext>) -> bool {
    exists|j: int| 0 <= j < cs.len() && (#[trigger] cs[j]).error is Some
}

/// A context with no entries besides its head, sub-fields, collapsed state and tabs.
pub open spec fn bare_but_wrapper(c: FieldContext) -> bool {
    bare(FieldContext { sub_fields: None, collapsed: None, tabs: None, ..c })
}

// ---------------------------------------------------------------------------
// Children of layout wrappers inside rows
// ---------------------------------------------------------------------------

/// A context built by `build_enriched_children_from_data` for `child`, reading the
/// stored data `data` of the enclosing row.
pub open spec fn child_ok(
    c: FieldContext,
    child: FieldDefinition,
    data: Option<DocValue>,
    parent: Seq<char>,
    locked: bool,
    ndl: bool,
    depth: nat,
    errors: Map<Seq<char>, String>,
) -> bool
    decreases child, 0int, 0int,
{
    let t = child.field_type;
    let wrapper = is_layout_wrapper(t);
    let raw = if wrapper {
        data
    } else {
        field_of(data, child.name@)
    };
    let name = if wrapper {
        parent
    } else {
        parent + "["@ + child.name@ + "]"@
    };
    let val = text_of(raw, wrapper);
    &&& c.name@ == name
    &&& c.field_type@ == field_type_name(t)
    &&& c.label@ == label_of(child)
    &&& c.required == child.required
    &&& sv(c.placeholder) == opt_text(child.admin.placeholder)
    &&& sv(c.description) == opt_text(child.admin.description)
    &&& c.localized is None
    &&& c.locale_locked == locked
    &&& c.position is None
    &&& sv(c.error) == lookup_opt(errors, name)
    &&& if t == FieldType::Row || t == FieldType::Collapsible {
        &&& c.value@ == val
        &&& c.readonly == (child.admin.readonly || locked)
        &&& bare_but_wrapper(c)
        &&& c.tabs is None
        &&& c.collapsed == if t == FieldType::Collapsible {
            Some(child.admin.collapsed)
        } else {
            None
        }
        &&& c.sub_fields matches Some(subs) && children_of_ok(
            subs@,
            child.fields@,
            raw,
            name,
            locked,
            ndl,
            depth + 1,
            errors,
        )
    } else if t == FieldType::Tabs {
        &&& c.value@ == val
        &&& c.readonly == (child.admin.readonly || locked)
        &&& bare_but_wrapper(c)
        &&& c.sub_fields is None
        &&& c.collapsed is None
        &&& c.tabs matches Some(ts) && ts.len() == child.tabs.len() && child_tabs_ok(
            ts@,
            child.tabs@,
            raw,
            name,
            locked,
            ndl,
            depth + 1,
            errors,
            child.tabs.len() as int,
        )
    } else {
        &&& basic_ok(c, c, child, depth + 1, false, true)
        &&& branch_ok(
            c,
            c,
            child,
            val,
            no_entries(),
            errors,
            Seq::empty(),
            name,
            ndl,
            depth + 1,
            false,
            true,
            val,
            child.admin.readonly || locked,
        )
    }
}

/// The contexts built for the children `fields` of a layout wrapper: none at the depth
/// limit, else one per child.
pub open spec fn children_of_ok(
    cs: Seq<FieldContext>,
    fields: Seq<FieldDefinition>,
    data: Option<DocValue>,
    parent: Seq<char>,
    locked: bool,
    ndl: bool,
    depth: nat,
    errors: Map<Seq<char>, String>,
) -> bool
    decreases fields, 1int, 0int,
{
    if depth >= MAX_FIELD_DEPTH {
        cs.len() == 0
    } else {
        cs.len() == fields.len() && children_ok(
            cs,
            fields,
            data,
            parent,
            locked,
            ndl,
            depth,
            errors,
            fields.len() as int,
        )
    }
}

/// The first `k` children contexts.
pub open spec fn children_ok(
    cs: Seq<FieldContext>,
    fields: Seq<FieldDefinition>,
    data: Option<DocValue>,
    parent: Seq<char>,
    locked: bool,
    ndl: bool,
    depth: nat,
    errors: Map<Seq<char>, String>,
    k: int,
) -> bool
    decreases fields, 0int, k,
{
    if k <= 0 || k > fields.len() || k > cs.len() {
        k <= 0 || (k <= fields.len() && k <= cs.len())
    } else {
        children_ok(cs, fields, data, parent, locked, ndl, depth, errors, k - 1) && child_ok(
            cs[k - 1],
            fields[k - 1],
            data,
            parent,
            locked,
            ndl,
            depth,
            errors,
        )
    }
}

/// The first `k` tab panels of a tabs child.
pub open spec fn child_tabs_ok(
    ts: Seq<TabContext>,
    tabs: Seq<FieldTab>,
    data: Option<DocValue>,
    parent: Seq<char>,
    locked: bool,
    ndl: bool,
    depth: nat,
    errors: Map<Seq<char>, String>,
    k: int,
) -> bool
    decreases tabs, 0int, k,
{
    if k <= 0 || k > tabs.len() || k > ts.len() {
        k <= 0 || (k <= tabs.len() && k <= ts.len())
    } else {
        let t = ts[k - 1];
        let def = tabs[k - 1];
        &&& child_tabs_ok(ts, tabs, data, parent, locked, ndl, depth, errors, k - 1)
        &&& t.label@ == def.label@
        &&& sv(t.description) == sv(def.description)
        &&& children_of_ok(t.sub_fields@, def.fields@, data, parent, locked, ndl, depth, errors)
        &&& t.error_count == if count_errors(t.sub_fields@) > 0 {
            Some(capped(count_errors(t.sub_fields@)))
        } else {
            None
        }
    }
}

// ---------------------------------------------------------------------------
// Sub-fields of stored rows
// ---------------------------------------------------------------------------

/// The object a nested group reads its members from (none when the value is no object).
pub open spec fn group_object(raw: Option<DocValue>) -> Option<DocValue> {
    match raw {
        Some(DocValue::Object(_, _)) => raw,
        _ => None,
    }
}

/// A context built by `build_enriched_sub_field_context` for `sf` in row `idx` of
/// `parent`, reading the stored value `raw`.
pub open spec fn enriched_ok(
    c: FieldContext,
    sf: FieldDefinition,
    raw: Option<DocValue>,
    parent: Seq<char>,
    idx: nat,
    locked: bool,
    ndl: bool,
    depth: nat,
    errors: Map<Seq<char>, String>,
) -> bool
    decreases sf, 2int, 0int,
{
    let name = indexed_name(parent, idx, sf);
    let val = text_of(raw, is_composite(sf.field_type));
    &&& c.name@ == name
    &&& c.field_type@ == field_type_name(sf.field_type)
    &&& c.label@ == label_of(sf)
    &&& c.required == sf.required
    &&& sv(c.placeholder) == opt_text(sf.admin.placeholder)
    &&& sv(c.description) == opt_text(sf.admin.description)
    &&& c.localized is None
    &&& c.locale_locked == locked
    &&& c.position is None
    &&& sv(c.error) == lookup_opt(errors, name)
    &&& enriched_branch_ok(c, sf, raw, name, val, locked, ndl, depth, errors)
}

/// The entries of an enriched context below its head.
pub open spec fn enriched_branch_ok(
    c: FieldContext,
    sf: FieldDefinition,
    raw: Option<DocValue>,
    name: Seq<char>,
    val: Seq<char>,
    locked: bool,
    ndl: bool,
    depth: nat,
    errors: Map<Seq<char>, String>,
) -> bool
    decreases sf, 1int, 0int,
{
    let t = sf.field_type;
    let d = depth < MAX_FIELD_DEPTH;
    let tmpl = name + "[__INDEX__]"@;
    let appearance = or_default(sf.picker_appearance, "dayOnly"@);
    let tag_branch = d && (t == FieldType::Text || t == FieldType::Number) && sf.has_many;
    let rows = d && (t == FieldType::Array || t == FieldType::Blocks);
    &&& c.min_length is None
    &&& c.max_length is None
    &&& c.step is None
    &&& c.rows is None
    &&& c.min_date is None
    &&& c.max_date is None
    &&& c.language is None
    &&& c.checked == if d && t == FieldType::Checkbox {
        Some(is_checked(val))
    } else {
        None
    }
    &&& if d && (t == FieldType::Select || t == FieldType::Radio) {
        c.options matches Some(os) && options_ok(os@, sf.options@, val, sf.has_many)
    } else {
        c.options is None
    }
    &&& c.has_many == if d && (t == FieldType::Select || t == FieldType::Radio) && sf.has_many {
        Some(true)
    } else if d && t == FieldType::Relationship && sf.relationship is Some {
        Some(sf.relationship->0.has_many)
    } else if d && t == FieldType::Upload && sf.relationship is Some
        && sf.relationship->0.has_many {
        Some(true)
    } else if tag_branch {
        Some(true)
    } else {
        None
    }
    &&& sv(c.relationship_collection) == if d && (t == FieldType::Relationship || t
        == FieldType::Upload) && sf.relationship is Some {
        Some(sf.relationship->0.collection@)
    } else {
        None
    }
    &&& c.polymorphic == if d && t == FieldType::Relationship && sf.relationship is Some
        && sf.relationship->0.polymorphic.len() > 0 {
        Some(true)
    } else {
        None
    }
    &&& if d && t == FieldType::Relationship && sf.relationship is Some
        && sf.relationship->0.polymorphic.len() > 0 {
        c.collections matches Some(cs) && svs(cs) == svs(sf.relationship->0.polymorphic)
    } else {
        c.collections is None
    }
    &&& sv(c.picker) == if d && t == FieldType::Relationship && sf.admin.picker is Some {
        sv(sf.admin.picker)
    } else if d && t == FieldType::Upload && or_default(sf.admin.picker, "drawer"@) != "none"@ {
        Some(or_default(sf.admin.picker, "drawer"@))
    } else {
        None
    }
    &&& if d && t == FieldType::Array {
        c.sub_fields matches Some(subs) && subs.len() == sf.fields.len() && kids_ok(
            subs@,
            sf.fields@,
            no_entries(),
            no_entries(),
            tmpl,
            ndl,
            depth + 1,
            sf.fields.len() as int,
        )
    } else if d && t == FieldType::Group {
        c.sub_fields matches Some(subs) && subs.len() == sf.fields.len() && nested_ok(
            subs@,
            sf.fields@,
            group_object(raw),
            name,
            locked,
            ndl,
            depth + 1,
            sf.fields.len() as int,
        )
    } else if d && (t == FieldType::Row || t == FieldType::Collapsible) {
        c.sub_fields matches Some(subs) && children_of_ok(
            subs@,
            sf.fields@,
            raw,
            name,
            locked,
            ndl,
            depth + 1,
            errors,
        )
    } else {
        c.sub_fields is None
    }
    &&& if d && t == FieldType::Array {
        c.rows_data matches Some(rs) && rs.len() == items_of(raw).len() && array_rows_ok(
            rs@,
            sf.fields@,
            items_of(raw),
            name,
            locked,
            ndl,
            depth + 1,
            errors,
            rs.len() as int,
        )
    } else if d && t == FieldType::Blocks {
        c.rows_data matches Some(rs) && rs.len() == items_of(raw).len() && block_rows_ok(
            rs@,
            sf.blocks@,
            items_of(raw),
            name,
            locked,
            ndl,
            depth + 1,
            errors,
            rs.len() as int,
        )
    } else {
        c.rows_data is None
    }
    &&& c.row_count == if rows {
        Some(capped(items_of(raw).len()))
    } else {
        None
    }
    &&& sv(c.template_id) == if rows {
        Some(template_id_of(name))
    } else {
        None
    }
    &&& sv(c.label_field) == if d && t == FieldType::Blocks && sf.admin.label_field is Some {
        sv(sf.admin.label_field)
    } else {
        None
    }
    &&& c.max_rows == if rows && sf.max_rows is Some {
        sf.max_rows
    } else {
        None
    }
    &&& c.min_rows == if rows && sf.min_rows is Some {
        sf.min_rows
    } else {
        None
    }
    &&& c.init_collapsed == if rows {
        Some(sf.admin.collapsed)
    } else {
        None
    }
    &&& sv(c.add_label) == if rows && sf.admin.labels_singular is Some {
        opt_text(sf.admin.labels_singular)
    } else {
        None
    }
    &&& c.collapsed == if d && (t == FieldType::Group || t == FieldType::Collapsible) {
        Some(sf.admin.collapsed)
    } else {
        None
    }
    &&& if d && t == FieldType::Tabs {
        c.tabs matches Some(ts) && ts.len() == sf.tabs.len() && child_tabs_ok(
            ts@,
            sf.tabs@,
            raw,
            name,
            locked,
            ndl,
            depth + 1,
            errors,
            sf.tabs.len() as int,
        )
    } else {
        c.tabs is None
    }
    &&& sv(c.picker_appearance) == if d && t == FieldType::Date {
        Some(appearance)
    } else {
        None
    }
    &&& sv(c.date_only_value) == if d && t == FieldType::Date && appearance == "dayOnly"@ {
        Some(byte_prefix(val, 10))
    } else {
        None
    }
    &&& sv(c.datetime_local_value) == if d && t == FieldType::Date && appearance
        == "dayAndTime"@ {
        Some(byte_prefix(val, 16))
    } else {
        None
    }
    &&& if tag_branch {
        c.tags matches Some(ts) && svs(ts) == tags_of(val)
    } else {
        c.tags is None
    }
    &&& c.value@ == if tag_branch {
        join_commas(tags_of(val))
    } else {
        val
    }
    &&& c.readonly == (sf.admin.readonly || locked)
    &&& c.features is None
    &&& c.richtext_format is None
    &&& c.node_names is None
    &&& if d && t == FieldType::Blocks {
        c.block_definitions matches Some(bs) && bs.len() == sf.blocks.len() && blocks_ok(
            bs@,
            sf.blocks@,
            tmpl,
            ndl,
            depth + 1,
            sf.blocks.len() as int,
        )
    } else {
        c.block_definitions is None
    }
    &&& c.join_collection is None
    &&& c.join_on is None
}

/// The first `k` rows of an array field, built from its stored items.
pub open spec fn array_rows_ok(
    rs: Seq<RowContext>,
    fields: Seq<FieldDefinition>,
    items: Seq<DocValue>,
    parent: Seq<char>,
    locked: bool,
    ndl: bool,
    depth: nat,
    errors: Map<Seq<char>, String>,
    k: int,
) -> bool
    decreases fields, 1int, k,
{
    if k <= 0 || k > rs.len() || k > items.len() {
        k <= 0 || (k <= rs.len() && k <= items.len())
    } else {
        let r = rs[k - 1];
        &&& array_rows_ok(rs, fields, items, parent, locked, ndl, depth, errors, k - 1)
        &&& r.index == k - 1
        &&& r.block_type is None
        &&& r.block_label is None
        &&& r.sub_fields.len() == fields.len()
        &&& row_subs_ok(
            r.sub_fields@,
            fields,
            items[k - 1],
            parent,
            (k - 1) as nat,
            locked,
            ndl,
            depth,
            errors,
            fields.len() as int,
        )
        &&& r.has_errors == any_error(r.sub_fields@)
    }
}

/// The first `k` rows of a blocks field, built from its stored items; each row takes
/// the sub-fields of the first block definition of its type (none if there is none).
pub open spec fn block_rows_ok(
    rs: Seq<RowContext>,
    blocks: Seq<BlockDefinition>,
    items: Seq<DocValue>,
    parent: Seq<char>,
    locked: bool,
    ndl: bool,
    depth: nat,
    errors: Map<Seq<char>, String>,
    k: int,
) -> bool
    decreases blocks, 1int, k,
{
    if k <= 0 || k > rs.len() || k > items.len() {
        k <= 0 || (k <= rs.len() && k <= items.len())
    } else {
        let r = rs[k - 1];
        let row = items[k - 1];
        let bt = block_type_of(row);
        &&& block_rows_ok(rs, blocks, items, parent, locked, ndl, depth, errors, k - 1)
        &&& r.index == k - 1
        &&& sv(r.block_type) == Some(bt)
        &&& r.has_errors == any_error(r.sub_fields@)
        &&& match first_block(blocks, bt) {
            Some(i) => 0 <= i < blocks.len() && {
                let bd = blocks[i];
                &&& sv(r.block_label) == Some(
                    match bd.label {
                        Some(l) => default_text(l),
                        None => bt,
                    },
                )
                &&& r.sub_fields.len() == bd.fields.len()
                &&& row_subs_ok(
                    r.sub_fields@,
                    bd.fields@,
                    row,
                    parent,
                    (k - 1) as nat,
                    locked,
                    ndl,
                    depth,
                    errors,
                    bd.fields.len() as int,
                )
            },
            None => sv(r.block_label) == Some(bt) && r.sub_fields.len() == 0,
        }
    }
}

/// The first `k` sub-field contexts of one stored row.
pub open spec fn row_subs_ok(
    cs: Seq<FieldContext>,
    fields: Seq<FieldDefinition>,
    row: DocValue,
    parent: Seq<char>,
    idx: nat,
    locked: bool,
    ndl: bool,
    depth: nat,
    errors: Map<Seq<char>, String>,
    k: int,
) -> bool
    decreases fields, 0int, k,
{
    if k <= 0 || k > fields.len() || k > cs.len() {
        k <= 0 || (k <= fields.len() && k <= cs.len())
    } else {
        row_subs_ok(cs, fields, row, parent, idx, locked, ndl, depth, errors, k - 1) && enriched_ok(
            cs[k - 1],
            fields[k - 1],
            row_raw(fields[k - 1], row),
            parent,
            idx,
            locked,
            ndl,
            depth,
            errors,
        )
    }
}

/// The first `k` sub-field contexts of a group nested in a row, each reading its member
/// of the group's stored object.
pub open spec fn nested_ok(
    cs: Seq<FieldContext>,
    fields: Seq<FieldDefinition>,
    gobj: Option<DocValue>,
    name: Seq<char>,
    locked: bool,
    ndl: bool,
    depth: nat,
    k: int,
) -> bool
    decreases k,
{
    if k <= 0 || k > fields.len() || k > cs.len() {
        k <= 0 || (k <= fields.len() && k <= cs.len())
    } else {
        nested_ok(cs, fields, gobj, name, locked, ndl, depth, k - 1) && nested_sub_ok(
            cs[k - 1],
            fields[k - 1],
            gobj,
            name,
            locked,
            ndl,
            depth,
        )
    }
}

/// One sub-field context of a group nested in a row.
pub open spec fn nested_sub_ok(
    c: FieldContext,
    nsf: FieldDefinition,
    gobj: Option<DocValue>,
    name: Seq<char>,
    locked: bool,
    ndl: bool,
    depth: nat,
) -> bool {
    let nname = name + "["@ + nsf.name@ + "]"@;
    let nval = text_of(field_of(gobj, nsf.name@), false);
    &&& c.name@ == nname
    &&& c.field_type@ == field_type_name(nsf.field_type)
    &&& c.label@ == label_of(nsf)
    &&& c.required == nsf.required
    &&& sv(c.placeholder) == opt_text(nsf.admin.placeholder)
    &&& sv(c.description) == opt_text(nsf.admin.description)
    &&& c.localized is None
    &&& c.locale_locked == locked
    &&& c.position is None
    &&& c.error is None
    &&& basic_ok(c, c, nsf, depth, false, true)
    &&& branch_ok(
        c,
        c,
        nsf,
        nval,
        no_entries(),
        no_entries(),
        Seq::empty(),
        nname,
        ndl,
        depth,
        false,
        true,
        nval,
        nsf.admin.readonly || locked,
    )
}

// ---------------------------------------------------------------------------
// Reading stored values
// ---------------------------------------------------------------------------

/// The value behind an optional reference.
pub open spec fn data_of(o: Option<&DocValue>) -> Option<DocValue> {
    match o {
        Some(v) => Some(*v),
        None => None,
    }
}

/// The member `key` of a stored value when it is an object.
#[verifier::loop_isolation(false)]
pub fn get_member<'a>(v: Option<&'a DocValue>, key: &str) -> (r: Option<&'a DocValue>)
    ensures
        data_of(r) == field_of(data_of(v), key@),
{
    match v {
        Some(DocValue::Object(ms, _)) => {
            let mut i: usize = 0;
            assert(ms@.skip(0) =~= ms@);
            while i < ms.len()
                invariant
                    i <= ms.len(),
                    member(ms@, key@) == member(ms@.skip(i as int), key@),
                decreases ms.len() - i,
            {
                assert(ms@.skip(i as int).skip(1) =~= ms@.skip(i + 1));
                assert(ms@.skip(i as int)[0] == ms@[i as int]);
                if str_eq(ms[i].0.as_str(), key) {
                    return Some(&ms[i].1);
                }
                i = i + 1;
            }
            None
        },
        _ => None,
    }
}

/// The form value of a stored value (see `text_of`).
pub fn doc_text(v: Option<&DocValue>, blank_other: bool) -> (r: String)
    ensures
        r@ == text_of(data_of(v), blank_other),
{
    match v {
        Some(DocValue::Str(s)) => s.clone(),
        Some(DocValue::Bool(b)) => {
            if blank_other {
                String::new()
            } else if *b {
                String::from_str("true")
            } else {
                String::from_str("false")
            }
        },
        Some(DocValue::Number(t)) | Some(DocValue::Array(_, t)) | Some(DocValue::Object(_, t)) => {
            if blank_other {
                String::new()
            } else {
                t.clone()
            }
        },
        _ => String::new(),
    }
}

/// Whether a field type stores structured values.
fn composite_type(t: FieldType) -> (r: bool)
    ensures
        r == is_composite(t),
{
    match t {
        FieldType::Array | FieldType::Blocks | FieldType::Group | FieldType::Row
        | FieldType::Collapsible | FieldType::Tabs => true,
        _ => false,
    }
}

// ---------------------------------------------------------------------------
// Building the children of layout wrappers
// ---------------------------------------------------------------------------

proof fn lemma_children_ext(
    a: Seq<FieldContext>,
    b: Seq<FieldContext>,
    fields: Seq<FieldDefinition>,
    data: Option<DocValue>,
    parent: Seq<char>,
    locked: bool,
    ndl: bool,
    depth: nat,
    errors: Map<Seq<char>, String>,
    k: int,
)
    requires
        children_ok(a, fields, data, parent, locked, ndl, depth, errors, k),
        0 <= k <= b.len(),
        forall|i: int| 0 <= i < k ==> a[i] == b[i],
    ensures
        children_ok(b, fields, data, parent, locked, ndl, depth, errors, k),
    decreases k,
{
    if k > 0 {
        lemma_children_ext(a, b, fields, data, parent, locked, ndl, depth, errors, k - 1);
    }
}

proof fn lemma_child_tabs_ext(
    a: Seq<TabContext>,
    b: Seq<TabContext>,
    tabs: Seq<FieldTab>,
    data: Option<DocValue>,
    parent: Seq<char>,
    locked: bool,
    ndl: bool,
    depth: nat,
    errors: Map<Seq<char>, String>,
    k: int,
)
    requires
        child_tabs_ok(a, tabs, data, parent, locked, ndl, depth, errors, k),
        0 <= k <= b.len(),
        forall|i: int| 0 <= i < k ==> a[i] == b[i],
    ensures
        child_tabs_ok(b, tabs, data, parent, locked, ndl, depth, errors, k),
    decreases k,
{
    if k > 0 {
        lemma_child_tabs_ext(a, b, tabs, data, parent, locked, ndl, depth, errors, k - 1);
    }
}

/// Build the contexts of the fields inside a layout wrapper (tabs, row, collapsible)
/// that sits in a stored row, reading the row's data `data`.
///
/// Layout wrappers keep the parent's name and read the whole data object; other fields
/// are named `parent_name[field]` and read their own member. Nothing is built from
/// `MAX_FIELD_DEPTH` on.
pub fn build_enriched_children_from_data(
    fields: &Vec<FieldDefinition>,
    data: Option<&DocValue>,
    parent_name: &str,
    locale_locked: bool,
    non_default_locale: bool,
    depth: usize,
    errors: &StrMap,
) -> (r: Vec<FieldContext>)
    ensures
        children_of_ok(
            r@,
            fields@,
            data_of(data),
            parent_name@,
            locale_locked,
            non_default_locale,
            depth as nat,
            errors@,
        ),
    decreases fields, 1int, 0int,
{
    if depth >= MAX_FIELD_DEPTH {
        return Vec::new();
    }
    let mut cs: Vec<FieldContext> = Vec::new();
    let mut i: usize = 0;
    while i < fields.len()
        invariant
            depth < MAX_FIELD_DEPTH,
            i <= fields.len(),
            cs.len() == i,
            children_ok(
                cs@,
                fields@,
                data_of(data),
                parent_name@,
                locale_locked,
                non_default_locale,
                depth as nat,
                errors@,
                i as int,
            ),
        decreases fields.len() - i,
    {
        let c = build_child(&fields[i], data, parent_name, locale_locked, non_default_locale, depth, errors);
        let ghost before = cs@;
        cs.push(c);
        proof {
            lemma_children_ext(
                before,
                cs@,
                fields@,
                data_of(data),
                parent_name@,
                locale_locked,
                non_default_locale,
                depth as nat,
                errors@,
                i as int,
            );
        }
        i = i + 1;
    }
    cs
}

/// The tab panels of a tabs field inside a stored row.
fn build_child_tabs(
    tabs: &Vec<FieldTab>,
    data: Option<&DocValue>,
    parent_name: &str,
    locale_locked: bool,
    non_default_locale: bool,
    depth: usize,
    errors: &StrMap,
) -> (ts: Vec<TabContext>)
    ensures
        ts.len() == tabs.len(),
        child_tabs_ok(
            ts@,
            tabs@,
            data_of(data),
            parent_name@,
            locale_locked,
            non_default_locale,
            depth as nat,
            errors@,
            tabs.len() as int,
        ),
    decreases tabs, 0int, 0int,
{
    let mut ts: Vec<TabContext> = Vec::new();
    let mut i: usize = 0;
    while i < tabs.len()
        invariant
            i <= tabs.len(),
            ts.len() == i,
            child_tabs_ok(
                ts@,
                tabs@,
                data_of(data),
                parent_name@,
                locale_locked,
                non_default_locale,
                depth as nat,
                errors@,
                i as int,
            ),
        decreases tabs.len() - i,
    {
        let tab = &tabs[i];
        let subs = build_enriched_children_from_data(
            &tab.fields,
            data,
            parent_name,
            locale_locked,
            non_default_locale,
            depth,
            errors,
        );
        let n = count_errors_in_fields(&subs);
        let t = TabContext {
            label: tab.label.clone(),
            sub_fields: subs,
            error_count: if n > 0 {
                Some(n)
            } else {
                None
            },
            description: clone_opt(&tab.description),
        };
        let ghost before = ts@;
        ts.push(t);
        proof {
            lemma_child_tabs_ext(
                before,
                ts@,
                tabs@,
                data_of(data),
                parent_name@,
                locale_locked,
                non_default_locale,
                depth as nat,
                errors@,
                i as int,
            );
        }
        i = i + 1;
    }
    ts
}

/// The context of one field inside a layout wrapper of a stored row.
fn build_child(
    child: &FieldDefinition,
    data: Option<&DocValue>,
    parent_name: &str,
    locked: bool,
    ndl: bool,
    depth: usize,
    errors: &StrMap,
) -> (c: FieldContext)
    requires
        depth < MAX_FIELD_DEPTH,
    ensures
        child_ok(c, *child, data_of(data), parent_name@, locked, ndl, depth as nat, errors@),
    decreases child, 0int, 0int,
{
    let t = child.field_type;
    let wrapper = t.is_layout_wrapper();
    let raw: Option<&DocValue> = if wrapper {
        data
    } else {
        get_member(data, child.name.as_str())
    };
    let name: String = if wrapper {
        String::from_str(parent_name)
    } else {
        bracket_name(parent_name, child.name.as_str())
    };
    let val = doc_text(raw, wrapper);
    let mut c = head_context(
        name.clone(),
        t,
        field_label(child),
        child.required,
        val.clone(),
        resolve_opt(&child.admin.placeholder),
        resolve_opt(&child.admin.description),
        child.admin.readonly || locked,
        None,
        locked,
    );
    c.error = match errors.get(name.as_str()) {
        Some(e) => Some(e.clone()),
        None => None,
    };
    if t == FieldType::Row || t == FieldType::Collapsible {
        let subs = build_enriched_children_from_data(
            &child.fields,
            raw,
            name.as_str(),
            locked,
            ndl,
            depth + 1,
            errors,
        );
        c.sub_fields = Some(subs);
        if t == FieldType::Collapsible {
            c.collapsed = Some(child.admin.collapsed);
        }
    } else if t == FieldType::Tabs {
        let ts = build_child_tabs(&child.tabs, raw, name.as_str(), locked, ndl, depth + 1, errors);
        c.tabs = Some(ts);
    } else {
        let no_values = StrMap::new();
        let ghost head = c;
        apply_field_type_extras(child, val.as_str(), &mut c, &no_values, errors, name.as_str(), ndl, depth + 1);
        proof {
            crate::field_builder::lemma_fresh(
                c,
                head,
                *child,
                val@,
                no_values@,
                errors@,
                Seq::empty(),
                name@,
                ndl,
                (depth + 1) as nat,
                false,
                head.value@,
                head.readonly,
            );
        }
    }
    c
}

// ---------------------------------------------------------------------------
// Building the sub-fields of stored rows
// ---------------------------------------------------------------------------

/// The stored value a sub-field of a row reads (see `row_raw`).
fn row_value<'a>(sf: &FieldDefinition, row: &'a DocValue) -> (r: Option<&'a DocValue>)
    ensures
        data_of(r) == row_raw(*sf, *row),
{
    if sf.field_type.is_layout_wrapper() {
        Some(row)
    } else {
        get_member(Some(row), sf.name.as_str())
    }
}

/// The form name of a sub-field of row `idx` of `parent` (see `indexed_name`).
fn indexed_name_of(parent: &str, idx: usize, sf: &FieldDefinition) -> (r: String)
    ensures
        r@ == indexed_name(parent@, idx as nat, *sf),
{
    let d = u64_to_decimal(idx as u64);
    let a = concat_str(parent, "[");
    let b = concat_str(a.as_str(), d.as_str());
    if sf.field_type.is_layout_wrapper() {
        concat_str(b.as_str(), "]")
    } else {
        let c = concat_str(b.as_str(), "][");
        let e = concat_str(c.as_str(), sf.name.as_str());
        concat_str(e.as_str(), "]")
    }
}

/// The block type a stored blocks row names (see `block_type_of`).
fn row_block_type(row: &DocValue) -> (r: String)
    ensures
        r@ == block_type_of(*row),
{
    match get_member(Some(row), "_block_type") {
        Some(DocValue::Str(s)) => s.clone(),
        _ => String::from_str("unknown"),
    }
}

/// The index of the first block definition of type `bt` (see `first_block`).
#[verifier::loop_isolation(false)]
fn find_block_def(blocks: &Vec<BlockDefinition>, bt: &str) -> (r: Option<usize>)
    ensures
        match r {
            Some(i) => i < blocks.len() && first_block(blocks@, bt@) == Some(i as int),
            None => first_block(blocks@, bt@) is None,
        },
{
    let mut i: usize = 0;
    assert(blocks@.skip(0) =~= blocks@);
    while i < blocks.len()
        invariant
            i <= blocks.len(),
            first_block(blocks@, bt@) == match first_block(blocks@.skip(i as int), bt@) {
                Some(j) => Some(j + i),
                None => None,
            },
        decreases blocks.len() - i,
    {
        assert(blocks@.skip(i as int).skip(1) =~= blocks@.skip(i + 1));
        assert(blocks@.skip(i as int)[0] == blocks@[i as int]);
        if str_eq(blocks[i].block_type.as_str(), bt) {
            return Some(i);
        }
        i = i + 1;
    }
    None
}

/// Whether any context of a list carries an error.
fn has_error(cs: &Vec<FieldContext>) -> (r: bool)
    ensures
        r == any_error(cs@),
{
    let mut i: usize = 0;
    while i < cs.len()
        invariant
            i <= cs.len(),
            forall|j: int| 0 <= j < i ==> (#[trigger] cs@[j]).error is None,
        decreases cs.len() - i,
    {
        if cs[i].error.is_some() {
            return true;
        }
        i = i + 1;
    }
    false
}

proof fn lemma_row_subs_ext(
    a: Seq<FieldContext>,
    b: Seq<FieldContext>,
    fields: Seq<FieldDefinition>,
    row: DocValue,
    parent: Seq<char>,
    idx: nat,
    locked: bool,
    ndl: bool,
    depth: nat,
    errors: Map<Seq<char>, String>,
    k: int,
)
    requires
        row_subs_ok(a, fields, row, parent, idx, locked, ndl, depth, errors, k),
        0 <= k <= b.len(),
        forall|i: int| 0 <= i < k ==> a[i] == b[i],
    ensures
        row_subs_ok(b, fields, row, parent, idx, locked, ndl, depth, errors, k),
    decreases k,
{
    if k > 0 {
        lemma_row_subs_ext(a, b, fields, row, parent, idx, locked, ndl, depth, errors, k - 1);
    }
}

proof fn lemma_array_rows_ext(
    a: Seq<RowContext>,
    b: Seq<RowContext>,
    fields: Seq<FieldDefinition>,
    items: Seq<DocValue>,
    parent: Seq<char>,
    locked: bool,
    ndl: bool,
    depth: nat,
    errors: Map<Seq<char>, String>,
    k: int,
)
    requires
        array_rows_ok(a, fields, items, parent, locked, ndl, depth, errors, k),
        0 <= k <= b.len(),
        forall|i: int| 0 <= i < k ==> a[i] == b[i],
    ensures
        array_rows_ok(b, fields, items, parent, locked, ndl, depth, errors, k),
    decreases k,
{
    if k > 0 {
        lemma_array_rows_ext(a, b, fields, items, parent, locked, ndl, depth, errors, k - 1);
    }
}

proof fn lemma_block_rows_ext(
    a: Seq<RowContext>,
    b: Seq<RowContext>,
    blocks: Seq<BlockDefinition>,
    items: Seq<DocValue>,
    parent: Seq<char>,
    locked: bool,
    ndl: bool,
    depth: nat,
    errors: Map<Seq<char>, String>,
    k: int,
)
    requires
        block_rows_ok(a, blocks, items, parent, locked, ndl, depth, errors, k),
        0 <= k <= b.len(),
        forall|i: int| 0 <= i < k ==> a[i] == b[i],
    ensures
        block_rows_ok(b, blocks, items, parent, locked, ndl, depth, errors, k),
    decreases k,
{
    if k > 0 {
        lemma_block_rows_ext(a, b, blocks, items, parent, locked, ndl, depth, errors, k - 1);
    }
}

proof fn lemma_nested_ext(
    a: Seq<FieldContext>,
    b: Seq<FieldContext>,
    fields: Seq<FieldDefinition>,
    gobj: Option<DocValue>,
    name: Seq<char>,
    locked: bool,
    ndl: bool,
    depth: nat,
    k: int,
)
    requires
        nested_ok(a, fields, gobj, name, locked, ndl, depth, k),
        0 <= k <= b.len(),
        forall|i: int| 0 <= i < k ==> a[i] == b[i],
    ensures
        nested_ok(b, fields, gobj, name, locked, ndl, depth, k),
    decreases k,
{
    if k > 0 {
        lemma_nested_ext(a, b, fields, gobj, name, locked, ndl, depth, k - 1);
    }
}

/// The sub-field contexts of one stored row.
fn build_row_subs(
    fields: &Vec<FieldDefinition>,
    row: &DocValue,
    parent: &str,
    idx: usize,
    locked: bool,
    ndl: bool,
    depth: usize,
    errors: &StrMap,
) -> (cs: Vec<FieldContext>)
    ensures
        cs.len() == fields.len(),
        row_subs_ok(cs@, fields@, *row, parent@, idx as nat, locked, ndl, depth as nat, errors@, fields.len() as int),
    decreases fields, 0int, 0int,
{
    let mut cs: Vec<FieldContext> = Vec::new();
    let mut i: usize = 0;
    while i < fields.len()
        invariant
            i <= fields.len(),
            cs.len() == i,
            row_subs_ok(cs@, fields@, *row, parent@, idx as nat, locked, ndl, depth as nat, errors@, i as int),
        decreases fields.len() - i,
    {
        let sf = &fields[i];
        let raw = row_value(sf, row);
        let c = build_enriched_sub_field_context(sf, raw, parent, idx, locked, ndl, depth, errors);
        let ghost before = cs@;
        cs.push(c);
        proof {
            lemma_row_subs_ext(before, cs@, fields@, *row, parent@, idx as nat, locked, ndl, depth as nat, errors@, i as int);
        }
        i = i + 1;
    }
    cs
}

/// The rows of an array field built from its stored items.
fn build_array_rows(
    fields: &Vec<FieldDefinition>,
    items: &Vec<DocValue>,
    parent: &str,
    locked: bool,
    ndl: bool,
    depth: usize,
    errors: &StrMap,
) -> (rs: Vec<RowContext>)
    ensures
        rs.len() == items.len(),
        array_rows_ok(rs@, fields@, items@, parent@, locked, ndl, depth as nat, errors@, items.len() as int),
    decreases fields, 1int, 0int,
{
    let mut rs: Vec<RowContext> = Vec::new();
    let mut i: usize = 0;
    while i < items.len()
        invariant
            i <= items.len(),
            rs.len() == i,
            array_rows_ok(rs@, fields@, items@, parent@, locked, ndl, depth as nat, errors@, i as int),
        decreases items.len() - i,
    {
        let subs = build_row_subs(fields, &items[i], parent, i, locked, ndl, depth, errors);
        let errs = has_error(&subs);
        let r = RowContext { index: i, block_type: None, block_label: None, sub_fields: subs, has_errors: errs };
        let ghost before = rs@;
        rs.push(r);
        proof {
            lemma_array_rows_ext(before, rs@, fields@, items@, parent@, locked, ndl, depth as nat, errors@, i as int);
        }
        i = i + 1;
    }
    rs
}

/// The rows of a blocks field built from its stored items.
fn build_block_rows(
    blocks: &Vec<BlockDefinition>,
    items: &Vec<DocValue>,
    parent: &str,
    locked: bool,
    ndl: bool,
    depth: usize,
    errors: &StrMap,
) -> (rs: Vec<RowContext>)
    ensures
        rs.len() == items.len(),
        block_rows_ok(rs@, blocks@, items@, parent@, locked, ndl, depth as nat, errors@, items.len() as int),
    decreases blocks, 1int, 0int,
{
    let mut rs: Vec<RowContext> = Vec::new();
    let mut i: usize = 0;
    while i < items.len()
        invariant
            i <= items.len(),
            rs.len() == i,
            block_rows_ok(rs@, blocks@, items@, parent@, locked, ndl, depth as nat, errors@, i as int),
        decreases items.len() - i,
    {
        let row = &items[i];
        let bt = row_block_type(row);
        let (label, subs) = match find_block_def(blocks, bt.as_str()) {
            Some(j) => {
                let bd = &blocks[j];
                let label = match &bd.label {
                    Some(l) => l.resolve_default(),
                    None => bt.clone(),
                };
                (label, build_row_subs(&bd.fields, row, parent, i, locked, ndl, depth, errors))
            },
            None => (bt.clone(), Vec::new()),
        };
        let errs = has_error(&subs);
        let r = RowContext {
            index: i,
            block_type: Some(bt),
            block_label: Some(label),
            sub_fields: subs,
            has_errors: errs,
        };
        let ghost before = rs@;
        rs.push(r);
        proof {
            lemma_block_rows_ext(before, rs@, blocks@, items@, parent@, locked, ndl, depth as nat, errors@, i as int);
        }
        i = i + 1;
    }
    rs
}

/// The sub-field contexts of a group nested in a stored row.
fn build_nested_group(
    fields: &Vec<FieldDefinition>,
    gobj: Option<&DocValue>,
    name: &str,
    locked: bool,
    ndl: bool,
    depth: usize,
) -> (cs: Vec<FieldContext>)
    ensures
        cs.len() == fields.len(),
        nested_ok(cs@, fields@, data_of(gobj), name@, locked, ndl, depth as nat, fields.len() as int),
{
    let no_values = StrMap::new();
    let no_errors = StrMap::new();
    let mut cs: Vec<FieldContext> = Vec::new();
    let mut i: usize = 0;
    while i < fields.len()
        invariant
            no_values@ == no_entries(),
            no_errors@ == no_entries(),
            i <= fields.len(),
            cs.len() == i,
            nested_ok(cs@, fields@, data_of(gobj), name@, locked, ndl, depth as nat, i as int),
        decreases fields.len() - i,
    {
        let nsf = &fields[i];
        let nraw = get_member(gobj, nsf.name.as_str());
        let nname = bracket_name(name, nsf.name.as_str());
        let nval = doc_text(nraw, false);
        let mut c = head_context(
            nname.clone(),
            nsf.field_type,
            field_label(nsf),
            nsf.required,
            nval.clone(),
            resolve_opt(&nsf.admin.placeholder),
            resolve_opt(&nsf.admin.description),
            nsf.admin.readonly || locked,
            None,
            locked,
        );
        let ghost head = c;
        apply_field_type_extras(nsf, nval.as_str(), &mut c, &no_values, &no_errors, nname.as_str(), ndl, depth);
        proof {
            crate::field_builder::lemma_fresh(
                c,
                head,
                *nsf,
                nval@,
                no_values@,
                no_errors@,
                Seq::empty(),
                nname@,
                ndl,
                depth as nat,
                false,
                head.value@,
                head.readonly,
            );
        }
        let ghost before = cs@;
        cs.push(c);
        proof {
            lemma_nested_ext(before, cs@, fields@, data_of(gobj), name@, locked, ndl, depth as nat, i as int);
        }
        i = i + 1;
    }
    cs
}

// ---------------------------------------------------------------------------
// The entries of an enriched context, type by type
// ---------------------------------------------------------------------------

/// A type that adds nothing below the head.
proof fn lemma_enriched_idle(
    c: FieldContext,
    sf: FieldDefinition,
    raw: Option<DocValue>,
    name: Seq<char>,
    val: Seq<char>,
    locked: bool,
    ndl: bool,
    depth: nat,
    errors: Map<Seq<char>, String>,
)
    requires
        bare(c),
        c.value@ == val,
        c.readonly == (sf.admin.readonly || locked),
        depth >= MAX_FIELD_DEPTH || sf.field_type == FieldType::Email || sf.field_type
            == FieldType::Textarea || sf.field_type == FieldType::Richtext || sf.field_type
            == FieldType::Json || sf.field_type == FieldType::Code || sf.field_type
            == FieldType::Join || ((sf.field_type == FieldType::Text || sf.field_type
            == FieldType::Number) && !sf.has_many),
    ensures
        enriched_branch_ok(c, sf, raw, name, val, locked, ndl, depth, errors),
{
}

/// Options of a select or radio field.
fn enr_choice(sf: &FieldDefinition, raw: Option<&DocValue>, ctx: &mut FieldContext, name: &str, val: &str, locked: bool, ndl: bool, depth: usize, errors: &StrMap)
    requires
        sf.field_type == FieldType::Select || sf.field_type == FieldType::Radio,
        depth < MAX_FIELD_DEPTH,
        bare(*old(ctx)),
        old(ctx).value@ == val@,
        old(ctx).readonly == (sf.admin.readonly || locked),
    ensures
        enriched_branch_ok(*final(ctx), *sf, data_of(raw), name@, val@, locked, ndl, depth as nat, errors@),
        head_same(*final(ctx), *old(ctx)),
{
    ctx.options = Some(build_options(&sf.options, val, sf.has_many));
    if sf.has_many {
        ctx.has_many = Some(true);
    }
}

/// The checked state of a checkbox.
fn enr_checkbox(sf: &FieldDefinition, raw: Option<&DocValue>, ctx: &mut FieldContext, name: &str, val: &str, locked: bool, ndl: bool, depth: usize, errors: &StrMap)
    requires
        sf.field_type == FieldType::Checkbox,
        depth < MAX_FIELD_DEPTH,
        bare(*old(ctx)),
        old(ctx).value@ == val@,
        old(ctx).readonly == (sf.admin.readonly || locked),
    ensures
        enriched_branch_ok(*final(ctx), *sf, data_of(raw), name@, val@, locked, ndl, depth as nat, errors@),
        head_same(*final(ctx), *old(ctx)),
{
    ctx.checked = Some(checkbox_checked(val));
}

/// Picker appearance and the cut-down value of a date field.
fn enr_date(sf: &FieldDefinition, raw: Option<&DocValue>, ctx: &mut FieldContext, name: &str, val: &str, locked: bool, ndl: bool, depth: usize, errors: &StrMap)
    requires
        sf.field_type == FieldType::Date,
        depth < MAX_FIELD_DEPTH,
        bare(*old(ctx)),
        old(ctx).value@ == val@,
        old(ctx).readonly == (sf.admin.readonly || locked),
    ensures
        enriched_branch_ok(*final(ctx), *sf, data_of(raw), name@, val@, locked, ndl, depth as nat, errors@),
        head_same(*final(ctx), *old(ctx)),
{
    let appearance = text_or(&sf.picker_appearance, "dayOnly");
    proof {
        reveal_strlit("dayOnly");
        reveal_strlit("dayAndTime");
        assert("dayOnly"@.len() != "dayAndTime"@.len());
    }
    if str_eq(appearance.as_str(), "dayOnly") {
        ctx.date_only_value = Some(first_bytes(val, 10));
    } else if str_eq(appearance.as_str(), "dayAndTime") {
        ctx.datetime_local_value = Some(first_bytes(val, 16));
    }
    ctx.picker_appearance = Some(appearance);
}

/// Target collection, cardinality, polymorphic targets and picker of a relationship.
fn enr_relationship(sf: &FieldDefinition, raw: Option<&DocValue>, ctx: &mut FieldContext, name: &str, val: &str, locked: bool, ndl: bool, depth: usize, errors: &StrMap)
    requires
        sf.field_type == FieldType::Relationship,
        depth < MAX_FIELD_DEPTH,
        bare(*old(ctx)),
        old(ctx).value@ == val@,
        old(ctx).readonly == (sf.admin.readonly || locked),
    ensures
        enriched_branch_ok(*final(ctx), *sf, data_of(raw), name@, val@, locked, ndl, depth as nat, errors@),
        head_same(*final(ctx), *old(ctx)),
{
    match &sf.relationship {
        Some(rc) => {
            ctx.relationship_collection = Some(rc.collection.clone());
            ctx.has_many = Some(rc.has_many);
            if rc.is_polymorphic() {
                ctx.polymorphic = Some(true);
                ctx.collections = Some(clone_strings(&rc.polymorphic));
            }
        },
        None => {},
    }
    if sf.admin.picker.is_some() {
        ctx.picker = clone_opt(&sf.admin.picker);
    }
}

/// Target collection, cardinality and picker of an upload field.
fn enr_upload(sf: &FieldDefinition, raw: Option<&DocValue>, ctx: &mut FieldContext, name: &str, val: &str, locked: bool, ndl: bool, depth: usize, errors: &StrMap)
    requires
        sf.field_type == FieldType::Upload,
        depth < MAX_FIELD_DEPTH,
        bare(*old(ctx)),
        old(ctx).value@ == val@,
        old(ctx).readonly == (sf.admin.readonly || locked),
    ensures
        enriched_branch_ok(*final(ctx), *sf, data_of(raw), name@, val@, locked, ndl, depth as nat, errors@),
        head_same(*final(ctx), *old(ctx)),
{
    match &sf.relationship {
        Some(rc) => {
            ctx.relationship_collection = Some(rc.collection.clone());
            if rc.has_many {
                ctx.has_many = Some(true);
            }
        },
        None => {},
    }
    let picker = text_or(&sf.admin.picker, "drawer");
    if !str_eq(picker.as_str(), "none") {
        ctx.picker = Some(picker);
    }
}

/// The tags of a text or number field that holds many values.
fn enr_tags(sf: &FieldDefinition, raw: Option<&DocValue>, ctx: &mut FieldContext, name: &str, val: &str, locked: bool, ndl: bool, depth: usize, errors: &StrMap)
    requires
        (sf.field_type == FieldType::Text || sf.field_type == FieldType::Number) && sf.has_many,
        depth < MAX_FIELD_DEPTH,
        bare(*old(ctx)),
        old(ctx).value@ == val@,
        old(ctx).readonly == (sf.admin.readonly || locked),
    ensures
        enriched_branch_ok(*final(ctx), *sf, data_of(raw), name@, val@, locked, ndl, depth as nat, errors@),
        head_same(*final(ctx), *old(ctx)),
{
    let tags = parse_tags(val);
    ctx.has_many = Some(true);
    ctx.value = join_with_commas(&tags);
    ctx.tags = Some(tags);
}

/// The stored rows, row template and row settings of an array field.
fn enr_array(sf: &FieldDefinition, raw: Option<&DocValue>, ctx: &mut FieldContext, name: &str, val: &str, locked: bool, ndl: bool, depth: usize, errors: &StrMap)
    requires
        sf.field_type == FieldType::Array,
        depth < MAX_FIELD_DEPTH,
        bare(*old(ctx)),
        old(ctx).value@ == val@,
        old(ctx).readonly == (sf.admin.readonly || locked),
    ensures
        enriched_branch_ok(*final(ctx), *sf, data_of(raw), name@, val@, locked, ndl, depth as nat, errors@),
        head_same(*final(ctx), *old(ctx)),
    decreases sf, 1int, 0int,
{
    let rows = match raw {
        Some(DocValue::Array(items, _)) => build_array_rows(&sf.fields, items, name, locked, ndl, depth + 1, errors),
        _ => Vec::new(),
    };
    let tmpl = concat_str(name, "[__INDEX__]");
    let no_values = StrMap::new();
    let no_errors = StrMap::new();
    let subs = build_kids(&sf.fields, &no_values, &no_errors, tmpl.as_str(), ndl, depth + 1);
    ctx.sub_fields = Some(subs);
    ctx.row_count = Some(rows.len());
    ctx.rows_data = Some(rows);
    ctx.template_id = Some(safe_template_id(name));
    if sf.max_rows.is_some() {
        ctx.max_rows = sf.max_rows;
    }
    if sf.min_rows.is_some() {
        ctx.min_rows = sf.min_rows;
    }
    ctx.init_collapsed = Some(sf.admin.collapsed);
    if sf.admin.labels_singular.is_some() {
        ctx.add_label = resolve_opt(&sf.admin.labels_singular);
    }
}

/// The stored rows, block templates and row settings of a blocks field.
fn enr_blocks(sf: &FieldDefinition, raw: Option<&DocValue>, ctx: &mut FieldContext, name: &str, val: &str, locked: bool, ndl: bool, depth: usize, errors: &StrMap)
    requires
        sf.field_type == FieldType::Blocks,
        depth < MAX_FIELD_DEPTH,
        bare(*old(ctx)),
        old(ctx).value@ == val@,
        old(ctx).readonly == (sf.admin.readonly || locked),
    ensures
        enriched_branch_ok(*final(ctx), *sf, data_of(raw), name@, val@, locked, ndl, depth as nat, errors@),
        head_same(*final(ctx), *old(ctx)),
    decreases sf, 1int, 0int,
{
    let rows = match raw {
        Some(DocValue::Array(items, _)) => build_block_rows(&sf.blocks, items, name, locked, ndl, depth + 1, errors),
        _ => Vec::new(),
    };
    let tmpl = concat_str(name, "[__INDEX__]");
    let bs = build_block_defs(&sf.blocks, tmpl.as_str(), ndl, depth + 1);
    ctx.block_definitions = Some(bs);
    ctx.row_count = Some(rows.len());
    ctx.rows_data = Some(rows);
    ctx.template_id = Some(safe_template_id(name));
    if sf.admin.label_field.is_some() {
        ctx.label_field = clone_opt(&sf.admin.label_field);
    }
    if sf.max_rows.is_some() {
        ctx.max_rows = sf.max_rows;
    }
    if sf.min_rows.is_some() {
        ctx.min_rows = sf.min_rows;
    }
    ctx.init_collapsed = Some(sf.admin.collapsed);
    if sf.admin.labels_singular.is_some() {
        ctx.add_label = resolve_opt(&sf.admin.labels_singular);
    }
}

/// The sub-fields of a group nested in a row, read from the group's stored object.
fn enr_group(sf: &FieldDefinition, raw: Option<&DocValue>, ctx: &mut FieldContext, name: &str, val: &str, locked: bool, ndl: bool, depth: usize, errors: &StrMap)
    requires
        sf.field_type == FieldType::Group,
        depth < MAX_FIELD_DEPTH,
        bare(*old(ctx)),
        old(ctx).value@ == val@,
        old(ctx).readonly == (sf.admin.readonly || locked),
    ensures
        enriched_branch_ok(*final(ctx), *sf, data_of(raw), name@, val@, locked, ndl, depth as nat, errors@),
        head_same(*final(ctx), *old(ctx)),
{
    let gobj: Option<&DocValue> = match raw {
        Some(DocValue::Object(_, _)) => raw,
        _ => None,
    };
    let subs = build_nested_group(&sf.fields, gobj, name, locked, ndl, depth + 1);
    ctx.sub_fields = Some(subs);
    ctx.collapsed = Some(sf.admin.collapsed);
}

/// The children of a row or collapsible nested in a row.
fn enr_wrapper(sf: &FieldDefinition, raw: Option<&DocValue>, ctx: &mut FieldContext, name: &str, val: &str, locked: bool, ndl: bool, depth: usize, errors: &StrMap)
    requires
        sf.field_type == FieldType::Row || sf.field_type == FieldType::Collapsible,
        depth < MAX_FIELD_DEPTH,
        bare(*old(ctx)),
        old(ctx).value@ == val@,
        old(ctx).readonly == (sf.admin.readonly || locked),
    ensures
        enriched_branch_ok(*final(ctx), *sf, data_of(raw), name@, val@, locked, ndl, depth as nat, errors@),
        head_same(*final(ctx), *old(ctx)),
{
    let subs = build_enriched_children_from_data(&sf.fields, raw, name, locked, ndl, depth + 1, errors);
    ctx.sub_fields = Some(subs);
    if sf.field_type == FieldType::Collapsible {
        ctx.collapsed = Some(sf.admin.collapsed);
    }
}

/// The tab panels of a tabs field nested in a row.
fn enr_tabs(sf: &FieldDefinition, raw: Option<&DocValue>, ctx: &mut FieldContext, name: &str, val: &str, locked: bool, ndl: bool, depth: usize, errors: &StrMap)
    requires
        sf.field_type == FieldType::Tabs,
        depth < MAX_FIELD_DEPTH,
        bare(*old(ctx)),
        old(ctx).value@ == val@,
        old(ctx).readonly == (sf.admin.readonly || locked),
    ensures
        enriched_branch_ok(*final(ctx), *sf, data_of(raw), name@, val@, locked, ndl, depth as nat, errors@),
        head_same(*final(ctx), *old(ctx)),
{
    let ts = build_child_tabs(&sf.tabs, raw, name, locked, ndl, depth + 1, errors);
    ctx.tabs = Some(ts);
}

/// Add the entries below the head to a bare enriched context.
fn enriched_entries(sf: &FieldDefinition, raw: Option<&DocValue>, ctx: &mut FieldContext, name: &str, val: &str, locked: bool, ndl: bool, depth: usize, errors: &StrMap)
    requires
        bare(*old(ctx)),
        old(ctx).value@ == val@,
        old(ctx).readonly == (sf.admin.readonly || locked),
    ensures
        enriched_branch_ok(*final(ctx), *sf, data_of(raw), name@, val@, locked, ndl, depth as nat, errors@),
        head_same(*final(ctx), *old(ctx)),
    decreases sf, 2int, 0int,
{
    if depth >= MAX_FIELD_DEPTH {
        proof {
            lemma_enriched_idle(*ctx, *sf, data_of(raw), name@, val@, locked, ndl, depth as nat, errors@);
        }
        return ;
    }
    match sf.field_type {
        FieldType::Select | FieldType::Radio => enr_choice(sf, raw, ctx, name, val, locked, ndl, depth, errors),
        FieldType::Checkbox => enr_checkbox(sf, raw, ctx, name, val, locked, ndl, depth, errors),
        FieldType::Date => enr_date(sf, raw, ctx, name, val, locked, ndl, depth, errors),
        FieldType::Relationship => enr_relationship(sf, raw, ctx, name, val, locked, ndl, depth, errors),
        FieldType::Upload => enr_upload(sf, raw, ctx, name, val, locked, ndl, depth, errors),
        FieldType::Array => enr_array(sf, raw, ctx, name, val, locked, ndl, depth, errors),
        FieldType::Blocks => enr_blocks(sf, raw, ctx, name, val, locked, ndl, depth, errors),
        FieldType::Group => enr_group(sf, raw, ctx, name, val, locked, ndl, depth, errors),
        FieldType::Row | FieldType::Collapsible => enr_wrapper(sf, raw, ctx, name, val, locked, ndl, depth, errors),
        FieldType::Tabs => enr_tabs(sf, raw, ctx, name, val, locked, ndl, depth, errors),
        FieldType::Text | FieldType::Number => {
            if sf.has_many {
                enr_tags(sf, raw, ctx, name, val, locked, ndl, depth, errors);
            } else {
                proof {
                    lemma_enriched_idle(*ctx, *sf, data_of(raw), name@, val@, locked, ndl, depth as nat, errors@);
                }
            }
        },
        _ => {
            proof {
                lemma_enriched_idle(*ctx, *sf, data_of(raw), name@, val@, locked, ndl, depth as nat, errors@);
            }
        },
    }
}

/// Build the context of a sub-field of row `idx` of the array or blocks field
/// `parent_name`, from the stored value `raw_value`, recursing into nested arrays,
/// blocks, groups and layout wrappers.
///
/// Layout wrappers are named `parent[idx]`, other fields `parent[idx][name]`. Strings
/// are shown as they are, null as nothing, other scalars by their JSON text; composite
/// fields show no value of their own.
pub fn build_enriched_sub_field_context(
    sf: &FieldDefinition,
    raw_value: Option<&DocValue>,
    parent_name: &str,
    idx: usize,
    locale_locked: bool,
    non_default_locale: bool,
    depth: usize,
    errors: &StrMap,
) -> (c: FieldContext)
    ensures
        enriched_ok(
            c,
            *sf,
            data_of(raw_value),
            parent_name@,
            idx as nat,
            locale_locked,
            non_default_locale,
            depth as nat,
            errors@,
        ),
    decreases sf, 3int, 0int,
{
    let name = indexed_name_of(parent_name, idx, sf);
    let val = doc_text(raw_value, composite_type(sf.field_type));
    let mut c = head_context(
        name.clone(),
        sf.field_type,
        field_label(sf),
        sf.required,
        val.clone(),
        resolve_opt(&sf.admin.placeholder),
        resolve_opt(&sf.admin.description),
        sf.admin.readonly || locale_locked,
        None,
        locale_locked,
    );
    c.error = match errors.get(name.as_str()) {
        Some(e) => Some(e.clone()),
        None => None,
    };
    enriched_entries(
        sf,
        raw_value,
        &mut c,
        name.as_str(),
        val.as_str(),
        locale_locked,
        non_default_locale,
        depth,
        errors,
    );
    c
}

// ---------------------------------------------------------------------------
// Filling the rows of a form from a stored document
// ---------------------------------------------------------------------------

/// The context `n` is `o` with the rows of field `d` filled from the stored document
/// `doc`: array and blocks fields get their rows and row count (read at depth 1); rows
/// and collapsibles have their sub-fields filled, tabs their panels; other contexts are
/// unchanged.
pub open spec fn rows_filled(
    n: FieldContext,
    o: FieldContext,
    d: FieldDefinition,
    doc: Seq<(String, DocValue)>,
    filter_hidden: bool,
    ndl: bool,
    errors: Map<Seq<char>, String>,
) -> bool
    decreases d, 1int, 0int,
{
    let t = d.field_type;
    let locked = ndl && !d.localized;
    let items = items_of(member(doc, d.name@));
    if t == FieldType::Array {
        &&& n.rows_data matches Some(rs) && rs.len() == items.len() && array_rows_ok(
            rs@,
            d.fields@,
            items,
            d.name@,
            locked,
            ndl,
            1,
            errors,
            rs.len() as int,
        )
        &&& n.row_count == Some(items.len() as usize)
        &&& n == (FieldContext { rows_data: n.rows_data, row_count: n.row_count, ..o })
    } else if t == FieldType::Blocks {
        &&& n.rows_data matches Some(rs) && rs.len() == items.len() && block_rows_ok(
            rs@,
            d.blocks@,
            items,
            d.name@,
            locked,
            ndl,
            1,
            errors,
            rs.len() as int,
        )
        &&& n.row_count == Some(items.len() as usize)
        &&& n == (FieldContext { rows_data: n.rows_data, row_count: n.row_count, ..o })
    } else if (t == FieldType::Row || t == FieldType::Collapsible) && o.sub_fields is Some {
        &&& n.sub_fields matches Some(ns) && ns.len() == o.sub_fields->0.len() && list_filled(
            ns@,
            o.sub_fields->0@,
            d.fields@,
            doc,
            filter_hidden,
            ndl,
            errors,
            d.fields.len() as int,
        ) && forall|c: int|
            shown_fields(d.fields@, filter_hidden).len() <= c < ns.len() ==> #[trigger] ns@[c]
                == o.sub_fields->0@[c]
        &&& n == (FieldContext { sub_fields: n.sub_fields, ..o })
    } else if t == FieldType::Tabs && o.tabs is Some {
        &&& n.tabs matches Some(nts) && nts.len() == o.tabs->0.len() && tabs_filled(
            nts@,
            o.tabs->0@,
            d.tabs@,
            doc,
            filter_hidden,
            ndl,
            errors,
            d.tabs.len() as int,
        ) && forall|i: int| d.tabs.len() <= i < nts.len() ==> #[trigger] nts@[i] == o.tabs->0@[i]
        &&& n == (FieldContext { tabs: n.tabs, ..o })
    } else {
        n == o
    }
}

/// The first `k` definitions have filled their contexts: the `c`-th shown definition
/// (hidden ones are skipped when filtering) fills the `c`-th context, if there is one.
pub open spec fn list_filled(
    ns: Seq<FieldContext>,
    os: Seq<FieldContext>,
    defs: Seq<FieldDefinition>,
    doc: Seq<(String, DocValue)>,
    filter_hidden: bool,
    ndl: bool,
    errors: Map<Seq<char>, String>,
    k: int,
) -> bool
    decreases defs, 0int, k,
{
    if k <= 0 || k > defs.len() {
        k <= 0
    } else {
        let d = defs[k - 1];
        let c = shown_fields(defs.take(k - 1), filter_hidden).len() as int;
        &&& list_filled(ns, os, defs, doc, filter_hidden, ndl, errors, k - 1)
        &&& (filter_hidden && d.admin.hidden) || c >= os.len() || c >= ns.len() || rows_filled(
            ns[c],
            os[c],
            d,
            doc,
            filter_hidden,
            ndl,
            errors,
        )
    }
}

/// The first `k` tab panels have their sub-fields filled.
pub open spec fn tabs_filled(
    nts: Seq<TabContext>,
    ots: Seq<TabContext>,
    tabs: Seq<FieldTab>,
    doc: Seq<(String, DocValue)>,
    filter_hidden: bool,
    ndl: bool,
    errors: Map<Seq<char>, String>,
    k: int,
) -> bool
    decreases tabs, 0int, k,
{
    if k <= 0 || k > tabs.len() {
        k <= 0
    } else {
        let i = k - 1;
        &&& tabs_filled(nts, ots, tabs, doc, filter_hidden, ndl, errors, k - 1)
        &&& i < ots.len() && i < nts.len() ==> {
            &&& nts[i] == (TabContext { sub_fields: nts[i].sub_fields, ..ots[i] })
            &&& nts[i].sub_fields.len() == ots[i].sub_fields.len()
            &&& list_filled(
                nts[i].sub_fields@,
                ots[i].sub_fields@,
                tabs[i].fields@,
                doc,
                filter_hidden,
                ndl,
                errors,
                tabs[i].fields.len() as int,
            )
            &&& forall|c: int|
                shown_fields(tabs[i].fields@, filter_hidden).len() <= c < nts[i].sub_fields.len()
                    ==> #[trigger] nts[i].sub_fields@[c] == ots[i].sub_fields@[c]
        }
    }
}

/// Counting shown definitions one more step.
proof fn lemma_shown_step(defs: Seq<FieldDefinition>, filter_hidden: bool, j: int)
    requires
        0 <= j < defs.len(),
    ensures
        shown_fields(defs.take(j + 1), filter_hidden).len() == shown_fields(defs.take(j), filter_hidden).len()
            + if filter_hidden && defs[j].admin.hidden {
            0int
        } else {
            1int
        },
{
    assert(defs.take(j + 1).drop_last() =~= defs.take(j));
    assert(defs.take(j + 1).last() == defs[j]);
}

/// `list_filled` up to `k` reads only the contexts before the shown count at `k`.
proof fn lemma_list_filled_ext(
    a: Seq<FieldContext>,
    b: Seq<FieldContext>,
    os: Seq<FieldContext>,
    defs: Seq<FieldDefinition>,
    doc: Seq<(String, DocValue)>,
    filter_hidden: bool,
    ndl: bool,
    errors: Map<Seq<char>, String>,
    k: int,
)
    requires
        0 <= k <= defs.len(),
        list_filled(a, os, defs, doc, filter_hidden, ndl, errors, k),
        a.len() == b.len(),
        forall|i: int| 0 <= i < shown_fields(defs.take(k), filter_hidden).len() && i < a.len() ==> a[i] == b[i],
    ensures
        list_filled(b, os, defs, doc, filter_hidden, ndl, errors, k),
    decreases k,
{
    if k > 0 {
        lemma_shown_step(defs, filter_hidden, k - 1);
        lemma_list_filled_ext(a, b, os, defs, doc, filter_hidden, ndl, errors, k - 1);
    }
}

proof fn lemma_tabs_filled_ext(
    a: Seq<TabContext>,
    b: Seq<TabContext>,
    ots: Seq<TabContext>,
    tabs: Seq<FieldTab>,
    doc: Seq<(String, DocValue)>,
    filter_hidden: bool,
    ndl: bool,
    errors: Map<Seq<char>, String>,
    k: int,
)
    requires
        0 <= k <= tabs.len(),
        tabs_filled(a, ots, tabs, doc, filter_hidden, ndl, errors, k),
        a.len() == b.len(),
        forall|i: int| 0 <= i < k && i < a.len() ==> a[i] == b[i],
    ensures
        tabs_filled(b, ots, tabs, doc, filter_hidden, ndl, errors, k),
    decreases k,
{
    if k > 0 {
        lemma_tabs_filled_ext(a, b, ots, tabs, doc, filter_hidden, ndl, errors, k - 1);
    }
}

/// Panels beyond the contexts leave `tabs_filled` as it is.
proof fn lemma_tabs_filled_tail(
    nts: Seq<TabContext>,
    ots: Seq<TabContext>,
    tabs: Seq<FieldTab>,
    doc: Seq<(String, DocValue)>,
    filter_hidden: bool,
    ndl: bool,
    errors: Map<Seq<char>, String>,
    k: int,
)
    requires
        0 <= k <= tabs.len(),
        tabs_filled(nts, ots, tabs, doc, filter_hidden, ndl, errors, k),
        k == tabs.len() || k >= ots.len() || k >= nts.len(),
    ensures
        tabs_filled(nts, ots, tabs, doc, filter_hidden, ndl, errors, tabs.len() as int),
    decreases tabs.len() - k,
{
    if k < tabs.len() {
        lemma_tabs_filled_tail(nts, ots, tabs, doc, filter_hidden, ndl, errors, k + 1);
    }
}

/// The member `k` of a stored object's members.
fn find_member<'a>(ms: &'a Vec<(String, DocValue)>, k: &str) -> (r: Option<&'a DocValue>)
    ensures
        data_of(r) == member(ms@, k@),
{
    let mut i: usize = 0;
    assert(ms@.skip(0) =~= ms@);
    while i < ms.len()
        invariant
            i <= ms.len(),
            member(ms@, k@) == member(ms@.skip(i as int), k@),
        decreases ms.len() - i,
    {
        assert(ms@.skip(i as int).skip(1) =~= ms@.skip(i + 1));
        assert(ms@.skip(i as int)[0] == ms@[i as int]);
        if str_eq(ms[i].0.as_str(), k) {
            return Some(&ms[i].1);
        }
        i = i + 1;
    }
    None
}

/// Fill the rows of one context (see `rows_filled`).
fn fill_rows(
    ctx: &mut FieldContext,
    d: &FieldDefinition,
    doc: &Vec<(String, DocValue)>,
    filter_hidden: bool,
    ndl: bool,
    errors: &StrMap,
)
    ensures
        rows_filled(*final(ctx), *old(ctx), *d, doc@, filter_hidden, ndl, errors@),
    decreases d, 1int, 0int,
{
    let t = d.field_type;
    let locked = ndl && !d.localized;
    if t == FieldType::Array || t == FieldType::Blocks {
        let raw = find_member(doc, d.name.as_str());
        let rows = match raw {
            Some(DocValue::Array(items, _)) => if t == FieldType::Array {
                build_array_rows(&d.fields, items, d.name.as_str(), locked, ndl, 1, errors)
            } else {
                build_block_rows(&d.blocks, items, d.name.as_str(), locked, ndl, 1, errors)
            },
            _ => Vec::new(),
        };
        ctx.row_count = Some(rows.len());
        ctx.rows_data = Some(rows);
    } else if t == FieldType::Row || t == FieldType::Collapsible {
        match ctx.sub_fields.take() {
            Some(mut subs) => {
                enrich_document_rows(&mut subs, &d.fields, doc, filter_hidden, ndl, errors);
                ctx.sub_fields = Some(subs);
            },
            None => {},
        }
    } else if t == FieldType::Tabs {
        match ctx.tabs.take() {
            Some(mut ts) => {
                let ghost ots = ts@;
                let mut i: usize = 0;
                while i < ts.len() && i < d.tabs.len()
                    invariant
                        i <= ts.len(),
                        i <= d.tabs.len(),
                        ts.len() == ots.len(),
                        tabs_filled(ts@, ots, d.tabs@, doc@, filter_hidden, ndl, errors@, i as int),
                        forall|j: int| i <= j < ts.len() ==> #[trigger] ts@[j] == ots[j],
                    decreases ts.len() - i,
                {
                    let ghost before = ts@;
                    let mut tab = ts.remove(i);
                    assert(tab == ots[i as int]);
                    let mut subs: Vec<FieldContext> = Vec::new();
                    std::mem::swap(&mut subs, &mut tab.sub_fields);
                    enrich_document_rows(&mut subs, &d.tabs[i].fields, doc, filter_hidden, ndl, errors);
                    tab.sub_fields = subs;
                    ts.insert(i, tab);
                    proof {
                        assert(ts@ =~= before.update(i as int, tab));
                        lemma_tabs_filled_ext(before, ts@, ots, d.tabs@, doc@, filter_hidden, ndl, errors@, i as int);
                    }
                    i = i + 1;
                }
                proof {
                    lemma_tabs_filled_tail(ts@, ots, d.tabs@, doc@, filter_hidden, ndl, errors@, i as int);
                }
                ctx.tabs = Some(ts);
            },
            None => {},
        }
    }
}

/// Fill the rows of array and blocks fields in a form's contexts from the stored
/// document `doc`, recursing into rows, collapsibles and tabs. Contexts and definitions
/// are paired in order, hidden definitions being skipped when `filter_hidden` (as when
/// the contexts were built).
pub fn enrich_document_rows(
    contexts: &mut Vec<FieldContext>,
    field_defs: &Vec<FieldDefinition>,
    doc: &Vec<(String, DocValue)>,
    filter_hidden: bool,
    ndl: bool,
    errors: &StrMap,
)
    ensures
        final(contexts)@.len() == old(contexts)@.len(),
        list_filled(final(contexts)@, old(contexts)@, field_defs@, doc@, filter_hidden, ndl, errors@, field_defs.len() as int),
        forall|c: int|
            shown_fields(field_defs@, filter_hidden).len() <= c < final(contexts)@.len() ==> #[trigger] final(contexts)@[c]
                == old(contexts)@[c],
    decreases field_defs, 0int, 0int,
{
    let ghost os = contexts@;
    let mut j: usize = 0;
    let mut c: usize = 0;
    assert(field_defs@.take(0) =~= Seq::<FieldDefinition>::empty());
    while j < field_defs.len()
        invariant
            j <= field_defs.len(),
            contexts@.len() == os.len(),
            c as int == shown_fields(field_defs@.take(j as int), filter_hidden).len(),
            c <= j,
            list_filled(contexts@, os, field_defs@, doc@, filter_hidden, ndl, errors@, j as int),
            forall|i: int| c <= i < contexts@.len() ==> #[trigger] contexts@[i] == os[i],
        decreases field_defs.len() - j,
    {
        let d = &field_defs[j];
        proof {
            lemma_shown_step(field_defs@, filter_hidden, j as int);
        }
        if !(filter_hidden && d.admin.hidden) {
            if c < contexts.len() {
                let ghost before = contexts@;
                let mut ctx = contexts.remove(c);
                fill_rows(&mut ctx, d, doc, filter_hidden, ndl, errors);
                contexts.insert(c, ctx);
                proof {
                    assert(contexts@ =~= before.update(c as int, contexts@[c as int]));
                    lemma_list_filled_ext(before, contexts@, os, field_defs@, doc@, filter_hidden, ndl, errors@, j as int);
                }
            }
            c = c + 1;
        }
        j = j + 1;
    }
    assert(field_defs@.take(field_defs.len() as int) =~= field_defs@);
}

/// Below the depth limit, the relationship and upload settings of a sub-field context of
/// an array or blocks row come from the sub-field's definition: a relationship's
/// configured picker is kept (none when none is configured); an upload's picker is the
/// configured one, "drawer" when none is configured, and none when it is "none";
/// relationship and upload sub-fields name their related collection; a relationship says
/// whether it holds many; a polymorphic one lists its collections.
pub proof fn lemma_enriched_relation_settings(
    c: FieldContext,
    sf: FieldDefinition,
    raw: Option<DocValue>,
    parent: Seq<char>,
    idx: nat,
    locked: bool,
    ndl: bool,
    depth: nat,
    errors: Map<Seq<char>, String>,
)
    requires
        enriched_ok(c, sf, raw, parent, idx, locked, ndl, depth, errors),
        depth < MAX_FIELD_DEPTH,
    ensures
        sf.field_type == FieldType::Relationship ==> sv(c.picker) == sv(sf.admin.picker),
        sf.field_type == FieldType::Upload && sf.admin.picker is None ==> sv(c.picker) == Some("drawer"@),
        sf.field_type == FieldType::Upload && sf.admin.picker is Some && sf.admin.picker->0@ != "none"@
            ==> sv(c.picker) == sv(sf.admin.picker),
        sf.field_type == FieldType::Upload && sf.admin.picker is Some && sf.admin.picker->0@ == "none"@
            ==> c.picker is None,
        (sf.field_type == FieldType::Relationship || sf.field_type == FieldType::Upload) && sf.relationship is Some
            ==> sv(c.relationship_collection) == Some(sf.relationship->0.collection@),
        sf.field_type == FieldType::Relationship && sf.relationship is Some ==> c.has_many == Some(
            sf.relationship->0.has_many,
        ),
        sf.field_type == FieldType::Relationship && sf.relationship is Some && sf.relationship->0.polymorphic.len() > 0
            ==> c.polymorphic == Some(true) && c.collections is Some && svs(c.collections->0) == svs(
            sf.relationship->0.polymorphic,
        ),
{
    reveal_strlit("drawer");
    reveal_strlit("none");
    assert("drawer"@.len() == 6 && "none"@.len() == 4);
    assert("drawer"@ != "none"@);
}

/// The head of a sub-field context of row `idx` of `parent`: named
/// `parent[idx][name]` (a layout wrapper `parent[idx]`), with the sub-field's type name
/// and required flag, the parent's lock, no localized flag and no position; a plain label
/// and placeholder are shown as written; the error is the one recorded under the
/// context's name, if any.
pub proof fn lemma_enriched_head(
    c: FieldContext,
    sf: FieldDefinition,
    raw: Option<DocValue>,
    parent: Seq<char>,
    idx: nat,
    locked: bool,
    ndl: bool,
    depth: nat,
    errors: Map<Seq<char>, String>,
)
    requires
        enriched_ok(c, sf, raw, parent, idx, locked, ndl, depth, errors),
    ensures
        !(sf.field_type == FieldType::Tabs || sf.field_type == FieldType::Row || sf.field_type
            == FieldType::Collapsible) ==> c.name@ == parent + "["@ + decimal(idx) + "]["@ + sf.name@ + "]"@,
        (sf.field_type == FieldType::Tabs || sf.field_type == FieldType::Row || sf.field_type
            == FieldType::Collapsible) ==> c.name@ == parent + "["@ + decimal(idx) + "]"@,
        c.field_type@ == field_type_name(sf.field_type),
        c.required == sf.required,
        c.locale_locked == locked,
        c.localized is None,
        c.position is None,
        sf.admin.label matches Some(crate::field::LocalizedString::Plain(l)) ==> c.label@ == l@,
        sf.admin.placeholder matches Some(crate::field::LocalizedString::Plain(p)) ==> (c.placeholder matches Some(
            cp,
        ) && cp@ == p@),
        sf.admin.placeholder is None ==> c.placeholder is None,
        errors.contains_key(c.name@) ==> (c.error matches Some(e) && e@ == errors[c.name@]@),
        !errors.contains_key(c.name@) ==> c.error is None,
{
}

} // verus!
