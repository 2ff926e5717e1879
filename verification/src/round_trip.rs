//! The round trip of the round-trip tables: a table that `field_config_to_lua` builds
//! determines every setting of the definition it was built from, so reading it back can
//! give that definition again.

use vstd::prelude::*;
use vstd::string::*;
use crate::field::{
    field_type_name, BlockDefinition, FieldAccess, FieldAdmin, FieldDefinition, FieldHooks, FieldTab,
    FieldType, JoinConfig,
    LocalizedString, RelationshipConfig, SelectOption,
};
use crate::builders::{AdminConfig, VersionsConfig};
use crate::collection::{
    AuthStrategy, CollectionAccess, CollectionAuth, CollectionDefinition,
    CollectionHooks, CollectionLabels, GlobalDefinition, CollectionUpload, FormatOptions, FormatQuality, ImageFit, ImageSize,
    LiveSetting,
};
use crate::lua_tables::{
    access_entries, auth_entry, auth_tree, collection_access_entries, collection_admin_entries,
    collection_config_tree, collection_hooks_entries, global_config_tree, default_auth, fit_name, image_size_tree,
    image_sizes_tree, labels_tree, live_tree, plain_upload, strategies_tree, quality_entry, upload_entry, upload_tree, versions_entry, admin_entries, config_block_tree, config_block_trees, config_options_tree,
    config_relationship_tree, config_tab_tree, config_tab_trees, config_tree, config_trees, entry_if,
    hooks_entries, join_entry, localized_tree, opt_i32_entry, opt_label_entry, opt_str_entry,
    opt_u32_entry, opt_u64_entry, relationship_entry, str_list_tree, LuaTree,
};

verus! {

// ---------------------------------------------------------------------------
// The round trip: a round-trip table determines the definition
// ---------------------------------------------------------------------------

/// Two labels that read the same: equal plain strings, or equal per-locale entries.
pub open spec fn same_label(a: LocalizedString, b: LocalizedString) -> bool {
    match (a, b) {
        (LocalizedString::Plain(x), LocalizedString::Plain(y)) => x@ == y@,
        (LocalizedString::Localized(p), LocalizedString::Localized(q)) => p@.map_values(
            |e: (String, String)| (e.0@, e.1@),
        ) == q@.map_values(|e: (String, String)| (e.0@, e.1@)),
        _ => false,
    }
}

/// Two optional labels that read the same.
pub open spec fn same_opt_label(a: Option<LocalizedString>, b: Option<LocalizedString>) -> bool {
    match (a, b) {
        (None, None) => true,
        (Some(x), Some(y)) => same_label(x, y),
        _ => false,
    }
}

/// The characters of each string of a list.
pub open spec fn strs_of(v: Seq<String>) -> Seq<Seq<char>> {
    v.map_values(|s: String| s@)
}

/// The characters of an optional string.
pub open spec fn opt_chars(o: Option<String>) -> Option<Seq<char>> {
    match o {
        Some(s) => Some(s@),
        None => None,
    }
}

/// Two option lists with the same values and labels, in order.
pub open spec fn same_options(a: Seq<SelectOption>, b: Seq<SelectOption>) -> bool {
    a.len() == b.len() && forall|i: int|
        0 <= i < a.len() ==> same_label(#[trigger] a[i].label, b[i].label) && a[i].value@ == b[i].value@
}

/// Two admin settings that agree on every setting.
pub open spec fn same_admin(a: FieldAdmin, b: FieldAdmin) -> bool {
    &&& same_opt_label(a.label, b.label)
    &&& same_opt_label(a.placeholder, b.placeholder)
    &&& same_opt_label(a.description, b.description)
    &&& a.hidden == b.hidden
    &&& a.readonly == b.readonly
    &&& opt_chars(a.width) == opt_chars(b.width)
    &&& opt_chars(a.position) == opt_chars(b.position)
    &&& opt_chars(a.step) == opt_chars(b.step)
    &&& a.rows == b.rows
    &&& opt_chars(a.language) == opt_chars(b.language)
    &&& opt_chars(a.picker) == opt_chars(b.picker)
    &&& opt_chars(a.label_field) == opt_chars(b.label_field)
    &&& a.collapsed == b.collapsed
    &&& same_opt_label(a.labels_singular, b.labels_singular)
    &&& strs_of(a.features@) == strs_of(b.features@)
    &&& opt_chars(a.richtext_format) == opt_chars(b.richtext_format)
    &&& strs_of(a.nodes@) == strs_of(b.nodes@)
}

/// Two relationship settings that agree on every setting.
pub open spec fn same_relationship(a: Option<RelationshipConfig>, b: Option<RelationshipConfig>) -> bool {
    match (a, b) {
        (None, None) => true,
        (Some(x), Some(y)) => x.collection@ == y.collection@ && x.has_many == y.has_many && x.max_depth
            == y.max_depth && strs_of(x.polymorphic@) == strs_of(y.polymorphic@),
        _ => false,
    }
}

/// Two join settings that agree.
pub open spec fn same_join(a: Option<JoinConfig>, b: Option<JoinConfig>) -> bool {
    match (a, b) {
        (None, None) => true,
        (Some(x), Some(y)) => x.collection@ == y.collection@ && x.on@ == y.on@,
        _ => false,
    }
}

/// Two field definitions that agree on every setting, down through their sub-fields,
/// blocks and tabs.
pub open spec fn same_field(f: FieldDefinition, g: FieldDefinition) -> bool
    decreases f, 2int,
{
    &&& f.name@ == g.name@
    &&& f.field_type == g.field_type
    &&& f.required == g.required
    &&& f.unique == g.unique
    &&& f.localized == g.localized
    &&& f.has_many == g.has_many
    &&& opt_chars(f.validate) == opt_chars(g.validate)
    &&& f.min_length == g.min_length
    &&& f.max_length == g.max_length
    &&& f.min_rows == g.min_rows
    &&& f.max_rows == g.max_rows
    &&& opt_chars(f.min_date) == opt_chars(g.min_date)
    &&& opt_chars(f.max_date) == opt_chars(g.max_date)
    &&& opt_chars(f.picker_appearance) == opt_chars(g.picker_appearance)
    &&& same_options(f.options@, g.options@)
    &&& same_admin(f.admin, g.admin)
    &&& strs_of(f.hooks.before_validate@) == strs_of(g.hooks.before_validate@)
    &&& strs_of(f.hooks.before_change@) == strs_of(g.hooks.before_change@)
    &&& strs_of(f.hooks.after_change@) == strs_of(g.hooks.after_change@)
    &&& strs_of(f.hooks.after_read@) == strs_of(g.hooks.after_read@)
    &&& opt_chars(f.access.read) == opt_chars(g.access.read)
    &&& opt_chars(f.access.create) == opt_chars(g.access.create)
    &&& opt_chars(f.access.update) == opt_chars(g.access.update)
    &&& same_relationship(f.relationship, g.relationship)
    &&& same_join(f.join, g.join)
    &&& same_fields(f.fields@, g.fields@)
    &&& same_blocks(f.blocks@, g.blocks@)
    &&& same_tabs(f.tabs@, g.tabs@)
}

/// Two lists of field definitions that agree setting by setting, in order.
pub open spec fn same_fields(a: Seq<FieldDefinition>, b: Seq<FieldDefinition>) -> bool
    decreases a, 1int,
{
    a.len() == b.len() && (a.len() == 0 || (same_field(a[0], b[0]) && same_fields(a.skip(1), b.skip(1))))
}

/// Two block types that agree on every setting.
pub open spec fn same_block(a: BlockDefinition, b: BlockDefinition) -> bool
    decreases a, 2int,
{
    &&& a.block_type@ == b.block_type@
    &&& same_opt_label(a.label, b.label)
    &&& opt_chars(a.label_field) == opt_chars(b.label_field)
    &&& opt_chars(a.group) == opt_chars(b.group)
    &&& opt_chars(a.image_url) == opt_chars(b.image_url)
    &&& same_fields(a.fields@, b.fields@)
}

/// Two lists of block types that agree, in order.
pub open spec fn same_blocks(a: Seq<BlockDefinition>, b: Seq<BlockDefinition>) -> bool
    decreases a, 1int,
{
    a.len() == b.len() && (a.len() == 0 || (same_block(a[0], b[0]) && same_blocks(a.skip(1), b.skip(1))))
}

/// Two tabs that agree on every setting.
pub open spec fn same_tab(a: FieldTab, b: FieldTab) -> bool
    decreases a, 2int,
{
    a.label@ == b.label@ && opt_chars(a.description) == opt_chars(b.description) && same_fields(
        a.fields@,
        b.fields@,
    )
}

/// Two lists of tabs that agree, in order.
pub open spec fn same_tabs(a: Seq<FieldTab>, b: Seq<FieldTab>) -> bool
    decreases a, 1int,
{
    a.len() == b.len() && (a.len() == 0 || (same_tab(a[0], b[0]) && same_tabs(a.skip(1), b.skip(1))))
}

/// The value of the first entry of a record under key `k`, if any.
pub open spec fn rget(es: Seq<(Seq<char>, LuaTree)>, k: Seq<char>) -> Option<LuaTree>
    decreases es.len(),
{
    if es.len() == 0 {
        None
    } else if es[0].0 == k {
        Some(es[0].1)
    } else {
        rget(es.skip(1), k)
    }
}

proof fn lemma_rget_concat(a: Seq<(Seq<char>, LuaTree)>, b: Seq<(Seq<char>, LuaTree)>, k: Seq<char>)
    ensures
        rget(a + b, k) == match rget(a, k) {
            Some(v) => Some(v),
            None => rget(b, k),
        },
    decreases a.len(),
{
    if a.len() == 0 {
        assert(a + b =~= b);
    } else {
        assert((a + b).skip(1) =~= a.skip(1) + b);
        assert((a + b)[0] == a[0]);
        lemma_rget_concat(a.skip(1), b, k);
    }
}

/// How lookups go through the pieces that records are made of.
proof fn lemma_rget_pieces()
    ensures
        forall|a: Seq<(Seq<char>, LuaTree)>, b: Seq<(Seq<char>, LuaTree)>, k: Seq<char>|
            #[trigger] rget(a + b, k) == match rget(a, k) {
                Some(v) => Some(v),
                None => rget(b, k),
            },
        forall|k2: Seq<char>, v: LuaTree, k: Seq<char>|
            #[trigger] rget(seq![(k2, v)], k) == if k2 == k {
                Some(v)
            } else {
                None
            },
        forall|k: Seq<char>| #[trigger] rget(Seq::<(Seq<char>, LuaTree)>::empty(), k) is None,
{
    assert forall|a: Seq<(Seq<char>, LuaTree)>, b: Seq<(Seq<char>, LuaTree)>, k: Seq<char>|
        #[trigger] rget(a + b, k) == match rget(a, k) {
            Some(v) => Some(v),
            None => rget(b, k),
        } by {
        lemma_rget_concat(a, b, k);
    }
    assert forall|k2: Seq<char>, v: LuaTree, k: Seq<char>|
        #[trigger] rget(seq![(k2, v)], k) == if k2 == k {
            Some(v)
        } else {
            None
        } by {
        assert(seq![(k2, v)].skip(1) =~= Seq::<(Seq<char>, LuaTree)>::empty());
        assert(rget(Seq::<(Seq<char>, LuaTree)>::empty(), k) is None);
        assert(seq![(k2, v)][0] == (k2, v));
    }
}

/// The spelling of the top keys of the round-trip tables, as far as it tells them apart:
/// length, first two characters and last character.
proof fn lemma_spelling_top()
    ensures
        "name"@.len() == 4 && "name"@[0] == 'n' && "name"@[1] == 'a' && "name"@[3] == 'e',
        "type"@.len() == 4 && "type"@[0] == 't' && "type"@[1] == 'y' && "type"@[3] == 'e',
        "required"@.len() == 8 && "required"@[0] == 'r' && "required"@[1] == 'e' && "required"@[7] == 'd',
        "unique"@.len() == 6 && "unique"@[0] == 'u' && "unique"@[1] == 'n' && "unique"@[5] == 'e',
        "localized"@.len() == 9 && "localized"@[0] == 'l' && "localized"@[1] == 'o' && "localized"@[8] == 'd',
        "has_many"@.len() == 8 && "has_many"@[0] == 'h' && "has_many"@[1] == 'a' && "has_many"@[7] == 'y',
        "validate"@.len() == 8 && "validate"@[0] == 'v' && "validate"@[1] == 'a' && "validate"@[7] == 'e',
        "min_length"@.len() == 10 && "min_length"@[0] == 'm' && "min_length"@[1] == 'i' && "min_length"@[9] == 'h',
        "max_length"@.len() == 10 && "max_length"@[0] == 'm' && "max_length"@[1] == 'a' && "max_length"@[9] == 'h',
        "min_rows"@.len() == 8 && "min_rows"@[0] == 'm' && "min_rows"@[1] == 'i' && "min_rows"@[7] == 's',
        "max_rows"@.len() == 8 && "max_rows"@[0] == 'm' && "max_rows"@[1] == 'a' && "max_rows"@[7] == 's',
        "min_date"@.len() == 8 && "min_date"@[0] == 'm' && "min_date"@[1] == 'i' && "min_date"@[7] == 'e',
        "max_date"@.len() == 8 && "max_date"@[0] == 'm' && "max_date"@[1] == 'a' && "max_date"@[7] == 'e',
        "picker_appearance"@.len() == 17 && "picker_appearance"@[0] == 'p' && "picker_appearance"@[1] == 'i' && "picker_appearance"@[16] == 'e',
        "options"@.len() == 7 && "options"@[0] == 'o' && "options"@[1] == 'p' && "options"@[6] == 's',
        "admin"@.len() == 5 && "admin"@[0] == 'a' && "admin"@[1] == 'd' && "admin"@[4] == 'n',
        "hooks"@.len() == 5 && "hooks"@[0] == 'h' && "hooks"@[1] == 'o' && "hooks"@[4] == 's',
        "access"@.len() == 6 && "access"@[0] == 'a' && "access"@[1] == 'c' && "access"@[5] == 's',
        "relationship"@.len() == 12 && "relationship"@[0] == 'r' && "relationship"@[1] == 'e' && "relationship"@[11] == 'p',
        "join"@.len() == 4 && "join"@[0] == 'j' && "join"@[1] == 'o' && "join"@[3] == 'n',
        "fields"@.len() == 6 && "fields"@[0] == 'f' && "fields"@[1] == 'i' && "fields"@[5] == 's',
        "blocks"@.len() == 6 && "blocks"@[0] == 'b' && "blocks"@[1] == 'l' && "blocks"@[5] == 's',
        "tabs"@.len() == 4 && "tabs"@[0] == 't' && "tabs"@[1] == 'a' && "tabs"@[3] == 's',
{
    reveal_strlit("name");
    reveal_strlit("type");
    reveal_strlit("required");
    reveal_strlit("unique");
    reveal_strlit("localized");
    reveal_strlit("has_many");
    reveal_strlit("validate");
    reveal_strlit("min_length");
    reveal_strlit("max_length");
    reveal_strlit("min_rows");
    reveal_strlit("max_rows");
    reveal_strlit("min_date");
    reveal_strlit("max_date");
    reveal_strlit("picker_appearance");
    reveal_strlit("options");
    reveal_strlit("admin");
    reveal_strlit("hooks");
    reveal_strlit("access");
    reveal_strlit("relationship");
    reveal_strlit("join");
    reveal_strlit("fields");
    reveal_strlit("blocks");
    reveal_strlit("tabs");
}

/// The spelling of the admin keys of the round-trip tables, as far as it tells them apart:
/// length, first two characters and last character.
proof fn lemma_spelling_admin()
    ensures
        "label"@.len() == 5 && "label"@[0] == 'l' && "label"@[1] == 'a' && "label"@[4] == 'l',
        "placeholder"@.len() == 11 && "placeholder"@[0] == 'p' && "placeholder"@[1] == 'l' && "placeholder"@[10] == 'r',
        "description"@.len() == 11 && "description"@[0] == 'd' && "description"@[1] == 'e' && "description"@[10] == 'n',
        "hidden"@.len() == 6 && "hidden"@[0] == 'h' && "hidden"@[1] == 'i' && "hidden"@[5] == 'n',
        "readonly"@.len() == 8 && "readonly"@[0] == 'r' && "readonly"@[1] == 'e' && "readonly"@[7] == 'y',
        "width"@.len() == 5 && "width"@[0] == 'w' && "width"@[1] == 'i' && "width"@[4] == 'h',
        "position"@.len() == 8 && "position"@[0] == 'p' && "position"@[1] == 'o' && "position"@[7] == 'n',
        "step"@.len() == 4 && "step"@[0] == 's' && "step"@[1] == 't' && "step"@[3] == 'p',
        "rows"@.len() == 4 && "rows"@[0] == 'r' && "rows"@[1] == 'o' && "rows"@[3] == 's',
        "language"@.len() == 8 && "language"@[0] == 'l' && "language"@[1] == 'a' && "language"@[7] == 'e',
        "picker"@.len() == 6 && "picker"@[0] == 'p' && "picker"@[1] == 'i' && "picker"@[5] == 'r',
        "label_field"@.len() == 11 && "label_field"@[0] == 'l' && "label_field"@[1] == 'a' && "label_field"@[10] == 'd',
        "collapsed"@.len() == 9 && "collapsed"@[0] == 'c' && "collapsed"@[1] == 'o' && "collapsed"@[8] == 'd',
        "labels_singular"@.len() == 15 && "labels_singular"@[0] == 'l' && "labels_singular"@[1] == 'a' && "labels_singular"@[14] == 'r',
        "features"@.len() == 8 && "features"@[0] == 'f' && "features"@[1] == 'e' && "features"@[7] == 's',
        "richtext_format"@.len() == 15 && "richtext_format"@[0] == 'r' && "richtext_format"@[1] == 'i' && "richtext_format"@[14] == 't',
        "nodes"@.len() == 5 && "nodes"@[0] == 'n' && "nodes"@[1] == 'o' && "nodes"@[4] == 's',
{
    reveal_strlit("label");
    reveal_strlit("placeholder");
    reveal_strlit("description");
    reveal_strlit("hidden");
    reveal_strlit("readonly");
    reveal_strlit("width");
    reveal_strlit("position");
    reveal_strlit("step");
    reveal_strlit("rows");
    reveal_strlit("language");
    reveal_strlit("picker");
    reveal_strlit("label_field");
    reveal_strlit("collapsed");
    reveal_strlit("labels_singular");
    reveal_strlit("features");
    reveal_strlit("richtext_format");
    reveal_strlit("nodes");
}

/// The spelling of the misc keys of the round-trip tables, as far as it tells them apart:
/// length, first two characters and last character.
proof fn lemma_spelling_misc()
    ensures
        "before_validate"@.len() == 15 && "before_validate"@[0] == 'b' && "before_validate"@[1] == 'e' && "before_validate"@[14] == 'e',
        "before_change"@.len() == 13 && "before_change"@[0] == 'b' && "before_change"@[1] == 'e' && "before_change"@[12] == 'e',
        "after_change"@.len() == 12 && "after_change"@[0] == 'a' && "after_change"@[1] == 'f' && "after_change"@[11] == 'e',
        "after_read"@.len() == 10 && "after_read"@[0] == 'a' && "after_read"@[1] == 'f' && "after_read"@[9] == 'd',
        "read"@.len() == 4 && "read"@[0] == 'r' && "read"@[1] == 'e' && "read"@[3] == 'd',
        "create"@.len() == 6 && "create"@[0] == 'c' && "create"@[1] == 'r' && "create"@[5] == 'e',
        "update"@.len() == 6 && "update"@[0] == 'u' && "update"@[1] == 'p' && "update"@[5] == 'e',
        "collection"@.len() == 10 && "collection"@[0] == 'c' && "collection"@[1] == 'o' && "collection"@[9] == 'n',
        "has_many"@.len() == 8 && "has_many"@[0] == 'h' && "has_many"@[1] == 'a' && "has_many"@[7] == 'y',
        "max_depth"@.len() == 9 && "max_depth"@[0] == 'm' && "max_depth"@[1] == 'a' && "max_depth"@[8] == 'h',
        "polymorphic"@.len() == 11 && "polymorphic"@[0] == 'p' && "polymorphic"@[1] == 'o' && "polymorphic"@[10] == 'c',
        "on"@.len() == 2 && "on"@[0] == 'o' && "on"@[1] == 'n' && "on"@[1] == 'n',
        "value"@.len() == 5 && "value"@[0] == 'v' && "value"@[1] == 'a' && "value"@[4] == 'e',
        "type"@.len() == 4 && "type"@[0] == 't' && "type"@[1] == 'y' && "type"@[3] == 'e',
        "label"@.len() == 5 && "label"@[0] == 'l' && "label"@[1] == 'a' && "label"@[4] == 'l',
        "label_field"@.len() == 11 && "label_field"@[0] == 'l' && "label_field"@[1] == 'a' && "label_field"@[10] == 'd',
        "group"@.len() == 5 && "group"@[0] == 'g' && "group"@[1] == 'r' && "group"@[4] == 'p',
        "image_url"@.len() == 9 && "image_url"@[0] == 'i' && "image_url"@[1] == 'm' && "image_url"@[8] == 'l',
        "fields"@.len() == 6 && "fields"@[0] == 'f' && "fields"@[1] == 'i' && "fields"@[5] == 's',
        "description"@.len() == 11 && "description"@[0] == 'd' && "description"@[1] == 'e' && "description"@[10] == 'n',
{
    reveal_strlit("before_validate");
    reveal_strlit("before_change");
    reveal_strlit("after_change");
    reveal_strlit("after_read");
    reveal_strlit("read");
    reveal_strlit("create");
    reveal_strlit("update");
    reveal_strlit("collection");
    reveal_strlit("has_many");
    reveal_strlit("max_depth");
    reveal_strlit("polymorphic");
    reveal_strlit("on");
    reveal_strlit("value");
    reveal_strlit("type");
    reveal_strlit("label");
    reveal_strlit("label_field");
    reveal_strlit("group");
    reveal_strlit("image_url");
    reveal_strlit("fields");
    reveal_strlit("description");
}

/// The spelling of the types keys of the round-trip tables, as far as it tells them apart:
/// length, first two characters and last character.
proof fn lemma_spelling_types()
    ensures
        "text"@.len() == 4 && "text"@[0] == 't' && "text"@[1] == 'e' && "text"@[3] == 't',
        "number"@.len() == 6 && "number"@[0] == 'n' && "number"@[1] == 'u' && "number"@[5] == 'r',
        "email"@.len() == 5 && "email"@[0] == 'e' && "email"@[1] == 'm' && "email"@[4] == 'l',
        "textarea"@.len() == 8 && "textarea"@[0] == 't' && "textarea"@[1] == 'e' && "textarea"@[7] == 'a',
        "richtext"@.len() == 8 && "richtext"@[0] == 'r' && "richtext"@[1] == 'i' && "richtext"@[7] == 't',
        "select"@.len() == 6 && "select"@[0] == 's' && "select"@[1] == 'e' && "select"@[5] == 't',
        "radio"@.len() == 5 && "radio"@[0] == 'r' && "radio"@[1] == 'a' && "radio"@[4] == 'o',
        "checkbox"@.len() == 8 && "checkbox"@[0] == 'c' && "checkbox"@[1] == 'h' && "checkbox"@[7] == 'x',
        "date"@.len() == 4 && "date"@[0] == 'd' && "date"@[1] == 'a' && "date"@[3] == 'e',
        "json"@.len() == 4 && "json"@[0] == 'j' && "json"@[1] == 's' && "json"@[3] == 'n',
        "code"@.len() == 4 && "code"@[0] == 'c' && "code"@[1] == 'o' && "code"@[3] == 'e',
        "relationship"@.len() == 12 && "relationship"@[0] == 'r' && "relationship"@[1] == 'e' && "relationship"@[11] == 'p',
        "upload"@.len() == 6 && "upload"@[0] == 'u' && "upload"@[1] == 'p' && "upload"@[5] == 'd',
        "array"@.len() == 5 && "array"@[0] == 'a' && "array"@[1] == 'r' && "array"@[4] == 'y',
        "group"@.len() == 5 && "group"@[0] == 'g' && "group"@[1] == 'r' && "group"@[4] == 'p',
        "blocks"@.len() == 6 && "blocks"@[0] == 'b' && "blocks"@[1] == 'l' && "blocks"@[5] == 's',
        "row"@.len() == 3 && "row"@[0] == 'r' && "row"@[1] == 'o' && "row"@[2] == 'w',
        "collapsible"@.len() == 11 && "collapsible"@[0] == 'c' && "collapsible"@[1] == 'o' && "collapsible"@[10] == 'e',
        "tabs"@.len() == 4 && "tabs"@[0] == 't' && "tabs"@[1] == 'a' && "tabs"@[3] == 's',
        "join"@.len() == 4 && "join"@[0] == 'j' && "join"@[1] == 'o' && "join"@[3] == 'n',
{
    reveal_strlit("text");
    reveal_strlit("number");
    reveal_strlit("email");
    reveal_strlit("textarea");
    reveal_strlit("richtext");
    reveal_strlit("select");
    reveal_strlit("radio");
    reveal_strlit("checkbox");
    reveal_strlit("date");
    reveal_strlit("json");
    reveal_strlit("code");
    reveal_strlit("relationship");
    reveal_strlit("upload");
    reveal_strlit("array");
    reveal_strlit("group");
    reveal_strlit("blocks");
    reveal_strlit("row");
    reveal_strlit("collapsible");
    reveal_strlit("tabs");
    reveal_strlit("join");
}

proof fn lemma_type_name_injective(a: FieldType, b: FieldType)
    requires
        field_type_name(a) == field_type_name(b),
    ensures
        a == b,
{
    lemma_spelling_types();
}

proof fn lemma_str_list_injective(a: Seq<String>, b: Seq<String>)
    requires
        str_list_tree(a) == str_list_tree(b),
    ensures
        strs_of(a) == strs_of(b),
{
    let ta = a.map_values(|s: String| LuaTree::Str(s@));
    let tb = b.map_values(|s: String| LuaTree::Str(s@));
    assert(ta == tb);
    assert(a.len() == ta.len() && b.len() == tb.len());
    assert forall|i: int| 0 <= i < a.len() implies strs_of(a)[i] == strs_of(b)[i] by {
        assert(ta[i] == LuaTree::Str(a[i]@));
        assert(tb[i] == LuaTree::Str(b[i]@));
    }
    assert(strs_of(a) =~= strs_of(b));
}

proof fn lemma_label_injective(a: LocalizedString, b: LocalizedString)
    requires
        localized_tree(a) == localized_tree(b),
    ensures
        same_label(a, b),
{
    match (a, b) {
        (LocalizedString::Localized(p), LocalizedString::Localized(q)) => {
            let tp = p@.map_values(|e: (String, String)| (e.0@, LuaTree::Str(e.1@)));
            let tq = q@.map_values(|e: (String, String)| (e.0@, LuaTree::Str(e.1@)));
            assert(tp == tq);
            assert(p@.len() == tp.len() && q@.len() == tq.len());
            let vp = p@.map_values(|e: (String, String)| (e.0@, e.1@));
            let vq = q@.map_values(|e: (String, String)| (e.0@, e.1@));
            assert forall|i: int| 0 <= i < vp.len() implies vp[i] == vq[i] by {
                assert(tp[i] == (p@[i].0@, LuaTree::Str(p@[i].1@)));
                assert(tq[i] == (q@[i].0@, LuaTree::Str(q@[i].1@)));
            }
            assert(vp =~= vq);
        },
        _ => {},
    }
}

proof fn lemma_opt_label_injective(a: Option<LocalizedString>, b: Option<LocalizedString>, k: Seq<char>)
    requires
        opt_label_entry(k, a) == opt_label_entry(k, b),
    ensures
        same_opt_label(a, b),
{
    match (a, b) {
        (Some(x), Some(y)) => {
            assert(opt_label_entry(k, a)[0] == opt_label_entry(k, b)[0]);
            lemma_label_injective(x, y);
        },
        (Some(x), None) => {
            assert(opt_label_entry(k, a).len() == 1);
        },
        (None, Some(y)) => {
            assert(opt_label_entry(k, b).len() == 1);
        },
        _ => {},
    }
}

proof fn lemma_options_injective(a: Seq<SelectOption>, b: Seq<SelectOption>)
    requires
        config_options_tree(a) == config_options_tree(b),
    ensures
        same_options(a, b),
{
    lemma_spelling_misc();
    lemma_rget_pieces();
    let ta = config_options_tree(a)->List_0;
    let tb = config_options_tree(b)->List_0;
    assert(a.len() == ta.len() && b.len() == tb.len());
    assert forall|i: int| 0 <= i < a.len() implies same_label(#[trigger] a[i].label, b[i].label) && a[i].value@
        == b[i].value@ by {
        let ea = ta[i]->Record_0;
        let eb = tb[i]->Record_0;
        assert(ea == seq![("label"@, localized_tree(a[i].label)), ("value"@, LuaTree::Str(a[i].value@))]);
        assert(eb == seq![("label"@, localized_tree(b[i].label)), ("value"@, LuaTree::Str(b[i].value@))]);
        assert(ea[0] == eb[0] && ea[1] == eb[1]);
        lemma_label_injective(a[i].label, b[i].label);
    }
}

/// How lookups go through the optional entries that records are made of.
proof fn lemma_rget_entries()
    ensures
        forall|c: bool, k2: Seq<char>, v: LuaTree, k: Seq<char>|
            #[trigger] rget(entry_if(c, k2, v), k) == if c && k2 == k {
                Some(v)
            } else {
                None
            },
        forall|k2: Seq<char>, o: Option<String>, k: Seq<char>|
            #[trigger] rget(opt_str_entry(k2, o), k) == if k2 == k {
                match o {
                    Some(x) => Some(LuaTree::Str(x@)),
                    None => None,
                }
            } else {
                None
            },
        forall|k2: Seq<char>, o: Option<LocalizedString>, k: Seq<char>|
            #[trigger] rget(opt_label_entry(k2, o), k) == if k2 == k {
                match o {
                    Some(l) => Some(localized_tree(l)),
                    None => None,
                }
            } else {
                None
            },
        forall|k2: Seq<char>, o: Option<u64>, k: Seq<char>|
            #[trigger] rget(opt_u64_entry(k2, o), k) == if k2 == k {
                match o {
                    Some(n) => Some(LuaTree::UInt(n as nat)),
                    None => None,
                }
            } else {
                None
            },
        forall|k2: Seq<char>, o: Option<u32>, k: Seq<char>|
            #[trigger] rget(opt_u32_entry(k2, o), k) == if k2 == k {
                match o {
                    Some(n) => Some(LuaTree::Int(n as int)),
                    None => None,
                }
            } else {
                None
            },
        forall|k2: Seq<char>, o: Option<i32>, k: Seq<char>|
            #[trigger] rget(opt_i32_entry(k2, o), k) == if k2 == k {
                match o {
                    Some(n) => Some(LuaTree::Int(n as int)),
                    None => None,
                }
            } else {
                None
            },
        forall|o: Option<RelationshipConfig>, k: Seq<char>|
            #[trigger] rget(relationship_entry(o), k) == if "relationship"@ == k {
                match o {
                    Some(rc) => Some(config_relationship_tree(rc)),
                    None => None,
                }
            } else {
                None
            },
        forall|o: Option<JoinConfig>, k: Seq<char>|
            #[trigger] rget(join_entry(o), k) == if "join"@ == k {
                match o {
                    Some(j) => Some(
                        LuaTree::Record(seq![("collection"@, LuaTree::Str(j.collection@)), ("on"@, LuaTree::Str(j.on@))]),
                    ),
                    None => None,
                }
            } else {
                None
            },
{
    lemma_rget_pieces();
}

/// A list entry present when the list is not empty tells the list.
proof fn lemma_list_entry_injective(a: Seq<String>, b: Seq<String>)
    requires
        (if a.len() > 0 {
            Some(str_list_tree(a))
        } else {
            None::<LuaTree>
        }) == (if b.len() > 0 {
            Some(str_list_tree(b))
        } else {
            None::<LuaTree>
        }),
    ensures
        strs_of(a) == strs_of(b),
{
    if a.len() > 0 {
        lemma_str_list_injective(a, b);
    } else {
        assert(strs_of(a) =~= strs_of(b));
    }
}

#[verifier::rlimit(40)]
proof fn lemma_opt_label_get_injective(a: Option<LocalizedString>, b: Option<LocalizedString>)
    requires
        (match a {
            Some(l) => Some(localized_tree(l)),
            None => None,
        }) == (match b {
            Some(l) => Some(localized_tree(l)),
            None => None,
        }),
    ensures
        same_opt_label(a, b),
{
    match (a, b) {
        (Some(x), Some(y)) => lemma_label_injective(x, y),
        _ => {},
    }
}

#[verifier::rlimit(40)]
proof fn lemma_admin_get_label(a: FieldAdmin)
    ensures
        rget(admin_entries(a), "label"@) == (match a.label { Some(l) => Some(localized_tree(l)), None => None }),
{
    lemma_spelling_admin();
    lemma_rget_pieces();
    lemma_rget_entries();
}

#[verifier::rlimit(40)]
proof fn lemma_admin_get_placeholder(a: FieldAdmin)
    ensures
        rget(admin_entries(a), "placeholder"@) == (match a.placeholder { Some(l) => Some(localized_tree(l)), None => None }),
{
    lemma_spelling_admin();
    lemma_rget_pieces();
    lemma_rget_entries();
}

#[verifier::rlimit(40)]
proof fn lemma_admin_get_description(a: FieldAdmin)
    ensures
        rget(admin_entries(a), "description"@) == (match a.description { Some(l) => Some(localized_tree(l)), None => None }),
{
    lemma_spelling_admin();
    lemma_rget_pieces();
    lemma_rget_entries();
}

#[verifier::rlimit(40)]
proof fn lemma_admin_get_hidden(a: FieldAdmin)
    ensures
        rget(admin_entries(a), "hidden"@) == (if a.hidden { Some(LuaTree::Bool(true)) } else { None }),
{
    lemma_spelling_admin();
    lemma_rget_pieces();
    lemma_rget_entries();
}

#[verifier::rlimit(40)]
proof fn lemma_admin_get_readonly(a: FieldAdmin)
    ensures
        rget(admin_entries(a), "readonly"@) == (if a.readonly { Some(LuaTree::Bool(true)) } else { None }),
{
    lemma_spelling_admin();
    lemma_rget_pieces();
    lemma_rget_entries();
}

#[verifier::rlimit(40)]
proof fn lemma_admin_get_width(a: FieldAdmin)
    ensures
        rget(admin_entries(a), "width"@) == (match a.width { Some(t) => Some(LuaTree::Str(t@)), None => None }),
{
    lemma_spelling_admin();
    lemma_rget_pieces();
    lemma_rget_entries();
}

#[verifier::rlimit(40)]
proof fn lemma_admin_get_position(a: FieldAdmin)
    ensures
        rget(admin_entries(a), "position"@) == (match a.position { Some(t) => Some(LuaTree::Str(t@)), None => None }),
{
    lemma_spelling_admin();
    lemma_rget_pieces();
    lemma_rget_entries();
}

#[verifier::rlimit(40)]
proof fn lemma_admin_get_step(a: FieldAdmin)
    ensures
        rget(admin_entries(a), "step"@) == (match a.step { Some(t) => Some(LuaTree::Str(t@)), None => None }),
{
    lemma_spelling_admin();
    lemma_rget_pieces();
    lemma_rget_entries();
}

#[verifier::rlimit(40)]
proof fn lemma_admin_get_rows(a: FieldAdmin)
    ensures
        rget(admin_entries(a), "rows"@) == (match a.rows { Some(n) => Some(LuaTree::Int(n as int)), None => None }),
{
    lemma_spelling_admin();
    lemma_rget_pieces();
    lemma_rget_entries();
}

#[verifier::rlimit(40)]
proof fn lemma_admin_get_language(a: FieldAdmin)
    ensures
        rget(admin_entries(a), "language"@) == (match a.language { Some(t) => Some(LuaTree::Str(t@)), None => None }),
{
    lemma_spelling_admin();
    lemma_rget_pieces();
    lemma_rget_entries();
}

#[verifier::rlimit(40)]
proof fn lemma_admin_get_picker(a: FieldAdmin)
    ensures
        rget(admin_entries(a), "picker"@) == (match a.picker { Some(t) => Some(LuaTree::Str(t@)), None => None }),
{
    lemma_spelling_admin();
    lemma_rget_pieces();
    lemma_rget_entries();
}

#[verifier::rlimit(40)]
proof fn lemma_admin_get_label_field(a: FieldAdmin)
    ensures
        rget(admin_entries(a), "label_field"@) == (match a.label_field { Some(t) => Some(LuaTree::Str(t@)), None => None }),
{
    lemma_spelling_admin();
    lemma_rget_pieces();
    lemma_rget_entries();
}

#[verifier::rlimit(40)]
proof fn lemma_admin_get_collapsed(a: FieldAdmin)
    ensures
        rget(admin_entries(a), "collapsed"@) == (Some(LuaTree::Bool(a.collapsed))),
{
    lemma_spelling_admin();
    lemma_rget_pieces();
    lemma_rget_entries();
}

#[verifier::rlimit(40)]
proof fn lemma_admin_get_labels_singular(a: FieldAdmin)
    ensures
        rget(admin_entries(a), "labels_singular"@) == (match a.labels_singular { Some(l) => Some(localized_tree(l)), None => None }),
{
    lemma_spelling_admin();
    lemma_rget_pieces();
    lemma_rget_entries();
}

#[verifier::rlimit(40)]
proof fn lemma_admin_get_features(a: FieldAdmin)
    ensures
        rget(admin_entries(a), "features"@) == (if a.features.len() > 0 { Some(str_list_tree(a.features@)) } else { None }),
{
    lemma_spelling_admin();
    lemma_rget_pieces();
    lemma_rget_entries();
}

#[verifier::rlimit(40)]
proof fn lemma_admin_get_richtext_format(a: FieldAdmin)
    ensures
        rget(admin_entries(a), "richtext_format"@) == (match a.richtext_format { Some(t) => Some(LuaTree::Str(t@)), None => None }),
{
    lemma_spelling_admin();
    lemma_rget_pieces();
    lemma_rget_entries();
}

#[verifier::rlimit(40)]
proof fn lemma_admin_get_nodes(a: FieldAdmin)
    ensures
        rget(admin_entries(a), "nodes"@) == (if a.nodes.len() > 0 { Some(str_list_tree(a.nodes@)) } else { None }),
{
    lemma_spelling_admin();
    lemma_rget_pieces();
    lemma_rget_entries();
}

/// Admin settings are told apart by their admin tables.
proof fn lemma_admin_injective(a: FieldAdmin, b: FieldAdmin)
    requires
        admin_entries(a) == admin_entries(b),
    ensures
        same_admin(a, b),
{
    lemma_admin_get_label(a);
    lemma_admin_get_label(b);
    lemma_opt_label_get_injective(a.label, b.label);
    lemma_admin_get_placeholder(a);
    lemma_admin_get_placeholder(b);
    lemma_opt_label_get_injective(a.placeholder, b.placeholder);
    lemma_admin_get_description(a);
    lemma_admin_get_description(b);
    lemma_opt_label_get_injective(a.description, b.description);
    lemma_admin_get_hidden(a);
    lemma_admin_get_hidden(b);
    lemma_admin_get_readonly(a);
    lemma_admin_get_readonly(b);
    lemma_admin_get_width(a);
    lemma_admin_get_width(b);
    lemma_admin_get_position(a);
    lemma_admin_get_position(b);
    lemma_admin_get_step(a);
    lemma_admin_get_step(b);
    lemma_admin_get_rows(a);
    lemma_admin_get_rows(b);
    lemma_admin_get_language(a);
    lemma_admin_get_language(b);
    lemma_admin_get_picker(a);
    lemma_admin_get_picker(b);
    lemma_admin_get_label_field(a);
    lemma_admin_get_label_field(b);
    lemma_admin_get_collapsed(a);
    lemma_admin_get_collapsed(b);
    lemma_admin_get_labels_singular(a);
    lemma_admin_get_labels_singular(b);
    lemma_opt_label_get_injective(a.labels_singular, b.labels_singular);
    lemma_admin_get_features(a);
    lemma_admin_get_features(b);
    lemma_list_entry_injective(a.features@, b.features@);
    lemma_admin_get_richtext_format(a);
    lemma_admin_get_richtext_format(b);
    lemma_admin_get_nodes(a);
    lemma_admin_get_nodes(b);
    lemma_list_entry_injective(a.nodes@, b.nodes@);
}

#[verifier::rlimit(40)]
proof fn lemma_rel_get_collection(x: RelationshipConfig)
    ensures
        rget(config_relationship_tree(x)->Record_0, "collection"@) == (Some(LuaTree::Str(x.collection@))),
{
    lemma_spelling_misc();
    lemma_rget_pieces();
    lemma_rget_entries();
}

#[verifier::rlimit(40)]
proof fn lemma_rel_get_has_many(x: RelationshipConfig)
    ensures
        rget(config_relationship_tree(x)->Record_0, "has_many"@) == (if x.has_many { Some(LuaTree::Bool(true)) } else { None }),
{
    lemma_spelling_misc();
    lemma_rget_pieces();
    lemma_rget_entries();
}

#[verifier::rlimit(40)]
proof fn lemma_rel_get_max_depth(x: RelationshipConfig)
    ensures
        rget(config_relationship_tree(x)->Record_0, "max_depth"@) == (match x.max_depth { Some(n) => Some(LuaTree::Int(n as int)), None => None }),
{
    lemma_spelling_misc();
    lemma_rget_pieces();
    lemma_rget_entries();
}

#[verifier::rlimit(40)]
proof fn lemma_rel_get_polymorphic(x: RelationshipConfig)
    ensures
        rget(config_relationship_tree(x)->Record_0, "polymorphic"@) == (if x.polymorphic.len() > 0 { Some(str_list_tree(x.polymorphic@)) } else { None }),
{
    lemma_spelling_misc();
    lemma_rget_pieces();
    lemma_rget_entries();
}

/// Relationship settings are told apart by their tables.
proof fn lemma_rel_injective(a: RelationshipConfig, b: RelationshipConfig)
    requires
        config_relationship_tree(a) == config_relationship_tree(b),
    ensures
        same_relationship(Some(a), Some(b)),
{
    lemma_rel_get_collection(a);
    lemma_rel_get_collection(b);
    lemma_rel_get_has_many(a);
    lemma_rel_get_has_many(b);
    lemma_rel_get_max_depth(a);
    lemma_rel_get_max_depth(b);
    lemma_rel_get_polymorphic(a);
    lemma_rel_get_polymorphic(b);
    lemma_list_entry_injective(a.polymorphic@, b.polymorphic@);
}

#[verifier::rlimit(40)]
proof fn lemma_hooks_get_before_validate(x: FieldHooks)
    ensures
        rget(hooks_entries(x), "before_validate"@) == (if x.before_validate.len() > 0 { Some(str_list_tree(x.before_validate@)) } else { None }),
{
    lemma_spelling_misc();
    lemma_rget_pieces();
    lemma_rget_entries();
}

#[verifier::rlimit(40)]
proof fn lemma_hooks_get_before_change(x: FieldHooks)
    ensures
        rget(hooks_entries(x), "before_change"@) == (if x.before_change.len() > 0 { Some(str_list_tree(x.before_change@)) } else { None }),
{
    lemma_spelling_misc();
    lemma_rget_pieces();
    lemma_rget_entries();
}

#[verifier::rlimit(40)]
proof fn lemma_hooks_get_after_change(x: FieldHooks)
    ensures
        rget(hooks_entries(x), "after_change"@) == (if x.after_change.len() > 0 { Some(str_list_tree(x.after_change@)) } else { None }),
{
    lemma_spelling_misc();
    lemma_rget_pieces();
    lemma_rget_entries();
}

#[verifier::rlimit(40)]
proof fn lemma_hooks_get_after_read(x: FieldHooks)
    ensures
        rget(hooks_entries(x), "after_read"@) == (if x.after_read.len() > 0 { Some(str_list_tree(x.after_read@)) } else { None }),
{
    lemma_spelling_misc();
    lemma_rget_pieces();
    lemma_rget_entries();
}

/// Field hooks are told apart by their hooks tables.
proof fn lemma_hooks_injective(a: FieldHooks, b: FieldHooks)
    requires
        hooks_entries(a) == hooks_entries(b),
    ensures
        strs_of(a.before_validate@) == strs_of(b.before_validate@),
        strs_of(a.before_change@) == strs_of(b.before_change@),
        strs_of(a.after_change@) == strs_of(b.after_change@),
        strs_of(a.after_read@) == strs_of(b.after_read@),
{
    lemma_hooks_get_before_validate(a);
    lemma_hooks_get_before_validate(b);
    lemma_list_entry_injective(a.before_validate@, b.before_validate@);
    lemma_hooks_get_before_change(a);
    lemma_hooks_get_before_change(b);
    lemma_list_entry_injective(a.before_change@, b.before_change@);
    lemma_hooks_get_after_change(a);
    lemma_hooks_get_after_change(b);
    lemma_list_entry_injective(a.after_change@, b.after_change@);
    lemma_hooks_get_after_read(a);
    lemma_hooks_get_after_read(b);
    lemma_list_entry_injective(a.after_read@, b.after_read@);
}

#[verifier::rlimit(40)]
proof fn lemma_access_get_read(x: FieldAccess)
    ensures
        rget(access_entries(x), "read"@) == (match x.read { Some(t) => Some(LuaTree::Str(t@)), None => None }),
{
    lemma_spelling_misc();
    lemma_rget_pieces();
    lemma_rget_entries();
}

#[verifier::rlimit(40)]
proof fn lemma_access_get_create(x: FieldAccess)
    ensures
        rget(access_entries(x), "create"@) == (match x.create { Some(t) => Some(LuaTree::Str(t@)), None => None }),
{
    lemma_spelling_misc();
    lemma_rget_pieces();
    lemma_rget_entries();
}

#[verifier::rlimit(40)]
proof fn lemma_access_get_update(x: FieldAccess)
    ensures
        rget(access_entries(x), "update"@) == (match x.update { Some(t) => Some(LuaTree::Str(t@)), None => None }),
{
    lemma_spelling_misc();
    lemma_rget_pieces();
    lemma_rget_entries();
}

/// Field access settings are told apart by their access tables.
proof fn lemma_access_injective(a: FieldAccess, b: FieldAccess)
    requires
        access_entries(a) == access_entries(b),
    ensures
        opt_chars(a.read) == opt_chars(b.read),
        opt_chars(a.create) == opt_chars(b.create),
        opt_chars(a.update) == opt_chars(b.update),
{
    lemma_access_get_read(a);
    lemma_access_get_read(b);
    lemma_access_get_create(a);
    lemma_access_get_create(b);
    lemma_access_get_update(a);
    lemma_access_get_update(b);
}

#[verifier::rlimit(40)]
proof fn lemma_block_get_type(x: BlockDefinition)
    ensures
        rget(config_block_tree(x)->Record_0, "type"@) == (Some(LuaTree::Str(x.block_type@))),
{
    lemma_spelling_misc();
    lemma_rget_pieces();
    lemma_rget_entries();
}

#[verifier::rlimit(40)]
proof fn lemma_block_get_label(x: BlockDefinition)
    ensures
        rget(config_block_tree(x)->Record_0, "label"@) == (match x.label { Some(l) => Some(localized_tree(l)), None => None }),
{
    lemma_spelling_misc();
    lemma_rget_pieces();
    lemma_rget_entries();
}

#[verifier::rlimit(40)]
proof fn lemma_block_get_label_field(x: BlockDefinition)
    ensures
        rget(config_block_tree(x)->Record_0, "label_field"@) == (match x.label_field { Some(t) => Some(LuaTree::Str(t@)), None => None }),
{
    lemma_spelling_misc();
    lemma_rget_pieces();
    lemma_rget_entries();
}

#[verifier::rlimit(40)]
proof fn lemma_block_get_group(x: BlockDefinition)
    ensures
        rget(config_block_tree(x)->Record_0, "group"@) == (match x.group { Some(t) => Some(LuaTree::Str(t@)), None => None }),
{
    lemma_spelling_misc();
    lemma_rget_pieces();
    lemma_rget_entries();
}

#[verifier::rlimit(40)]
proof fn lemma_block_get_image_url(x: BlockDefinition)
    ensures
        rget(config_block_tree(x)->Record_0, "image_url"@) == (match x.image_url { Some(t) => Some(LuaTree::Str(t@)), None => None }),
{
    lemma_spelling_misc();
    lemma_rget_pieces();
    lemma_rget_entries();
}

#[verifier::rlimit(40)]
proof fn lemma_block_get_fields(x: BlockDefinition)
    ensures
        rget(config_block_tree(x)->Record_0, "fields"@) == (Some(LuaTree::List(config_trees(x.fields@)))),
{
    lemma_spelling_misc();
    lemma_rget_pieces();
    lemma_rget_entries();
}

#[verifier::rlimit(40)]
proof fn lemma_tab_get_label(x: FieldTab)
    ensures
        rget(config_tab_tree(x)->Record_0, "label"@) == (Some(LuaTree::Str(x.label@))),
{
    lemma_spelling_misc();
    lemma_rget_pieces();
    lemma_rget_entries();
}

#[verifier::rlimit(40)]
proof fn lemma_tab_get_description(x: FieldTab)
    ensures
        rget(config_tab_tree(x)->Record_0, "description"@) == (match x.description { Some(t) => Some(LuaTree::Str(t@)), None => None }),
{
    lemma_spelling_misc();
    lemma_rget_pieces();
    lemma_rget_entries();
}

#[verifier::rlimit(40)]
proof fn lemma_tab_get_fields(x: FieldTab)
    ensures
        rget(config_tab_tree(x)->Record_0, "fields"@) == (Some(LuaTree::List(config_trees(x.fields@)))),
{
    lemma_spelling_misc();
    lemma_rget_pieces();
    lemma_rget_entries();
}

#[verifier::rlimit(40)]
proof fn lemma_field_get_name(x: FieldDefinition)
    ensures
        rget(config_tree(x)->Record_0, "name"@) == (Some(LuaTree::Str(x.name@))),
{
    lemma_spelling_top();
    lemma_rget_pieces();
    lemma_rget_entries();
}

#[verifier::rlimit(40)]
proof fn lemma_field_get_type(x: FieldDefinition)
    ensures
        rget(config_tree(x)->Record_0, "type"@) == (Some(LuaTree::Str(field_type_name(x.field_type)))),
{
    lemma_spelling_top();
    lemma_rget_pieces();
    lemma_rget_entries();
}

#[verifier::rlimit(40)]
proof fn lemma_field_get_required(x: FieldDefinition)
    ensures
        rget(config_tree(x)->Record_0, "required"@) == (if x.required { Some(LuaTree::Bool(true)) } else { None }),
{
    lemma_spelling_top();
    lemma_rget_pieces();
    lemma_rget_entries();
}

#[verifier::rlimit(40)]
proof fn lemma_field_get_unique(x: FieldDefinition)
    ensures
        rget(config_tree(x)->Record_0, "unique"@) == (if x.unique { Some(LuaTree::Bool(true)) } else { None }),
{
    lemma_spelling_top();
    lemma_rget_pieces();
    lemma_rget_entries();
}

#[verifier::rlimit(40)]
proof fn lemma_field_get_localized(x: FieldDefinition)
    ensures
        rget(config_tree(x)->Record_0, "localized"@) == (if x.localized { Some(LuaTree::Bool(true)) } else { None }),
{
    lemma_spelling_top();
    lemma_rget_pieces();
    lemma_rget_entries();
}

#[verifier::rlimit(40)]
proof fn lemma_field_get_has_many(x: FieldDefinition)
    ensures
        rget(config_tree(x)->Record_0, "has_many"@) == (if x.has_many { Some(LuaTree::Bool(true)) } else { None }),
{
    lemma_spelling_top();
    lemma_rget_pieces();
    lemma_rget_entries();
}

#[verifier::rlimit(40)]
proof fn lemma_field_get_validate(x: FieldDefinition)
    ensures
        rget(config_tree(x)->Record_0, "validate"@) == (match x.validate { Some(t) => Some(LuaTree::Str(t@)), None => None }),
{
    lemma_spelling_top();
    lemma_rget_pieces();
    lemma_rget_entries();
}

#[verifier::rlimit(40)]
proof fn lemma_field_get_min_length(x: FieldDefinition)
    ensures
        rget(config_tree(x)->Record_0, "min_length"@) == (match x.min_length { Some(n) => Some(LuaTree::UInt(n as nat)), None => None }),
{
    lemma_spelling_top();
    lemma_rget_pieces();
    lemma_rget_entries();
}

#[verifier::rlimit(40)]
proof fn lemma_field_get_max_length(x: FieldDefinition)
    ensures
        rget(config_tree(x)->Record_0, "max_length"@) == (match x.max_length { Some(n) => Some(LuaTree::UInt(n as nat)), None => None }),
{
    lemma_spelling_top();
    lemma_rget_pieces();
    lemma_rget_entries();
}

#[verifier::rlimit(40)]
proof fn lemma_field_get_min_rows(x: FieldDefinition)
    ensures
        rget(config_tree(x)->Record_0, "min_rows"@) == (match x.min_rows { Some(n) => Some(LuaTree::UInt(n as nat)), None => None }),
{
    lemma_spelling_top();
    lemma_rget_pieces();
    lemma_rget_entries();
}

#[verifier::rlimit(40)]
proof fn lemma_field_get_max_rows(x: FieldDefinition)
    ensures
        rget(config_tree(x)->Record_0, "max_rows"@) == (match x.max_rows { Some(n) => Some(LuaTree::UInt(n as nat)), None => None }),
{
    lemma_spelling_top();
    lemma_rget_pieces();
    lemma_rget_entries();
}

#[verifier::rlimit(40)]
proof fn lemma_field_get_min_date(x: FieldDefinition)
    ensures
        rget(config_tree(x)->Record_0, "min_date"@) == (match x.min_date { Some(t) => Some(LuaTree::Str(t@)), None => None }),
{
    lemma_spelling_top();
    lemma_rget_pieces();
    lemma_rget_entries();
}

#[verifier::rlimit(40)]
proof fn lemma_field_get_max_date(x: FieldDefinition)
    ensures
        rget(config_tree(x)->Record_0, "max_date"@) == (match x.max_date { Some(t) => Some(LuaTree::Str(t@)), None => None }),
{
    lemma_spelling_top();
    lemma_rget_pieces();
    lemma_rget_entries();
}

#[verifier::rlimit(40)]
proof fn lemma_field_get_picker_appearance(x: FieldDefinition)
    ensures
        rget(config_tree(x)->Record_0, "picker_appearance"@) == (match x.picker_appearance { Some(t) => Some(LuaTree::Str(t@)), None => None }),
{
    lemma_spelling_top();
    lemma_rget_pieces();
    lemma_rget_entries();
}

#[verifier::rlimit(40)]
proof fn lemma_field_get_options(x: FieldDefinition)
    ensures
        rget(config_tree(x)->Record_0, "options"@) == (if x.options.len() > 0 { Some(config_options_tree(x.options@)) } else { None }),
{
    lemma_spelling_top();
    lemma_rget_pieces();
    lemma_rget_entries();
}

#[verifier::rlimit(40)]
proof fn lemma_field_get_admin(x: FieldDefinition)
    ensures
        rget(config_tree(x)->Record_0, "admin"@) == (if admin_entries(x.admin).len() > 0 { Some(LuaTree::Record(admin_entries(x.admin))) } else { None }),
{
    lemma_spelling_top();
    lemma_rget_pieces();
    lemma_rget_entries();
}

#[verifier::rlimit(40)]
proof fn lemma_field_get_hooks(x: FieldDefinition)
    ensures
        rget(config_tree(x)->Record_0, "hooks"@) == (if hooks_entries(x.hooks).len() > 0 { Some(LuaTree::Record(hooks_entries(x.hooks))) } else { None }),
{
    lemma_spelling_top();
    lemma_rget_pieces();
    lemma_rget_entries();
}

#[verifier::rlimit(40)]
proof fn lemma_field_get_access(x: FieldDefinition)
    ensures
        rget(config_tree(x)->Record_0, "access"@) == (if access_entries(x.access).len() > 0 { Some(LuaTree::Record(access_entries(x.access))) } else { None }),
{
    lemma_spelling_top();
    lemma_rget_pieces();
    lemma_rget_entries();
}

#[verifier::rlimit(40)]
proof fn lemma_field_get_relationship(x: FieldDefinition)
    ensures
        rget(config_tree(x)->Record_0, "relationship"@) == (match x.relationship { Some(rc) => Some(config_relationship_tree(rc)), None => None }),
{
    lemma_spelling_top();
    lemma_rget_pieces();
    lemma_rget_entries();
}

#[verifier::rlimit(40)]
proof fn lemma_field_get_join(x: FieldDefinition)
    ensures
        rget(config_tree(x)->Record_0, "join"@) == (match x.join { Some(j) => Some(LuaTree::Record(seq![("collection"@, LuaTree::Str(j.collection@)), ("on"@, LuaTree::Str(j.on@))])), None => None }),
{
    lemma_spelling_top();
    lemma_rget_pieces();
    lemma_rget_entries();
}

#[verifier::rlimit(40)]
proof fn lemma_field_get_fields(x: FieldDefinition)
    ensures
        rget(config_tree(x)->Record_0, "fields"@) == (if x.fields.len() > 0 { Some(LuaTree::List(config_trees(x.fields@))) } else { None }),
{
    lemma_spelling_top();
    lemma_rget_pieces();
    lemma_rget_entries();
}

#[verifier::rlimit(40)]
proof fn lemma_field_get_blocks(x: FieldDefinition)
    ensures
        rget(config_tree(x)->Record_0, "blocks"@) == (if x.blocks.len() > 0 { Some(LuaTree::List(config_block_trees(x.blocks@))) } else { None }),
{
    lemma_spelling_top();
    lemma_rget_pieces();
    lemma_rget_entries();
}

#[verifier::rlimit(40)]
proof fn lemma_field_get_tabs(x: FieldDefinition)
    ensures
        rget(config_tree(x)->Record_0, "tabs"@) == (if x.tabs.len() > 0 { Some(LuaTree::List(config_tab_trees(x.tabs@))) } else { None }),
{
    lemma_spelling_top();
    lemma_rget_pieces();
    lemma_rget_entries();
}

/// A record entry present only when its entries are not empty tells the entries.
proof fn lemma_record_entry_eq(ea: Seq<(Seq<char>, LuaTree)>, eb: Seq<(Seq<char>, LuaTree)>)
    requires
        (if ea.len() > 0 {
            Some(LuaTree::Record(ea))
        } else {
            None
        }) == (if eb.len() > 0 {
            Some(LuaTree::Record(eb))
        } else {
            None
        }),
    ensures
        ea == eb,
{
    if ea.len() == 0 {
        assert(ea =~= eb);
    }
}

/// The round trip of a field's table: two definitions with the same round-trip table
/// agree on every setting, down through their sub-fields, blocks and tabs. So the table
/// determines the definition, and reading it back can give the definition again.
pub proof fn lemma_field_config_round_trip(f: FieldDefinition, g: FieldDefinition)
    requires
        config_tree(f) == config_tree(g),
    ensures
        same_field(f, g),
    decreases f, 2int,
{
    lemma_field_get_name(f);
    lemma_field_get_name(g);
    lemma_field_get_type(f);
    lemma_field_get_type(g);
    lemma_field_get_required(f);
    lemma_field_get_required(g);
    lemma_field_get_unique(f);
    lemma_field_get_unique(g);
    lemma_field_get_localized(f);
    lemma_field_get_localized(g);
    lemma_field_get_has_many(f);
    lemma_field_get_has_many(g);
    lemma_field_get_validate(f);
    lemma_field_get_validate(g);
    lemma_field_get_min_length(f);
    lemma_field_get_min_length(g);
    lemma_field_get_max_length(f);
    lemma_field_get_max_length(g);
    lemma_field_get_min_rows(f);
    lemma_field_get_min_rows(g);
    lemma_field_get_max_rows(f);
    lemma_field_get_max_rows(g);
    lemma_field_get_min_date(f);
    lemma_field_get_min_date(g);
    lemma_field_get_max_date(f);
    lemma_field_get_max_date(g);
    lemma_field_get_picker_appearance(f);
    lemma_field_get_picker_appearance(g);
    lemma_field_get_options(f);
    lemma_field_get_options(g);
    lemma_field_get_admin(f);
    lemma_field_get_admin(g);
    lemma_field_get_hooks(f);
    lemma_field_get_hooks(g);
    lemma_field_get_access(f);
    lemma_field_get_access(g);
    lemma_field_get_relationship(f);
    lemma_field_get_relationship(g);
    lemma_field_get_join(f);
    lemma_field_get_join(g);
    lemma_field_get_fields(f);
    lemma_field_get_fields(g);
    lemma_field_get_blocks(f);
    lemma_field_get_blocks(g);
    lemma_field_get_tabs(f);
    lemma_field_get_tabs(g);
    lemma_type_name_injective(f.field_type, g.field_type);
    if f.options.len() > 0 {
        lemma_options_injective(f.options@, g.options@);
    }
    lemma_record_entry_eq(admin_entries(f.admin), admin_entries(g.admin));
    lemma_admin_injective(f.admin, g.admin);
    lemma_record_entry_eq(hooks_entries(f.hooks), hooks_entries(g.hooks));
    lemma_hooks_injective(f.hooks, g.hooks);
    lemma_record_entry_eq(access_entries(f.access), access_entries(g.access));
    lemma_access_injective(f.access, g.access);
    match (f.relationship, g.relationship) {
        (Some(x), Some(y)) => lemma_rel_injective(x, y),
        _ => {},
    }
    match (f.join, g.join) {
        (Some(x), Some(y)) => {
            let sx = seq![("collection"@, LuaTree::Str(x.collection@)), ("on"@, LuaTree::Str(x.on@))];
            let sy = seq![("collection"@, LuaTree::Str(y.collection@)), ("on"@, LuaTree::Str(y.on@))];
            assert(sx == sy);
            assert(sx[0] == sy[0] && sx[1] == sy[1]);
        },
        _ => {},
    }
    if f.fields.len() > 0 {
        lemma_fields_round_trip(f.fields@, g.fields@);
    } else {
        assert(same_fields(f.fields@, g.fields@));
    }
    if f.blocks.len() > 0 {
        lemma_blocks_round_trip(f.blocks@, g.blocks@);
    } else {
        assert(same_blocks(f.blocks@, g.blocks@));
    }
    if f.tabs.len() > 0 {
        lemma_tabs_round_trip(f.tabs@, g.tabs@);
    } else {
        assert(same_tabs(f.tabs@, g.tabs@));
    }
}

/// Lists of fields with the same round-trip tables agree field by field.
pub proof fn lemma_fields_round_trip(a: Seq<FieldDefinition>, b: Seq<FieldDefinition>)
    requires
        config_trees(a) == config_trees(b),
    ensures
        same_fields(a, b),
    decreases a, 1int,
{
    assert(a.len() == config_trees(a).len() && b.len() == config_trees(b).len());
    if a.len() > 0 {
        assert(config_trees(a)[0] == config_tree(a[0]));
        assert(config_trees(b)[0] == config_tree(b[0]));
        lemma_field_config_round_trip(a[0], b[0]);
        assert forall|i: int| 0 <= i < a.len() - 1 implies config_trees(a.skip(1))[i] == config_trees(b.skip(1))[i] by {
            assert(config_trees(a)[i + 1] == config_tree(a[i + 1]));
            assert(config_trees(b)[i + 1] == config_tree(b[i + 1]));
        }
        assert(config_trees(a.skip(1)) =~= config_trees(b.skip(1)));
        lemma_fields_round_trip(a.skip(1), b.skip(1));
    }
}

/// Block types with the same round-trip tables agree on every setting.
pub proof fn lemma_block_round_trip(x: BlockDefinition, y: BlockDefinition)
    requires
        config_block_tree(x) == config_block_tree(y),
    ensures
        same_block(x, y),
    decreases x, 2int,
{
    lemma_block_get_type(x);
    lemma_block_get_type(y);
    lemma_block_get_label(x);
    lemma_block_get_label(y);
    lemma_opt_label_get_injective(x.label, y.label);
    lemma_block_get_label_field(x);
    lemma_block_get_label_field(y);
    lemma_block_get_group(x);
    lemma_block_get_group(y);
    lemma_block_get_image_url(x);
    lemma_block_get_image_url(y);
    lemma_block_get_fields(x);
    lemma_block_get_fields(y);
    lemma_fields_round_trip(x.fields@, y.fields@);
}

/// Lists of block types with the same round-trip tables agree block by block.
pub proof fn lemma_blocks_round_trip(a: Seq<BlockDefinition>, b: Seq<BlockDefinition>)
    requires
        config_block_trees(a) == config_block_trees(b),
    ensures
        same_blocks(a, b),
    decreases a, 1int,
{
    assert(a.len() == config_block_trees(a).len() && b.len() == config_block_trees(b).len());
    if a.len() > 0 {
        assert(config_block_trees(a)[0] == config_block_tree(a[0]));
        assert(config_block_trees(b)[0] == config_block_tree(b[0]));
        lemma_block_round_trip(a[0], b[0]);
        assert forall|i: int| 0 <= i < a.len() - 1 implies config_block_trees(a.skip(1))[i] == config_block_trees(
            b.skip(1),
        )[i] by {
            assert(config_block_trees(a)[i + 1] == config_block_tree(a[i + 1]));
            assert(config_block_trees(b)[i + 1] == config_block_tree(b[i + 1]));
        }
        assert(config_block_trees(a.skip(1)) =~= config_block_trees(b.skip(1)));
        lemma_blocks_round_trip(a.skip(1), b.skip(1));
    }
}

/// Tabs with the same round-trip tables agree on every setting.
pub proof fn lemma_tab_round_trip(x: FieldTab, y: FieldTab)
    requires
        config_tab_tree(x) == config_tab_tree(y),
    ensures
        same_tab(x, y),
    decreases x, 2int,
{
    lemma_tab_get_label(x);
    lemma_tab_get_label(y);
    lemma_tab_get_description(x);
    lemma_tab_get_description(y);
    lemma_tab_get_fields(x);
    lemma_tab_get_fields(y);
    lemma_fields_round_trip(x.fields@, y.fields@);
}

/// Lists of tabs with the same round-trip tables agree tab by tab.
pub proof fn lemma_tabs_round_trip(a: Seq<FieldTab>, b: Seq<FieldTab>)
    requires
        config_tab_trees(a) == config_tab_trees(b),
    ensures
        same_tabs(a, b),
    decreases a, 1int,
{
    assert(a.len() == config_tab_trees(a).len() && b.len() == config_tab_trees(b).len());
    if a.len() > 0 {
        assert(config_tab_trees(a)[0] == config_tab_tree(a[0]));
        assert(config_tab_trees(b)[0] == config_tab_tree(b[0]));
        lemma_tab_round_trip(a[0], b[0]);
        assert forall|i: int| 0 <= i < a.len() - 1 implies config_tab_trees(a.skip(1))[i] == config_tab_trees(
            b.skip(1),
        )[i] by {
            assert(config_tab_trees(a)[i + 1] == config_tab_tree(a[i + 1]));
            assert(config_tab_trees(b)[i + 1] == config_tab_tree(b[i + 1]));
        }
        assert(config_tab_trees(a.skip(1)) =~= config_tab_trees(b.skip(1)));
        lemma_tabs_round_trip(a.skip(1), b.skip(1));
    }
}


/// The spelling of the coll keys of the round-trip tables, as far as it tells them
/// apart.
proof fn lemma_spelling_coll()
    ensures
        "labels"@.len() == 6 && "labels"@[0] == 'l' && "labels"@[1] == 'a' && "labels"@[5] == 's',
        "timestamps"@.len() == 10 && "timestamps"@[0] == 't' && "timestamps"@[1] == 'i' && "timestamps"@[6] == 'a' && "timestamps"@[7] == 'm' && "timestamps"@[9] == 's',
        "admin"@.len() == 5 && "admin"@[0] == 'a' && "admin"@[1] == 'd' && "admin"@[4] == 'n',
        "fields"@.len() == 6 && "fields"@[0] == 'f' && "fields"@[1] == 'i' && "fields"@[5] == 's',
        "hooks"@.len() == 5 && "hooks"@[0] == 'h' && "hooks"@[1] == 'o' && "hooks"@[4] == 's',
        "access"@.len() == 6 && "access"@[0] == 'a' && "access"@[1] == 'c' && "access"@[5] == 's',
        "auth"@.len() == 4 && "auth"@[0] == 'a' && "auth"@[1] == 'u' && "auth"@[3] == 'h',
        "upload"@.len() == 6 && "upload"@[0] == 'u' && "upload"@[1] == 'p' && "upload"@[5] == 'd',
        "live"@.len() == 4 && "live"@[0] == 'l' && "live"@[1] == 'i' && "live"@[3] == 'e',
        "versions"@.len() == 8 && "versions"@[0] == 'v' && "versions"@[1] == 'e' && "versions"@[6] == 'n' && "versions"@[7] == 's',
        "singular"@.len() == 8 && "singular"@[0] == 's' && "singular"@[1] == 'i' && "singular"@[6] == 'a' && "singular"@[7] == 'r',
        "plural"@.len() == 6 && "plural"@[0] == 'p' && "plural"@[1] == 'l' && "plural"@[5] == 'l',
        "use_as_title"@.len() == 12 && "use_as_title"@[0] == 'u' && "use_as_title"@[1] == 's' && "use_as_title"@[6] == '_' && "use_as_title"@[7] == 't' && "use_as_title"@[11] == 'e',
        "default_sort"@.len() == 12 && "default_sort"@[0] == 'd' && "default_sort"@[1] == 'e' && "default_sort"@[6] == 't' && "default_sort"@[7] == '_' && "default_sort"@[11] == 't',
        "hidden"@.len() == 6 && "hidden"@[0] == 'h' && "hidden"@[1] == 'i' && "hidden"@[5] == 'n',
        "list_searchable_fields"@.len() == 22 && "list_searchable_fields"@[0] == 'l' && "list_searchable_fields"@[1] == 'i' && "list_searchable_fields"@[6] == 'e' && "list_searchable_fields"@[7] == 'a' && "list_searchable_fields"@[21] == 's',
        "before_validate"@.len() == 15 && "before_validate"@[0] == 'b' && "before_validate"@[1] == 'e' && "before_validate"@[6] == '_' && "before_validate"@[7] == 'v' && "before_validate"@[14] == 'e',
        "before_change"@.len() == 13 && "before_change"@[0] == 'b' && "before_change"@[1] == 'e' && "before_change"@[6] == '_' && "before_change"@[7] == 'c' && "before_change"@[12] == 'e',
        "after_change"@.len() == 12 && "after_change"@[0] == 'a' && "after_change"@[1] == 'f' && "after_change"@[6] == 'c' && "after_change"@[7] == 'h' && "after_change"@[11] == 'e',
        "before_read"@.len() == 11 && "before_read"@[0] == 'b' && "before_read"@[1] == 'e' && "before_read"@[6] == '_' && "before_read"@[7] == 'r' && "before_read"@[10] == 'd',
        "after_read"@.len() == 10 && "after_read"@[0] == 'a' && "after_read"@[1] == 'f' && "after_read"@[6] == 'r' && "after_read"@[7] == 'e' && "after_read"@[9] == 'd',
        "before_delete"@.len() == 13 && "before_delete"@[0] == 'b' && "before_delete"@[1] == 'e' && "before_delete"@[6] == '_' && "before_delete"@[7] == 'd' && "before_delete"@[12] == 'e',
        "after_delete"@.len() == 12 && "after_delete"@[0] == 'a' && "after_delete"@[1] == 'f' && "after_delete"@[6] == 'd' && "after_delete"@[7] == 'e' && "after_delete"@[11] == 'e',
        "before_broadcast"@.len() == 16 && "before_broadcast"@[0] == 'b' && "before_broadcast"@[1] == 'e' && "before_broadcast"@[6] == '_' && "before_broadcast"@[7] == 'b' && "before_broadcast"@[15] == 't',
        "read"@.len() == 4 && "read"@[0] == 'r' && "read"@[1] == 'e' && "read"@[3] == 'd',
        "create"@.len() == 6 && "create"@[0] == 'c' && "create"@[1] == 'r' && "create"@[5] == 'e',
        "update"@.len() == 6 && "update"@[0] == 'u' && "update"@[1] == 'p' && "update"@[5] == 'e',
        "delete"@.len() == 6 && "delete"@[0] == 'd' && "delete"@[1] == 'e' && "delete"@[5] == 'e',
{
    reveal_strlit("labels");
    reveal_strlit("timestamps");
    reveal_strlit("admin");
    reveal_strlit("fields");
    reveal_strlit("hooks");
    reveal_strlit("access");
    reveal_strlit("auth");
    reveal_strlit("upload");
    reveal_strlit("live");
    reveal_strlit("versions");
    reveal_strlit("singular");
    reveal_strlit("plural");
    reveal_strlit("use_as_title");
    reveal_strlit("default_sort");
    reveal_strlit("hidden");
    reveal_strlit("list_searchable_fields");
    reveal_strlit("before_validate");
    reveal_strlit("before_change");
    reveal_strlit("after_change");
    reveal_strlit("before_read");
    reveal_strlit("after_read");
    reveal_strlit("before_delete");
    reveal_strlit("after_delete");
    reveal_strlit("before_broadcast");
    reveal_strlit("read");
    reveal_strlit("create");
    reveal_strlit("update");
    reveal_strlit("delete");
}

/// The spelling of the auth keys of the round-trip tables, as far as it tells them
/// apart.
proof fn lemma_spelling_auth()
    ensures
        "token_expiry"@.len() == 12 && "token_expiry"@[0] == 't' && "token_expiry"@[1] == 'o' && "token_expiry"@[6] == 'e' && "token_expiry"@[7] == 'x' && "token_expiry"@[11] == 'y',
        "disable_local"@.len() == 13 && "disable_local"@[0] == 'd' && "disable_local"@[1] == 'i' && "disable_local"@[6] == 'e' && "disable_local"@[7] == '_' && "disable_local"@[12] == 'l',
        "verify_email"@.len() == 12 && "verify_email"@[0] == 'v' && "verify_email"@[1] == 'e' && "verify_email"@[6] == '_' && "verify_email"@[7] == 'e' && "verify_email"@[11] == 'l',
        "forgot_password"@.len() == 15 && "forgot_password"@[0] == 'f' && "forgot_password"@[1] == 'o' && "forgot_password"@[6] == '_' && "forgot_password"@[7] == 'p' && "forgot_password"@[14] == 'd',
        "strategies"@.len() == 10 && "strategies"@[0] == 's' && "strategies"@[1] == 't' && "strategies"@[6] == 'g' && "strategies"@[7] == 'i' && "strategies"@[9] == 's',
        "name"@.len() == 4 && "name"@[0] == 'n' && "name"@[1] == 'a' && "name"@[3] == 'e',
        "authenticate"@.len() == 12 && "authenticate"@[0] == 'a' && "authenticate"@[1] == 'u' && "authenticate"@[6] == 't' && "authenticate"@[7] == 'i' && "authenticate"@[11] == 'e',
        "mime_types"@.len() == 10 && "mime_types"@[0] == 'm' && "mime_types"@[1] == 'i' && "mime_types"@[6] == 'y' && "mime_types"@[7] == 'p' && "mime_types"@[9] == 's',
        "max_file_size"@.len() == 13 && "max_file_size"@[0] == 'm' && "max_file_size"@[1] == 'a' && "max_file_size"@[6] == 'l' && "max_file_size"@[7] == 'e' && "max_file_size"@[12] == 'e',
        "image_sizes"@.len() == 11 && "image_sizes"@[0] == 'i' && "image_sizes"@[1] == 'm' && "image_sizes"@[6] == 's' && "image_sizes"@[7] == 'i' && "image_sizes"@[10] == 's',
        "admin_thumbnail"@.len() == 15 && "admin_thumbnail"@[0] == 'a' && "admin_thumbnail"@[1] == 'd' && "admin_thumbnail"@[6] == 't' && "admin_thumbnail"@[7] == 'h' && "admin_thumbnail"@[14] == 'l',
        "format_options"@.len() == 14 && "format_options"@[0] == 'f' && "format_options"@[1] == 'o' && "format_options"@[6] == '_' && "format_options"@[7] == 'o' && "format_options"@[13] == 's',
        "webp"@.len() == 4 && "webp"@[0] == 'w' && "webp"@[1] == 'e' && "webp"@[3] == 'p',
        "avif"@.len() == 4 && "avif"@[0] == 'a' && "avif"@[1] == 'v' && "avif"@[3] == 'f',
        "quality"@.len() == 7 && "quality"@[0] == 'q' && "quality"@[1] == 'u' && "quality"@[6] == 'y',
        "width"@.len() == 5 && "width"@[0] == 'w' && "width"@[1] == 'i' && "width"@[4] == 'h',
        "height"@.len() == 6 && "height"@[0] == 'h' && "height"@[1] == 'e' && "height"@[5] == 't',
        "fit"@.len() == 3 && "fit"@[0] == 'f' && "fit"@[1] == 'i' && "fit"@[2] == 't',
        "drafts"@.len() == 6 && "drafts"@[0] == 'd' && "drafts"@[1] == 'r' && "drafts"@[5] == 's',
        "max_versions"@.len() == 12 && "max_versions"@[0] == 'm' && "max_versions"@[1] == 'a' && "max_versions"@[6] == 'r' && "max_versions"@[7] == 's' && "max_versions"@[11] == 's',
        "cover"@.len() == 5 && "cover"@[0] == 'c' && "cover"@[1] == 'o' && "cover"@[4] == 'r',
        "contain"@.len() == 7 && "contain"@[0] == 'c' && "contain"@[1] == 'o' && "contain"@[6] == 'n',
        "inside"@.len() == 6 && "inside"@[0] == 'i' && "inside"@[1] == 'n' && "inside"@[5] == 'e',
        "fill"@.len() == 4 && "fill"@[0] == 'f' && "fill"@[1] == 'i' && "fill"@[3] == 'l',
{
    reveal_strlit("token_expiry");
    reveal_strlit("disable_local");
    reveal_strlit("verify_email");
    reveal_strlit("forgot_password");
    reveal_strlit("strategies");
    reveal_strlit("name");
    reveal_strlit("authenticate");
    reveal_strlit("mime_types");
    reveal_strlit("max_file_size");
    reveal_strlit("image_sizes");
    reveal_strlit("admin_thumbnail");
    reveal_strlit("format_options");
    reveal_strlit("webp");
    reveal_strlit("avif");
    reveal_strlit("quality");
    reveal_strlit("width");
    reveal_strlit("height");
    reveal_strlit("fit");
    reveal_strlit("drafts");
    reveal_strlit("max_versions");
    reveal_strlit("cover");
    reveal_strlit("contain");
    reveal_strlit("inside");
    reveal_strlit("fill");
}


// ---------------------------------------------------------------------------
// Collections
// ---------------------------------------------------------------------------

/// Auth is on when it is set and enabled.
pub open spec fn auth_on(o: Option<CollectionAuth>) -> bool {
    o matches Some(a) && a.enabled
}

/// Two auth settings that act the same: both off, or both on with the same settings.
pub open spec fn same_auth(a: Option<CollectionAuth>, b: Option<CollectionAuth>) -> bool {
    if !auth_on(a) || !auth_on(b) {
        auth_on(a) == auth_on(b)
    } else {
        let x = a->0;
        let y = b->0;
        &&& x.token_expiry == y.token_expiry
        &&& x.disable_local == y.disable_local
        &&& x.verify_email == y.verify_email
        &&& x.forgot_password == y.forgot_password
        &&& x.strategies@.map_values(|s: AuthStrategy| (s.name@, s.authenticate@)) == y.strategies@.map_values(
            |s: AuthStrategy| (s.name@, s.authenticate@),
        )
    }
}

/// Uploads are on when they are set and enabled.
pub open spec fn upload_on(o: Option<CollectionUpload>) -> bool {
    o matches Some(u) && u.enabled
}

/// Two upload settings that act the same: both off, or both on with the same settings.
pub open spec fn same_upload(a: Option<CollectionUpload>, b: Option<CollectionUpload>) -> bool {
    if !upload_on(a) || !upload_on(b) {
        upload_on(a) == upload_on(b)
    } else {
        let x = a->0;
        let y = b->0;
        &&& strs_of(x.mime_types@) == strs_of(y.mime_types@)
        &&& x.max_file_size == y.max_file_size
        &&& x.image_sizes@.map_values(|s: ImageSize| (s.name@, s.width, s.height, s.fit))
            == y.image_sizes@.map_values(|s: ImageSize| (s.name@, s.width, s.height, s.fit))
        &&& opt_chars(x.admin_thumbnail) == opt_chars(y.admin_thumbnail)
        &&& x.format_options.webp == y.format_options.webp
        &&& x.format_options.avif == y.format_options.avif
    }
}

/// Two live settings that agree.
pub open spec fn same_live(a: Option<LiveSetting>, b: Option<LiveSetting>) -> bool {
    match (a, b) {
        (None, None) => true,
        (Some(LiveSetting::Disabled), Some(LiveSetting::Disabled)) => true,
        (Some(LiveSetting::Function(x)), Some(LiveSetting::Function(y))) => x@ == y@,
        _ => false,
    }
}

/// Two collection definitions that agree on every setting the round-trip table holds
/// (all but the slug, which `define` takes apart from the table). Auth and upload
/// settings count only while they are enabled.
pub open spec fn same_collection(a: CollectionDefinition, b: CollectionDefinition) -> bool {
    &&& same_opt_label(a.labels.singular, b.labels.singular)
    &&& same_opt_label(a.labels.plural, b.labels.plural)
    &&& a.timestamps == b.timestamps
    &&& opt_chars(a.admin.use_as_title) == opt_chars(b.admin.use_as_title)
    &&& opt_chars(a.admin.default_sort) == opt_chars(b.admin.default_sort)
    &&& a.admin.hidden == b.admin.hidden
    &&& strs_of(a.admin.list_searchable_fields@) == strs_of(b.admin.list_searchable_fields@)
    &&& same_fields(a.fields@, b.fields@)
    &&& strs_of(a.hooks.before_validate@) == strs_of(b.hooks.before_validate@)
    &&& strs_of(a.hooks.before_change@) == strs_of(b.hooks.before_change@)
    &&& strs_of(a.hooks.after_change@) == strs_of(b.hooks.after_change@)
    &&& strs_of(a.hooks.before_read@) == strs_of(b.hooks.before_read@)
    &&& strs_of(a.hooks.after_read@) == strs_of(b.hooks.after_read@)
    &&& strs_of(a.hooks.before_delete@) == strs_of(b.hooks.before_delete@)
    &&& strs_of(a.hooks.after_delete@) == strs_of(b.hooks.after_delete@)
    &&& strs_of(a.hooks.before_broadcast@) == strs_of(b.hooks.before_broadcast@)
    &&& opt_chars(a.access.read) == opt_chars(b.access.read)
    &&& opt_chars(a.access.create) == opt_chars(b.access.create)
    &&& opt_chars(a.access.update) == opt_chars(b.access.update)
    &&& opt_chars(a.access.delete) == opt_chars(b.access.delete)
    &&& same_auth(a.auth, b.auth)
    &&& same_upload(a.upload, b.upload)
    &&& same_live(a.live, b.live)
    &&& a.versions == b.versions
}

/// How lookups go through the entries of a collection's table.
proof fn lemma_rget_coll_entries()
    ensures
        forall|o: Option<CollectionAuth>, k: Seq<char>|
            #[trigger] rget(auth_entry(o), k) == if "auth"@ == k && auth_on(o) {
                Some(auth_tree(o->0))
            } else {
                None
            },
        forall|o: Option<CollectionUpload>, k: Seq<char>|
            #[trigger] rget(upload_entry(o), k) == if "upload"@ == k && upload_on(o) {
                Some(upload_tree(o->0))
            } else {
                None
            },
        forall|o: Option<VersionsConfig>, k: Seq<char>|
            #[trigger] rget(versions_entry(o), k) == if "versions"@ == k && o is Some {
                Some(versions_entry(o)[0].1)
            } else {
                None
            },
        forall|k2: Seq<char>, o: Option<FormatQuality>, k: Seq<char>|
            #[trigger] rget(quality_entry(k2, o), k) == if k2 == k {
                match o {
                    Some(q) => Some(LuaTree::Record(seq![("quality"@, LuaTree::Int(q.quality as int))])),
                    None => None,
                }
            } else {
                None
            },
{
    lemma_rget_pieces();
    lemma_rget_entries();
}

#[verifier::rlimit(40)]
proof fn lemma_coll_get_labels(x: CollectionDefinition)
    ensures
        rget(collection_config_tree(x)->Record_0, "labels"@) == (Some(labels_tree(x.labels))),
{
    lemma_spelling_coll();
    lemma_rget_pieces();
    lemma_rget_entries();
    lemma_rget_coll_entries();
}

#[verifier::rlimit(40)]
proof fn lemma_coll_get_timestamps(x: CollectionDefinition)
    ensures
        rget(collection_config_tree(x)->Record_0, "timestamps"@) == (Some(LuaTree::Bool(x.timestamps))),
{
    lemma_spelling_coll();
    lemma_rget_pieces();
    lemma_rget_entries();
    lemma_rget_coll_entries();
}

#[verifier::rlimit(40)]
proof fn lemma_coll_get_admin(x: CollectionDefinition)
    ensures
        rget(collection_config_tree(x)->Record_0, "admin"@) == (Some(LuaTree::Record(collection_admin_entries(x.admin)))),
{
    lemma_spelling_coll();
    lemma_rget_pieces();
    lemma_rget_entries();
    lemma_rget_coll_entries();
}

#[verifier::rlimit(40)]
proof fn lemma_coll_get_fields(x: CollectionDefinition)
    ensures
        rget(collection_config_tree(x)->Record_0, "fields"@) == (Some(LuaTree::List(config_trees(x.fields@)))),
{
    lemma_spelling_coll();
    lemma_rget_pieces();
    lemma_rget_entries();
    lemma_rget_coll_entries();
}

#[verifier::rlimit(40)]
proof fn lemma_coll_get_hooks(x: CollectionDefinition)
    ensures
        rget(collection_config_tree(x)->Record_0, "hooks"@) == (Some(LuaTree::Record(collection_hooks_entries(x.hooks)))),
{
    lemma_spelling_coll();
    lemma_rget_pieces();
    lemma_rget_entries();
    lemma_rget_coll_entries();
}

#[verifier::rlimit(40)]
proof fn lemma_coll_get_access(x: CollectionDefinition)
    ensures
        rget(collection_config_tree(x)->Record_0, "access"@) == (Some(LuaTree::Record(collection_access_entries(x.access)))),
{
    lemma_spelling_coll();
    lemma_rget_pieces();
    lemma_rget_entries();
    lemma_rget_coll_entries();
}

#[verifier::rlimit(40)]
proof fn lemma_coll_get_auth(x: CollectionDefinition)
    ensures
        rget(collection_config_tree(x)->Record_0, "auth"@) == (if auth_on(x.auth) { Some(auth_tree(x.auth->0)) } else { None }),
{
    lemma_spelling_coll();
    lemma_rget_pieces();
    lemma_rget_entries();
    lemma_rget_coll_entries();
}

#[verifier::rlimit(40)]
proof fn lemma_coll_get_upload(x: CollectionDefinition)
    ensures
        rget(collection_config_tree(x)->Record_0, "upload"@) == (if upload_on(x.upload) { Some(upload_tree(x.upload->0)) } else { None }),
{
    lemma_spelling_coll();
    lemma_rget_pieces();
    lemma_rget_entries();
    lemma_rget_coll_entries();
}

#[verifier::rlimit(40)]
proof fn lemma_coll_get_live(x: CollectionDefinition)
    ensures
        rget(collection_config_tree(x)->Record_0, "live"@) == (Some(live_tree(x.live))),
{
    lemma_spelling_coll();
    lemma_rget_pieces();
    lemma_rget_entries();
    lemma_rget_coll_entries();
}

#[verifier::rlimit(40)]
proof fn lemma_coll_get_versions(x: CollectionDefinition)
    ensures
        rget(collection_config_tree(x)->Record_0, "versions"@) == (if x.versions is Some { Some(versions_entry(x.versions)[0].1) } else { None }),
{
    lemma_spelling_coll();
    lemma_rget_pieces();
    lemma_rget_entries();
    lemma_rget_coll_entries();
}

#[verifier::rlimit(40)]
proof fn lemma_labels_get_singular(x: CollectionLabels)
    ensures
        rget(labels_tree(x)->Record_0, "singular"@) == (match x.singular { Some(l) => Some(localized_tree(l)), None => None }),
{
    lemma_spelling_coll();
    lemma_rget_pieces();
    lemma_rget_entries();
    lemma_rget_coll_entries();
}

#[verifier::rlimit(40)]
proof fn lemma_labels_get_plural(x: CollectionLabels)
    ensures
        rget(labels_tree(x)->Record_0, "plural"@) == (match x.plural { Some(l) => Some(localized_tree(l)), None => None }),
{
    lemma_spelling_coll();
    lemma_rget_pieces();
    lemma_rget_entries();
    lemma_rget_coll_entries();
}

#[verifier::rlimit(40)]
proof fn lemma_cadmin_get_use_as_title(x: AdminConfig)
    ensures
        rget(collection_admin_entries(x), "use_as_title"@) == (match x.use_as_title { Some(t) => Some(LuaTree::Str(t@)), None => None }),
{
    lemma_spelling_coll();
    lemma_rget_pieces();
    lemma_rget_entries();
    lemma_rget_coll_entries();
}

#[verifier::rlimit(40)]
proof fn lemma_cadmin_get_default_sort(x: AdminConfig)
    ensures
        rget(collection_admin_entries(x), "default_sort"@) == (match x.default_sort { Some(t) => Some(LuaTree::Str(t@)), None => None }),
{
    lemma_spelling_coll();
    lemma_rget_pieces();
    lemma_rget_entries();
    lemma_rget_coll_entries();
}

#[verifier::rlimit(40)]
proof fn lemma_cadmin_get_hidden(x: AdminConfig)
    ensures
        rget(collection_admin_entries(x), "hidden"@) == (if x.hidden { Some(LuaTree::Bool(true)) } else { None }),
{
    lemma_spelling_coll();
    lemma_rget_pieces();
    lemma_rget_entries();
    lemma_rget_coll_entries();
}

#[verifier::rlimit(40)]
proof fn lemma_cadmin_get_list_searchable_fields(x: AdminConfig)
    ensures
        rget(collection_admin_entries(x), "list_searchable_fields"@) == (if x.list_searchable_fields.len() > 0 { Some(str_list_tree(x.list_searchable_fields@)) } else { None }),
{
    lemma_spelling_coll();
    lemma_rget_pieces();
    lemma_rget_entries();
    lemma_rget_coll_entries();
}

#[verifier::rlimit(40)]
proof fn lemma_chooks_get_before_validate(x: CollectionHooks)
    ensures
        rget(collection_hooks_entries(x), "before_validate"@) == (if x.before_validate.len() > 0 { Some(str_list_tree(x.before_validate@)) } else { None }),
{
    lemma_spelling_coll();
    lemma_rget_pieces();
    lemma_rget_entries();
    lemma_rget_coll_entries();
}

#[verifier::rlimit(40)]
proof fn lemma_chooks_get_before_change(x: CollectionHooks)
    ensures
        rget(collection_hooks_entries(x), "before_change"@) == (if x.before_change.len() > 0 { Some(str_list_tree(x.before_change@)) } else { None }),
{
    lemma_spelling_coll();
    lemma_rget_pieces();
    lemma_rget_entries();
    lemma_rget_coll_entries();
}

#[verifier::rlimit(40)]
proof fn lemma_chooks_get_after_change(x: CollectionHooks)
    ensures
        rget(collection_hooks_entries(x), "after_change"@) == (if x.after_change.len() > 0 { Some(str_list_tree(x.after_change@)) } else { None }),
{
    lemma_spelling_coll();
    lemma_rget_pieces();
    lemma_rget_entries();
    lemma_rget_coll_entries();
}

#[verifier::rlimit(40)]
proof fn lemma_chooks_get_before_read(x: CollectionHooks)
    ensures
        rget(collection_hooks_entries(x), "before_read"@) == (if x.before_read.len() > 0 { Some(str_list_tree(x.before_read@)) } else { None }),
{
    lemma_spelling_coll();
    lemma_rget_pieces();
    lemma_rget_entries();
    lemma_rget_coll_entries();
}

#[verifier::rlimit(40)]
proof fn lemma_chooks_get_after_read(x: CollectionHooks)
    ensures
        rget(collection_hooks_entries(x), "after_read"@) == (if x.after_read.len() > 0 { Some(str_list_tree(x.after_read@)) } else { None }),
{
    lemma_spelling_coll();
    lemma_rget_pieces();
    lemma_rget_entries();
    lemma_rget_coll_entries();
}

#[verifier::rlimit(40)]
proof fn lemma_chooks_get_before_delete(x: CollectionHooks)
    ensures
        rget(collection_hooks_entries(x), "before_delete"@) == (if x.before_delete.len() > 0 { Some(str_list_tree(x.before_delete@)) } else { None }),
{
    lemma_spelling_coll();
    lemma_rget_pieces();
    lemma_rget_entries();
    lemma_rget_coll_entries();
}

#[verifier::rlimit(40)]
proof fn lemma_chooks_get_after_delete(x: CollectionHooks)
    ensures
        rget(collection_hooks_entries(x), "after_delete"@) == (if x.after_delete.len() > 0 { Some(str_list_tree(x.after_delete@)) } else { None }),
{
    lemma_spelling_coll();
    lemma_rget_pieces();
    lemma_rget_entries();
    lemma_rget_coll_entries();
}

#[verifier::rlimit(40)]
proof fn lemma_chooks_get_before_broadcast(x: CollectionHooks)
    ensures
        rget(collection_hooks_entries(x), "before_broadcast"@) == (if x.before_broadcast.len() > 0 { Some(str_list_tree(x.before_broadcast@)) } else { None }),
{
    lemma_spelling_coll();
    lemma_rget_pieces();
    lemma_rget_entries();
    lemma_rget_coll_entries();
}

#[verifier::rlimit(40)]
proof fn lemma_caccess_get_read(x: CollectionAccess)
    ensures
        rget(collection_access_entries(x), "read"@) == (match x.read { Some(t) => Some(LuaTree::Str(t@)), None => None }),
{
    lemma_spelling_coll();
    lemma_rget_pieces();
    lemma_rget_entries();
    lemma_rget_coll_entries();
}

#[verifier::rlimit(40)]
proof fn lemma_caccess_get_create(x: CollectionAccess)
    ensures
        rget(collection_access_entries(x), "create"@) == (match x.create { Some(t) => Some(LuaTree::Str(t@)), None => None }),
{
    lemma_spelling_coll();
    lemma_rget_pieces();
    lemma_rget_entries();
    lemma_rget_coll_entries();
}

#[verifier::rlimit(40)]
proof fn lemma_caccess_get_update(x: CollectionAccess)
    ensures
        rget(collection_access_entries(x), "update"@) == (match x.update { Some(t) => Some(LuaTree::Str(t@)), None => None }),
{
    lemma_spelling_coll();
    lemma_rget_pieces();
    lemma_rget_entries();
    lemma_rget_coll_entries();
}

#[verifier::rlimit(40)]
proof fn lemma_caccess_get_delete(x: CollectionAccess)
    ensures
        rget(collection_access_entries(x), "delete"@) == (match x.delete { Some(t) => Some(LuaTree::Str(t@)), None => None }),
{
    lemma_spelling_coll();
    lemma_rget_pieces();
    lemma_rget_entries();
    lemma_rget_coll_entries();
}

#[verifier::rlimit(40)]
proof fn lemma_auth_get_token_expiry(x: CollectionAuth)
    requires
        !default_auth(x),
    ensures
        rget(auth_tree(x)->Record_0, "token_expiry"@) == (Some(LuaTree::UInt(x.token_expiry as nat))),
{
    lemma_spelling_auth();
    lemma_rget_pieces();
    lemma_rget_entries();
    lemma_rget_coll_entries();
}

#[verifier::rlimit(40)]
proof fn lemma_auth_get_disable_local(x: CollectionAuth)
    requires
        !default_auth(x),
    ensures
        rget(auth_tree(x)->Record_0, "disable_local"@) == (if x.disable_local { Some(LuaTree::Bool(true)) } else { None }),
{
    lemma_spelling_auth();
    lemma_rget_pieces();
    lemma_rget_entries();
    lemma_rget_coll_entries();
}

#[verifier::rlimit(40)]
proof fn lemma_auth_get_verify_email(x: CollectionAuth)
    requires
        !default_auth(x),
    ensures
        rget(auth_tree(x)->Record_0, "verify_email"@) == (if x.verify_email { Some(LuaTree::Bool(true)) } else { None }),
{
    lemma_spelling_auth();
    lemma_rget_pieces();
    lemma_rget_entries();
    lemma_rget_coll_entries();
}

#[verifier::rlimit(40)]
proof fn lemma_auth_get_forgot_password(x: CollectionAuth)
    requires
        !default_auth(x),
    ensures
        rget(auth_tree(x)->Record_0, "forgot_password"@) == (if !x.forgot_password { Some(LuaTree::Bool(false)) } else { None }),
{
    lemma_spelling_auth();
    lemma_rget_pieces();
    lemma_rget_entries();
    lemma_rget_coll_entries();
}

#[verifier::rlimit(40)]
proof fn lemma_auth_get_strategies(x: CollectionAuth)
    requires
        !default_auth(x),
    ensures
        rget(auth_tree(x)->Record_0, "strategies"@) == (if x.strategies.len() > 0 { Some(strategies_tree(x.strategies@)) } else { None }),
{
    lemma_spelling_auth();
    lemma_rget_pieces();
    lemma_rget_entries();
    lemma_rget_coll_entries();
}

#[verifier::rlimit(40)]
proof fn lemma_upload_get_mime_types(x: CollectionUpload)
    requires
        !plain_upload(x),
    ensures
        rget(upload_tree(x)->Record_0, "mime_types"@) == (if x.mime_types.len() > 0 { Some(str_list_tree(x.mime_types@)) } else { None }),
{
    lemma_spelling_auth();
    lemma_rget_pieces();
    lemma_rget_entries();
    lemma_rget_coll_entries();
}

#[verifier::rlimit(40)]
proof fn lemma_upload_get_max_file_size(x: CollectionUpload)
    requires
        !plain_upload(x),
    ensures
        rget(upload_tree(x)->Record_0, "max_file_size"@) == (match x.max_file_size { Some(n) => Some(LuaTree::UInt(n as nat)), None => None }),
{
    lemma_spelling_auth();
    lemma_rget_pieces();
    lemma_rget_entries();
    lemma_rget_coll_entries();
}

#[verifier::rlimit(40)]
proof fn lemma_upload_get_image_sizes(x: CollectionUpload)
    requires
        !plain_upload(x),
    ensures
        rget(upload_tree(x)->Record_0, "image_sizes"@) == (if x.image_sizes.len() > 0 { Some(image_sizes_tree(x.image_sizes@)) } else { None }),
{
    lemma_spelling_auth();
    lemma_rget_pieces();
    lemma_rget_entries();
    lemma_rget_coll_entries();
}

#[verifier::rlimit(40)]
proof fn lemma_upload_get_admin_thumbnail(x: CollectionUpload)
    requires
        !plain_upload(x),
    ensures
        rget(upload_tree(x)->Record_0, "admin_thumbnail"@) == (match x.admin_thumbnail { Some(t) => Some(LuaTree::Str(t@)), None => None }),
{
    lemma_spelling_auth();
    lemma_rget_pieces();
    lemma_rget_entries();
    lemma_rget_coll_entries();
}

#[verifier::rlimit(40)]
proof fn lemma_upload_get_format_options(x: CollectionUpload)
    requires
        !plain_upload(x),
    ensures
        rget(upload_tree(x)->Record_0, "format_options"@) == (if x.format_options.webp is Some || x.format_options.avif is Some { Some(LuaTree::Record(quality_entry("webp"@, x.format_options.webp) + quality_entry("avif"@, x.format_options.avif))) } else { None }),
{
    lemma_spelling_auth();
    lemma_rget_pieces();
    lemma_rget_entries();
    lemma_rget_coll_entries();
}

#[verifier::rlimit(40)]
proof fn lemma_formats_get_webp(x: FormatOptions)
    ensures
        rget(quality_entry("webp"@, x.webp) + quality_entry("avif"@, x.avif), "webp"@) == (match x.webp { Some(q) => Some(LuaTree::Record(seq![("quality"@, LuaTree::Int(q.quality as int))])), None => None }),
{
    lemma_spelling_auth();
    lemma_rget_pieces();
    lemma_rget_entries();
    lemma_rget_coll_entries();
}

#[verifier::rlimit(40)]
proof fn lemma_formats_get_avif(x: FormatOptions)
    ensures
        rget(quality_entry("webp"@, x.webp) + quality_entry("avif"@, x.avif), "avif"@) == (match x.avif { Some(q) => Some(LuaTree::Record(seq![("quality"@, LuaTree::Int(q.quality as int))])), None => None }),
{
    lemma_spelling_auth();
    lemma_rget_pieces();
    lemma_rget_entries();
    lemma_rget_coll_entries();
}

#[verifier::rlimit(40)]
proof fn lemma_versions_get_drafts(x: VersionsConfig)
    requires
        !(x.drafts && x.max_versions == 0),
    ensures
        rget(versions_entry(Some(x))[0].1->Record_0, "drafts"@) == (Some(LuaTree::Bool(x.drafts))),
{
    lemma_spelling_auth();
    lemma_rget_pieces();
    lemma_rget_entries();
    lemma_rget_coll_entries();
}

#[verifier::rlimit(40)]
proof fn lemma_versions_get_max_versions(x: VersionsConfig)
    requires
        !(x.drafts && x.max_versions == 0),
    ensures
        rget(versions_entry(Some(x))[0].1->Record_0, "max_versions"@) == (if x.max_versions > 0 { Some(LuaTree::Int(x.max_versions as int)) } else { None }),
{
    lemma_spelling_auth();
    lemma_rget_pieces();
    lemma_rget_entries();
    lemma_rget_coll_entries();
}

proof fn lemma_fit_injective(a: ImageFit, b: ImageFit)
    requires
        fit_name(a) == fit_name(b),
    ensures
        a == b,
{
    lemma_spelling_auth();
}

proof fn lemma_strategies_injective(a: Seq<AuthStrategy>, b: Seq<AuthStrategy>)
    requires
        strategies_tree(a) == strategies_tree(b),
    ensures
        a.map_values(|s: AuthStrategy| (s.name@, s.authenticate@)) == b.map_values(
            |s: AuthStrategy| (s.name@, s.authenticate@),
        ),
{
    let ta = strategies_tree(a)->List_0;
    let tb = strategies_tree(b)->List_0;
    assert(a.len() == ta.len() && b.len() == tb.len());
    let va = a.map_values(|s: AuthStrategy| (s.name@, s.authenticate@));
    let vb = b.map_values(|s: AuthStrategy| (s.name@, s.authenticate@));
    assert forall|i: int| 0 <= i < va.len() implies va[i] == vb[i] by {
        let ra = ta[i]->Record_0;
        let rb = tb[i]->Record_0;
        assert(ra == seq![("name"@, LuaTree::Str(a[i].name@)), ("authenticate"@, LuaTree::Str(a[i].authenticate@))]);
        assert(rb == seq![("name"@, LuaTree::Str(b[i].name@)), ("authenticate"@, LuaTree::Str(b[i].authenticate@))]);
        assert(ra[0] == rb[0] && ra[1] == rb[1]);
    }
    assert(va =~= vb);
}

proof fn lemma_image_sizes_injective(a: Seq<ImageSize>, b: Seq<ImageSize>)
    requires
        image_sizes_tree(a) == image_sizes_tree(b),
    ensures
        a.map_values(|s: ImageSize| (s.name@, s.width, s.height, s.fit)) == b.map_values(
            |s: ImageSize| (s.name@, s.width, s.height, s.fit),
        ),
{
    let ta = image_sizes_tree(a)->List_0;
    let tb = image_sizes_tree(b)->List_0;
    assert(a.len() == ta.len() && b.len() == tb.len());
    let va = a.map_values(|s: ImageSize| (s.name@, s.width, s.height, s.fit));
    let vb = b.map_values(|s: ImageSize| (s.name@, s.width, s.height, s.fit));
    assert forall|i: int| 0 <= i < va.len() implies va[i] == vb[i] by {
        assert(ta[i] == image_size_tree(a[i]));
        assert(tb[i] == image_size_tree(b[i]));
        let ra = ta[i]->Record_0;
        let rb = tb[i]->Record_0;
        assert(ra[0] == rb[0] && ra[1] == rb[1] && ra[2] == rb[2] && ra[3] == rb[3]);
        lemma_fit_injective(a[i].fit, b[i].fit);
    }
    assert(va =~= vb);
}

/// Enabled auth settings are told apart by their tables.
proof fn lemma_auth_round_trip(a: Option<CollectionAuth>, b: Option<CollectionAuth>)
    requires
        (if auth_on(a) {
            Some(auth_tree(a->0))
        } else {
            None
        }) == (if auth_on(b) {
            Some(auth_tree(b->0))
        } else {
            None
        }),
    ensures
        same_auth(a, b),
{
    if auth_on(a) && auth_on(b) {
        let x = a->0;
        let y = b->0;
        if default_auth(x) && default_auth(y) {
            assert(x.strategies@.map_values(|s: AuthStrategy| (s.name@, s.authenticate@)) =~= y.strategies@.map_values(
                |s: AuthStrategy| (s.name@, s.authenticate@),
            ));
        } else if !default_auth(x) && !default_auth(y) {
            lemma_auth_get_token_expiry(x);
            lemma_auth_get_token_expiry(y);
            lemma_auth_get_disable_local(x);
            lemma_auth_get_disable_local(y);
            lemma_auth_get_verify_email(x);
            lemma_auth_get_verify_email(y);
            lemma_auth_get_forgot_password(x);
            lemma_auth_get_forgot_password(y);
            lemma_auth_get_strategies(x);
            lemma_auth_get_strategies(y);
            if x.strategies.len() > 0 {
                lemma_strategies_injective(x.strategies@, y.strategies@);
            } else {
                assert(x.strategies@.map_values(|s: AuthStrategy| (s.name@, s.authenticate@)) =~= y.strategies@.map_values(
                    |s: AuthStrategy| (s.name@, s.authenticate@),
                ));
            }
        }
    }
}

proof fn lemma_quality_option_injective(a: Option<FormatQuality>, b: Option<FormatQuality>)
    requires
        (match a {
            Some(q) => Some(LuaTree::Record(seq![("quality"@, LuaTree::Int(q.quality as int))])),
            None => None,
        }) == (match b {
            Some(q) => Some(LuaTree::Record(seq![("quality"@, LuaTree::Int(q.quality as int))])),
            None => None,
        }),
    ensures
        a == b,
{
    match (a, b) {
        (Some(p), Some(q)) => {
            let sp = seq![("quality"@, LuaTree::Int(p.quality as int))];
            let sq = seq![("quality"@, LuaTree::Int(q.quality as int))];
            assert(sp == sq);
            assert(sp[0] == sq[0]);
            assert(p.quality == q.quality);
        },
        _ => {},
    }
}

/// Enabled upload settings are told apart by their tables.
proof fn lemma_upload_round_trip(a: Option<CollectionUpload>, b: Option<CollectionUpload>)
    requires
        (if upload_on(a) {
            Some(upload_tree(a->0))
        } else {
            None
        }) == (if upload_on(b) {
            Some(upload_tree(b->0))
        } else {
            None
        }),
    ensures
        same_upload(a, b),
{
    if upload_on(a) && upload_on(b) {
        let x = a->0;
        let y = b->0;
        if plain_upload(x) && plain_upload(y) {
            assert(strs_of(x.mime_types@) =~= strs_of(y.mime_types@));
            assert(x.image_sizes@.map_values(|s: ImageSize| (s.name@, s.width, s.height, s.fit))
                =~= y.image_sizes@.map_values(|s: ImageSize| (s.name@, s.width, s.height, s.fit)));
        } else if !plain_upload(x) && !plain_upload(y) {
            lemma_upload_get_mime_types(x);
            lemma_upload_get_mime_types(y);
            lemma_list_entry_injective(x.mime_types@, y.mime_types@);
            lemma_upload_get_max_file_size(x);
            lemma_upload_get_max_file_size(y);
            lemma_upload_get_image_sizes(x);
            lemma_upload_get_image_sizes(y);
            if x.image_sizes.len() > 0 {
                lemma_image_sizes_injective(x.image_sizes@, y.image_sizes@);
            } else {
                assert(x.image_sizes@.map_values(|s: ImageSize| (s.name@, s.width, s.height, s.fit))
                    =~= y.image_sizes@.map_values(|s: ImageSize| (s.name@, s.width, s.height, s.fit)));
            }
            lemma_upload_get_admin_thumbnail(x);
            lemma_upload_get_admin_thumbnail(y);
            lemma_upload_get_format_options(x);
            lemma_upload_get_format_options(y);
            lemma_formats_get_webp(x.format_options);
            lemma_formats_get_webp(y.format_options);
            lemma_formats_get_avif(x.format_options);
            lemma_formats_get_avif(y.format_options);
            if x.format_options.webp is Some || x.format_options.avif is Some {
                let qx = quality_entry("webp"@, x.format_options.webp) + quality_entry("avif"@, x.format_options.avif);
                let qy = quality_entry("webp"@, y.format_options.webp) + quality_entry("avif"@, y.format_options.avif);
                assert(qx == qy);
                assert(rget(qx, "webp"@) == rget(qy, "webp"@));
                assert(rget(qx, "avif"@) == rget(qy, "avif"@));
                lemma_quality_option_injective(x.format_options.webp, y.format_options.webp);
                lemma_quality_option_injective(x.format_options.avif, y.format_options.avif);
            }
        }
    }
}

/// Versioning settings are told apart by their entries.
proof fn lemma_versions_round_trip(a: Option<VersionsConfig>, b: Option<VersionsConfig>)
    requires
        (if a is Some {
            Some(versions_entry(a)[0].1)
        } else {
            None
        }) == (if b is Some {
            Some(versions_entry(b)[0].1)
        } else {
            None
        }),
    ensures
        a == b,
{
    if a is Some && b is Some {
        let x = a->0;
        let y = b->0;
        if !(x.drafts && x.max_versions == 0) && !(y.drafts && y.max_versions == 0) {
            lemma_versions_get_drafts(x);
            lemma_versions_get_drafts(y);
            lemma_versions_get_max_versions(x);
            lemma_versions_get_max_versions(y);
        }
    }
}

/// The round trip of a collection's table: two collections with the same round-trip
/// table agree on every setting that `define` reads from it (all but the slug, which it
/// takes apart), their fields included.
pub proof fn lemma_collection_config_round_trip(a: CollectionDefinition, b: CollectionDefinition)
    requires
        collection_config_tree(a) == collection_config_tree(b),
    ensures
        same_collection(a, b),
{
    lemma_coll_get_labels(a);
    lemma_coll_get_labels(b);
    lemma_coll_get_timestamps(a);
    lemma_coll_get_timestamps(b);
    lemma_coll_get_admin(a);
    lemma_coll_get_admin(b);
    lemma_coll_get_fields(a);
    lemma_coll_get_fields(b);
    lemma_coll_get_hooks(a);
    lemma_coll_get_hooks(b);
    lemma_coll_get_access(a);
    lemma_coll_get_access(b);
    lemma_coll_get_auth(a);
    lemma_coll_get_auth(b);
    lemma_coll_get_upload(a);
    lemma_coll_get_upload(b);
    lemma_coll_get_live(a);
    lemma_coll_get_live(b);
    lemma_coll_get_versions(a);
    lemma_coll_get_versions(b);
    lemma_labels_get_singular(a.labels);
    lemma_labels_get_singular(b.labels);
    lemma_opt_label_get_injective(a.labels.singular, b.labels.singular);
    lemma_labels_get_plural(a.labels);
    lemma_labels_get_plural(b.labels);
    lemma_opt_label_get_injective(a.labels.plural, b.labels.plural);
    lemma_cadmin_get_use_as_title(a.admin);
    lemma_cadmin_get_use_as_title(b.admin);
    lemma_cadmin_get_default_sort(a.admin);
    lemma_cadmin_get_default_sort(b.admin);
    lemma_cadmin_get_hidden(a.admin);
    lemma_cadmin_get_hidden(b.admin);
    lemma_cadmin_get_list_searchable_fields(a.admin);
    lemma_cadmin_get_list_searchable_fields(b.admin);
    lemma_list_entry_injective(a.admin.list_searchable_fields@, b.admin.list_searchable_fields@);
    lemma_fields_round_trip(a.fields@, b.fields@);
    lemma_chooks_get_before_validate(a.hooks);
    lemma_chooks_get_before_validate(b.hooks);
    lemma_list_entry_injective(a.hooks.before_validate@, b.hooks.before_validate@);
    lemma_chooks_get_before_change(a.hooks);
    lemma_chooks_get_before_change(b.hooks);
    lemma_list_entry_injective(a.hooks.before_change@, b.hooks.before_change@);
    lemma_chooks_get_after_change(a.hooks);
    lemma_chooks_get_after_change(b.hooks);
    lemma_list_entry_injective(a.hooks.after_change@, b.hooks.after_change@);
    lemma_chooks_get_before_read(a.hooks);
    lemma_chooks_get_before_read(b.hooks);
    lemma_list_entry_injective(a.hooks.before_read@, b.hooks.before_read@);
    lemma_chooks_get_after_read(a.hooks);
    lemma_chooks_get_after_read(b.hooks);
    lemma_list_entry_injective(a.hooks.after_read@, b.hooks.after_read@);
    lemma_chooks_get_before_delete(a.hooks);
    lemma_chooks_get_before_delete(b.hooks);
    lemma_list_entry_injective(a.hooks.before_delete@, b.hooks.before_delete@);
    lemma_chooks_get_after_delete(a.hooks);
    lemma_chooks_get_after_delete(b.hooks);
    lemma_list_entry_injective(a.hooks.after_delete@, b.hooks.after_delete@);
    lemma_chooks_get_before_broadcast(a.hooks);
    lemma_chooks_get_before_broadcast(b.hooks);
    lemma_list_entry_injective(a.hooks.before_broadcast@, b.hooks.before_broadcast@);
    lemma_caccess_get_read(a.access);
    lemma_caccess_get_read(b.access);
    lemma_caccess_get_create(a.access);
    lemma_caccess_get_create(b.access);
    lemma_caccess_get_update(a.access);
    lemma_caccess_get_update(b.access);
    lemma_caccess_get_delete(a.access);
    lemma_caccess_get_delete(b.access);
    lemma_auth_round_trip(a.auth, b.auth);
    lemma_upload_round_trip(a.upload, b.upload);
    lemma_versions_round_trip(a.versions, b.versions);
}

#[verifier::rlimit(40)]
proof fn lemma_global_get_labels(x: GlobalDefinition)
    ensures
        rget(global_config_tree(x)->Record_0, "labels"@) == (Some(labels_tree(x.labels))),
{
    lemma_spelling_coll();
    lemma_rget_pieces();
}

#[verifier::rlimit(40)]
proof fn lemma_global_get_fields(x: GlobalDefinition)
    ensures
        rget(global_config_tree(x)->Record_0, "fields"@) == (Some(LuaTree::List(config_trees(x.fields@)))),
{
    lemma_spelling_coll();
    lemma_rget_pieces();
}

#[verifier::rlimit(40)]
proof fn lemma_global_get_hooks(x: GlobalDefinition)
    ensures
        rget(global_config_tree(x)->Record_0, "hooks"@) == (Some(LuaTree::Record(collection_hooks_entries(x.hooks)))),
{
    lemma_spelling_coll();
    lemma_rget_pieces();
}

#[verifier::rlimit(40)]
proof fn lemma_global_get_access(x: GlobalDefinition)
    ensures
        rget(global_config_tree(x)->Record_0, "access"@) == (Some(LuaTree::Record(collection_access_entries(x.access)))),
{
    lemma_spelling_coll();
    lemma_rget_pieces();
}

#[verifier::rlimit(40)]
proof fn lemma_global_get_live(x: GlobalDefinition)
    ensures
        rget(global_config_tree(x)->Record_0, "live"@) == (Some(live_tree(x.live))),
{
    lemma_spelling_coll();
    lemma_rget_pieces();
}

/// Two globals that agree on every setting the round-trip table holds (all but the
/// slug).
pub open spec fn same_global(a: GlobalDefinition, b: GlobalDefinition) -> bool {
    &&& same_opt_label(a.labels.singular, b.labels.singular)
    &&& same_opt_label(a.labels.plural, b.labels.plural)
    &&& same_fields(a.fields@, b.fields@)
    &&& strs_of(a.hooks.before_validate@) == strs_of(b.hooks.before_validate@)
    &&& strs_of(a.hooks.before_change@) == strs_of(b.hooks.before_change@)
    &&& strs_of(a.hooks.after_change@) == strs_of(b.hooks.after_change@)
    &&& strs_of(a.hooks.before_read@) == strs_of(b.hooks.before_read@)
    &&& strs_of(a.hooks.after_read@) == strs_of(b.hooks.after_read@)
    &&& strs_of(a.hooks.before_delete@) == strs_of(b.hooks.before_delete@)
    &&& strs_of(a.hooks.after_delete@) == strs_of(b.hooks.after_delete@)
    &&& strs_of(a.hooks.before_broadcast@) == strs_of(b.hooks.before_broadcast@)
    &&& opt_chars(a.access.read) == opt_chars(b.access.read)
    &&& opt_chars(a.access.create) == opt_chars(b.access.create)
    &&& opt_chars(a.access.update) == opt_chars(b.access.update)
    &&& opt_chars(a.access.delete) == opt_chars(b.access.delete)
    &&& same_live(a.live, b.live)
}

/// The round trip of a global's table: two globals with the same round-trip table agree
/// on every setting that `define` reads from it, their fields included.
pub proof fn lemma_global_config_round_trip(a: GlobalDefinition, b: GlobalDefinition)
    requires
        global_config_tree(a) == global_config_tree(b),
    ensures
        same_global(a, b),
{
    lemma_global_get_labels(a);
    lemma_global_get_labels(b);
    lemma_global_get_fields(a);
    lemma_global_get_fields(b);
    lemma_global_get_hooks(a);
    lemma_global_get_hooks(b);
    lemma_global_get_access(a);
    lemma_global_get_access(b);
    lemma_global_get_live(a);
    lemma_global_get_live(b);
    lemma_labels_get_singular(a.labels);
    lemma_labels_get_singular(b.labels);
    lemma_opt_label_get_injective(a.labels.singular, b.labels.singular);
    lemma_labels_get_plural(a.labels);
    lemma_labels_get_plural(b.labels);
    lemma_opt_label_get_injective(a.labels.plural, b.labels.plural);
    lemma_fields_round_trip(a.fields@, b.fields@);
    lemma_chooks_get_before_validate(a.hooks);
    lemma_chooks_get_before_validate(b.hooks);
    lemma_list_entry_injective(a.hooks.before_validate@, b.hooks.before_validate@);
    lemma_chooks_get_before_change(a.hooks);
    lemma_chooks_get_before_change(b.hooks);
    lemma_list_entry_injective(a.hooks.before_change@, b.hooks.before_change@);
    lemma_chooks_get_after_change(a.hooks);
    lemma_chooks_get_after_change(b.hooks);
    lemma_list_entry_injective(a.hooks.after_change@, b.hooks.after_change@);
    lemma_chooks_get_before_read(a.hooks);
    lemma_chooks_get_before_read(b.hooks);
    lemma_list_entry_injective(a.hooks.before_read@, b.hooks.before_read@);
    lemma_chooks_get_after_read(a.hooks);
    lemma_chooks_get_after_read(b.hooks);
    lemma_list_entry_injective(a.hooks.after_read@, b.hooks.after_read@);
    lemma_chooks_get_before_delete(a.hooks);
    lemma_chooks_get_before_delete(b.hooks);
    lemma_list_entry_injective(a.hooks.before_delete@, b.hooks.before_delete@);
    lemma_chooks_get_after_delete(a.hooks);
    lemma_chooks_get_after_delete(b.hooks);
    lemma_list_entry_injective(a.hooks.after_delete@, b.hooks.after_delete@);
    lemma_chooks_get_before_broadcast(a.hooks);
    lemma_chooks_get_before_broadcast(b.hooks);
    lemma_list_entry_injective(a.hooks.before_broadcast@, b.hooks.before_broadcast@);
    lemma_caccess_get_read(a.access);
    lemma_caccess_get_read(b.access);
    lemma_caccess_get_create(a.access);
    lemma_caccess_get_create(b.access);
    lemma_caccess_get_update(a.access);
    lemma_caccess_get_update(b.access);
    lemma_caccess_get_delete(a.access);
    lemma_caccess_get_delete(b.access);
}

} // verus!
