use crap_cms::context::{FieldContext, RowContext, TabContext, MAX_FIELD_DEPTH};
use crap_cms::field::{
    BlockDefinition, FieldDefinition, FieldTab, FieldType, LocalizedString, RelationshipConfig,
    SelectOption,
};
use crap_cms::field_builder::{
    apply_field_type_extras, build_field_contexts, count_errors_in_fields, split_sidebar_fields,
};
use crap_cms::strmap::StrMap;
use crap_cms::text::safe_template_id;

fn make_field(name: &str, ft: FieldType) -> FieldDefinition {
    FieldDefinition { name: name.to_string(), field_type: ft, ..Default::default() }
}

fn smap(pairs: &[(&str, &str)]) -> StrMap {
    let mut m = StrMap::new();
    for (k, v) in pairs {
        m.insert(k.to_string(), v.to_string());
    }
    m
}

fn empty() -> StrMap {
    StrMap::new()
}

fn plain(s: &str) -> LocalizedString {
    LocalizedString::Plain(s.to_string())
}

fn opt(label: &str, value: &str) -> SelectOption {
    SelectOption { label: plain(label), value: value.to_string() }
}

fn rel(collection: &str, has_many: bool) -> Option<RelationshipConfig> {
    Some(RelationshipConfig {
        collection: collection.to_string(),
        has_many,
        max_depth: None,
        polymorphic: vec![],
    })
}

fn subs(c: &FieldContext) -> &Vec<FieldContext> {
    c.sub_fields.as_ref().unwrap()
}

fn ctx_named(name: &str) -> FieldContext {
    FieldContext { name: name.to_string(), ..Default::default() }
}

// --- build_field_contexts: array/block sub-field enrichment tests ---

#[test]
fn build_field_contexts_array_sub_fields_include_type_and_label() {
    let mut arr_field = make_field("items", FieldType::Array);
    arr_field.fields = vec![make_field("title", FieldType::Text), make_field("body", FieldType::Richtext)];
    let fields = vec![arr_field];
    let result = build_field_contexts(&fields, &empty(), &empty(), false, false);
    assert_eq!(result.len(), 1);
    let sub_fields = subs(&result[0]);
    assert_eq!(sub_fields.len(), 2);
    assert_eq!(sub_fields[0].field_type, "text");
    assert_eq!(sub_fields[0].label, "Title");
    assert_eq!(sub_fields[1].field_type, "richtext");
    assert_eq!(sub_fields[1].label, "Body");
}

#[test]
fn build_field_contexts_array_select_sub_field_includes_options() {
    let mut select_sf = make_field("status", FieldType::Select);
    select_sf.options = vec![opt("Draft", "draft"), opt("Published", "published")];
    let mut arr_field = make_field("items", FieldType::Array);
    arr_field.fields = vec![select_sf];
    let fields = vec![arr_field];
    let result = build_field_contexts(&fields, &empty(), &empty(), false, false);
    let sub_fields = subs(&result[0]);
    let opts = sub_fields[0].options.as_ref().unwrap();
    assert_eq!(opts.len(), 2);
    assert_eq!(opts[0].value, "draft");
    assert_eq!(opts[1].value, "published");
}

#[test]
fn build_field_contexts_blocks_sub_fields_include_type_and_label() {
    let mut blocks_field = make_field("content", FieldType::Blocks);
    blocks_field.blocks = vec![BlockDefinition {
        block_type: "rich".to_string(),
        label: Some(plain("Rich Text")),
        fields: vec![make_field("heading", FieldType::Text), make_field("body", FieldType::Richtext)],
        ..Default::default()
    }];
    let fields = vec![blocks_field];
    let result = build_field_contexts(&fields, &empty(), &empty(), false, false);
    let block_defs = result[0].block_definitions.as_ref().unwrap();
    assert_eq!(block_defs.len(), 1);
    let block_fields = &block_defs[0].fields;
    assert_eq!(block_fields.len(), 2);
    assert_eq!(block_fields[0].field_type, "text");
    assert_eq!(block_fields[0].label, "Heading");
    assert_eq!(block_fields[1].field_type, "richtext");
    assert_eq!(block_fields[1].label, "Body");
}

#[test]
fn build_field_contexts_blocks_select_sub_field_includes_options() {
    let mut select_sf = make_field("align", FieldType::Select);
    select_sf.options = vec![opt("Left", "left"), opt("Center", "center")];
    let mut blocks_field = make_field("layout", FieldType::Blocks);
    blocks_field.blocks = vec![BlockDefinition {
        block_type: "section".to_string(),
        label: None,
        fields: vec![select_sf],
        ..Default::default()
    }];
    let fields = vec![blocks_field];
    let result = build_field_contexts(&fields, &empty(), &empty(), false, false);
    let block_defs = result[0].block_definitions.as_ref().unwrap();
    let opts = block_defs[0].fields[0].options.as_ref().unwrap();
    assert_eq!(opts.len(), 2);
    assert_eq!(opts[0].value, "left");
    assert_eq!(opts[1].value, "center");
}

// --- build_field_contexts: date field tests ---

#[test]
fn build_field_contexts_date_default_day_only() {
    let fields = vec![make_field("published_at", FieldType::Date)];
    let values = smap(&[("published_at", "2026-01-15T12:00:00.000Z")]);
    let result = build_field_contexts(&fields, &values, &empty(), false, false);
    assert_eq!(result[0].picker_appearance.as_deref(), Some("dayOnly"));
    assert_eq!(result[0].date_only_value.as_deref(), Some("2026-01-15"));
}

#[test]
fn build_field_contexts_date_day_and_time() {
    let mut date_field = make_field("event_at", FieldType::Date);
    date_field.picker_appearance = Some("dayAndTime".to_string());
    let fields = vec![date_field];
    let values = smap(&[("event_at", "2026-01-15T09:30:00.000Z")]);
    let result = build_field_contexts(&fields, &values, &empty(), false, false);
    assert_eq!(result[0].picker_appearance.as_deref(), Some("dayAndTime"));
    assert_eq!(result[0].datetime_local_value.as_deref(), Some("2026-01-15T09:30"));
}

#[test]
fn build_field_contexts_date_time_only() {
    let mut date_field = make_field("reminder", FieldType::Date);
    date_field.picker_appearance = Some("timeOnly".to_string());
    let fields = vec![date_field];
    let values = smap(&[("reminder", "14:30")]);
    let result = build_field_contexts(&fields, &values, &empty(), false, false);
    assert_eq!(result[0].picker_appearance.as_deref(), Some("timeOnly"));
    assert_eq!(result[0].value, "14:30");
}

#[test]
fn build_field_contexts_date_month_only() {
    let mut date_field = make_field("birth_month", FieldType::Date);
    date_field.picker_appearance = Some("monthOnly".to_string());
    let fields = vec![date_field];
    let values = smap(&[("birth_month", "2026-01")]);
    let result = build_field_contexts(&fields, &values, &empty(), false, false);
    assert_eq!(result[0].picker_appearance.as_deref(), Some("monthOnly"));
    assert_eq!(result[0].value, "2026-01");
}

// --- safe_template_id tests ---

#[test]
fn safe_template_id_simple_name() {
    assert_eq!(safe_template_id("items"), "items");
}

#[test]
fn safe_template_id_with_brackets() {
    assert_eq!(safe_template_id("content[0][items]"), "content-0-items");
}

#[test]
fn safe_template_id_nested_index_placeholder() {
    assert_eq!(safe_template_id("content[__INDEX__][items]"), "content-__INDEX__-items");
}

// --- Recursive build_field_contexts tests (nested composites) ---

#[test]
fn build_field_contexts_array_has_template_id() {
    let mut arr_field = make_field("items", FieldType::Array);
    arr_field.fields = vec![make_field("title", FieldType::Text)];
    let fields = vec![arr_field];
    let result = build_field_contexts(&fields, &empty(), &empty(), false, false);
    assert_eq!(result[0].template_id.as_deref(), Some("items"));
}

#[test]
fn build_field_contexts_blocks_has_template_id() {
    let mut blocks_field = make_field("content", FieldType::Blocks);
    blocks_field.blocks = vec![BlockDefinition {
        block_type: "text".to_string(),
        label: None,
        fields: vec![make_field("body", FieldType::Text)],
        ..Default::default()
    }];
    let fields = vec![blocks_field];
    let result = build_field_contexts(&fields, &empty(), &empty(), false, false);
    assert_eq!(result[0].template_id.as_deref(), Some("content"));
}

#[test]
fn build_field_contexts_array_sub_fields_have_indexed_names() {
    let mut arr_field = make_field("slides", FieldType::Array);
    arr_field.fields = vec![make_field("title", FieldType::Text), make_field("body", FieldType::Textarea)];
    let fields = vec![arr_field];
    let result = build_field_contexts(&fields, &empty(), &empty(), false, false);
    let sub_fields = subs(&result[0]);
    assert_eq!(sub_fields[0].name, "slides[__INDEX__][title]");
    assert_eq!(sub_fields[1].name, "slides[__INDEX__][body]");
}

#[test]
fn build_field_contexts_nested_array_in_blocks() {
    let mut inner_array = make_field("images", FieldType::Array);
    inner_array.fields = vec![make_field("url", FieldType::Text), make_field("caption", FieldType::Text)];
    let mut blocks_field = make_field("content", FieldType::Blocks);
    blocks_field.blocks = vec![BlockDefinition {
        block_type: "gallery".to_string(),
        label: Some(plain("Gallery")),
        fields: vec![make_field("title", FieldType::Text), inner_array],
        ..Default::default()
    }];
    let fields = vec![blocks_field];
    let result = build_field_contexts(&fields, &empty(), &empty(), false, false);

    let block_defs = result[0].block_definitions.as_ref().unwrap();
    assert_eq!(block_defs.len(), 1);
    let block_fields = &block_defs[0].fields;
    assert_eq!(block_fields.len(), 2);
    assert_eq!(block_fields[0].field_type, "text");
    assert_eq!(block_fields[0].name, "content[__INDEX__][title]");
    assert_eq!(block_fields[1].field_type, "array");
    assert_eq!(block_fields[1].name, "content[__INDEX__][images]");
    let nested_sub_fields = subs(&block_fields[1]);
    assert_eq!(nested_sub_fields.len(), 2);
    assert_eq!(nested_sub_fields[0].name, "content[__INDEX__][images][__INDEX__][url]");
    assert_eq!(nested_sub_fields[1].name, "content[__INDEX__][images][__INDEX__][caption]");
    assert!(block_fields[1].template_id.is_some());
}

#[test]
fn build_field_contexts_nested_blocks_in_array() {
    let mut inner_blocks = make_field("sections", FieldType::Blocks);
    inner_blocks.blocks = vec![BlockDefinition {
        block_type: "text".to_string(),
        label: None,
        fields: vec![make_field("body", FieldType::Richtext)],
        ..Default::default()
    }];
    let mut arr_field = make_field("pages", FieldType::Array);
    arr_field.fields = vec![make_field("title", FieldType::Text), inner_blocks];
    let fields = vec![arr_field];
    let result = build_field_contexts(&fields, &empty(), &empty(), false, false);

    let sub_fields = subs(&result[0]);
    assert_eq!(sub_fields.len(), 2);
    assert_eq!(sub_fields[0].field_type, "text");
    assert_eq!(sub_fields[1].field_type, "blocks");
    let nested_block_defs = sub_fields[1].block_definitions.as_ref().unwrap();
    assert_eq!(nested_block_defs.len(), 1);
    assert_eq!(nested_block_defs[0].block_type, "text");
    let nested_block_fields = &nested_block_defs[0].fields;
    assert_eq!(nested_block_fields[0].field_type, "richtext");
    assert_eq!(nested_block_fields[0].name, "pages[__INDEX__][sections][__INDEX__][body]");
}

#[test]
fn build_field_contexts_nested_group_in_array() {
    let mut inner_group = make_field("meta", FieldType::Group);
    inner_group.fields = vec![make_field("author", FieldType::Text), make_field("date", FieldType::Date)];
    let mut arr_field = make_field("entries", FieldType::Array);
    arr_field.fields = vec![inner_group];
    let fields = vec![arr_field];
    let result = build_field_contexts(&fields, &empty(), &empty(), false, false);

    let sub_fields = subs(&result[0]);
    assert_eq!(sub_fields.len(), 1);
    assert_eq!(sub_fields[0].field_type, "group");
    let group_sub_fields = subs(&sub_fields[0]);
    assert_eq!(group_sub_fields.len(), 2);
    assert_eq!(group_sub_fields[0].name, "entries[__INDEX__][meta][author]");
    assert_eq!(group_sub_fields[1].name, "entries[__INDEX__][meta][date]");
}

#[test]
fn build_field_contexts_nested_array_in_array() {
    let mut inner_array = make_field("tags", FieldType::Array);
    inner_array.fields = vec![make_field("name", FieldType::Text)];
    let mut outer_array = make_field("items", FieldType::Array);
    outer_array.fields = vec![make_field("title", FieldType::Text), inner_array];
    let fields = vec![outer_array];
    let result = build_field_contexts(&fields, &empty(), &empty(), false, false);

    let sub_fields = subs(&result[0]);
    assert_eq!(sub_fields[1].field_type, "array");
    let nested_sub = subs(&sub_fields[1]);
    assert_eq!(nested_sub[0].name, "items[__INDEX__][tags][__INDEX__][name]");
}

// --- split_sidebar_fields tests ---

fn positioned(name: &str, ft: &str, position: Option<&str>) -> FieldContext {
    FieldContext {
        name: name.to_string(),
        field_type: ft.to_string(),
        position: position.map(|p| p.to_string()),
        ..Default::default()
    }
}

#[test]
fn split_sidebar_fields_separates_by_position() {
    let fields = vec![
        positioned("title", "text", None),
        positioned("slug", "text", Some("sidebar")),
        positioned("body", "richtext", None),
        positioned("status", "select", Some("sidebar")),
    ];
    let (main, sidebar) = split_sidebar_fields(fields);
    assert_eq!(main.len(), 2);
    assert_eq!(sidebar.len(), 2);
    assert_eq!(main[0].name, "title");
    assert_eq!(main[1].name, "body");
    assert_eq!(sidebar[0].name, "slug");
    assert_eq!(sidebar[1].name, "status");
}

#[test]
fn split_sidebar_fields_no_sidebar() {
    let fields = vec![positioned("title", "text", None), positioned("body", "richtext", None)];
    let (main, sidebar) = split_sidebar_fields(fields);
    assert_eq!(main.len(), 2);
    assert!(sidebar.is_empty());
}

#[test]
fn split_sidebar_fields_all_sidebar() {
    let fields = vec![positioned("a", "", Some("sidebar")), positioned("b", "", Some("sidebar"))];
    let (main, sidebar) = split_sidebar_fields(fields);
    assert!(main.is_empty());
    assert_eq!(sidebar.len(), 2);
}

#[test]
fn split_sidebar_fields_empty() {
    let (main, sidebar) = split_sidebar_fields(vec![]);
    assert!(main.is_empty());
    assert!(sidebar.is_empty());
}

// --- build_field_contexts: filter_hidden tests ---

#[test]
fn build_field_contexts_filter_hidden_removes_hidden_fields() {
    let mut hidden_field = make_field("secret", FieldType::Text);
    hidden_field.admin.hidden = true;
    let fields = vec![make_field("title", FieldType::Text), hidden_field, make_field("body", FieldType::Textarea)];
    let result = build_field_contexts(&fields, &empty(), &empty(), true, false);
    assert_eq!(result.len(), 2);
    assert_eq!(result[0].name, "title");
    assert_eq!(result[1].name, "body");
}

#[test]
fn build_field_contexts_no_filter_includes_hidden_fields() {
    let mut hidden_field = make_field("secret", FieldType::Text);
    hidden_field.admin.hidden = true;
    let fields = vec![make_field("title", FieldType::Text), hidden_field];
    let result = build_field_contexts(&fields, &empty(), &empty(), false, false);
    assert_eq!(result.len(), 2);
}

// --- build_field_contexts: relationship tests ---

#[test]
fn build_field_contexts_relationship_has_collection_info() {
    let mut rel_field = make_field("author", FieldType::Relationship);
    rel_field.relationship = rel("users", false);
    let fields = vec![rel_field];
    let result = build_field_contexts(&fields, &empty(), &empty(), false, false);
    assert_eq!(result[0].relationship_collection.as_deref(), Some("users"));
    assert_eq!(result[0].has_many, Some(false));
}

#[test]
fn build_field_contexts_relationship_has_many() {
    let mut rel_field = make_field("tags", FieldType::Relationship);
    rel_field.relationship = rel("tags", true);
    let fields = vec![rel_field];
    let result = build_field_contexts(&fields, &empty(), &empty(), false, false);
    assert_eq!(result[0].relationship_collection.as_deref(), Some("tags"));
    assert_eq!(result[0].has_many, Some(true));
}

// --- build_field_contexts: checkbox tests ---

#[test]
fn build_field_contexts_checkbox_checked_values() {
    for val in &["1", "true", "on", "yes"] {
        let values = smap(&[("active", val)]);
        let fields = vec![make_field("active", FieldType::Checkbox)];
        let result = build_field_contexts(&fields, &values, &empty(), false, false);
        assert_eq!(result[0].checked, Some(true), "Checkbox should be checked for value '{}'", val);
    }
}

#[test]
fn build_field_contexts_checkbox_unchecked_values() {
    for val in &["0", "false", "off", "no", ""] {
        let values = smap(&[("active", val)]);
        let fields = vec![make_field("active", FieldType::Checkbox)];
        let result = build_field_contexts(&fields, &values, &empty(), false, false);
        assert_eq!(result[0].checked, Some(false), "Checkbox should be unchecked for value '{}'", val);
    }
}

// --- build_field_contexts: upload field tests ---

#[test]
fn build_field_contexts_upload_has_collection() {
    let mut upload_field = make_field("image", FieldType::Upload);
    upload_field.relationship = rel("media", false);
    let fields = vec![upload_field];
    let result = build_field_contexts(&fields, &empty(), &empty(), false, false);
    assert_eq!(result[0].relationship_collection.as_deref(), Some("media"));
    assert_eq!(result[0].picker.as_deref(), Some("drawer"), "upload fields default to drawer picker");
}

// --- build_field_contexts: select tests ---

#[test]
fn build_field_contexts_select_marks_selected_option() {
    let mut sel = make_field("color", FieldType::Select);
    sel.options = vec![opt("Red", "red"), opt("Blue", "blue")];
    let values = smap(&[("color", "blue")]);
    let fields = vec![sel];
    let result = build_field_contexts(&fields, &values, &empty(), false, false);
    let opts = result[0].options.as_ref().unwrap();
    assert!(!opts[0].selected);
    assert!(opts[1].selected);
}

// --- build_field_contexts: error propagation ---

#[test]
fn build_field_contexts_errors_attached_to_fields() {
    let fields = vec![make_field("title", FieldType::Text)];
    let errors = smap(&[("title", "Title is required")]);
    let result = build_field_contexts(&fields, &empty(), &errors, false, false);
    assert_eq!(result[0].error.as_deref(), Some("Title is required"));
}

#[test]
fn build_field_contexts_no_error_when_field_valid() {
    let fields = vec![make_field("title", FieldType::Text)];
    let result = build_field_contexts(&fields, &empty(), &empty(), false, false);
    assert!(result[0].error.is_none());
}

// --- build_field_contexts: locale locking ---

#[test]
fn build_field_contexts_locale_locked_non_localized_field() {
    let fields = vec![make_field("slug", FieldType::Text)];
    let result = build_field_contexts(&fields, &empty(), &empty(), false, true);
    assert!(result[0].locale_locked);
    assert!(result[0].readonly);
}

#[test]
fn build_field_contexts_localized_field_not_locked() {
    let mut field = make_field("title", FieldType::Text);
    field.localized = true;
    let fields = vec![field];
    let result = build_field_contexts(&fields, &empty(), &empty(), false, true);
    assert!(!result[0].locale_locked);
    assert!(!result[0].readonly);
}

// --- build_field_contexts: group field tests ---

#[test]
fn build_field_contexts_top_level_group_uses_double_underscore() {
    let mut group = make_field("seo", FieldType::Group);
    group.fields = vec![make_field("title", FieldType::Text), make_field("description", FieldType::Textarea)];
    let fields = vec![group];
    let result = build_field_contexts(&fields, &empty(), &empty(), false, false);
    let sub_fields = subs(&result[0]);
    assert_eq!(sub_fields[0].name, "seo__title");
    assert_eq!(sub_fields[1].name, "seo__description");
}

#[test]
fn build_field_contexts_group_collapsed() {
    let mut group = make_field("meta", FieldType::Group);
    group.admin.collapsed = true;
    group.fields = vec![make_field("author", FieldType::Text)];
    let fields = vec![group];
    let result = build_field_contexts(&fields, &empty(), &empty(), false, false);
    assert_eq!(result[0].collapsed, Some(true));
}

#[test]
fn build_field_contexts_group_sub_field_values() {
    let mut group = make_field("seo", FieldType::Group);
    group.fields = vec![make_field("title", FieldType::Text)];
    let values = smap(&[("seo__title", "My SEO Title")]);
    let fields = vec![group];
    let result = build_field_contexts(&fields, &values, &empty(), false, false);
    let sub_fields = subs(&result[0]);
    assert_eq!(sub_fields[0].value, "My SEO Title");
}

// --- build_field_contexts: array with min/max rows and admin options ---

#[test]
fn build_field_contexts_array_with_min_max_rows() {
    let mut arr = make_field("items", FieldType::Array);
    arr.fields = vec![make_field("title", FieldType::Text)];
    arr.min_rows = Some(1);
    arr.max_rows = Some(5);
    let fields = vec![arr];
    let result = build_field_contexts(&fields, &empty(), &empty(), false, false);
    assert_eq!(result[0].min_rows, Some(1));
    assert_eq!(result[0].max_rows, Some(5));
}

#[test]
fn build_field_contexts_array_collapsed() {
    let mut arr = make_field("items", FieldType::Array);
    arr.fields = vec![make_field("title", FieldType::Text)];
    let fields = vec![arr];
    let result = build_field_contexts(&fields, &empty(), &empty(), false, false);
    assert_eq!(result[0].init_collapsed, Some(true));

    let mut arr2 = make_field("items", FieldType::Array);
    arr2.fields = vec![make_field("title", FieldType::Text)];
    arr2.admin.collapsed = false;
    let fields2 = vec![arr2];
    let result2 = build_field_contexts(&fields2, &empty(), &empty(), false, false);
    assert_eq!(result2[0].init_collapsed, Some(false));
}

#[test]
fn build_field_contexts_array_labels_singular() {
    let mut arr = make_field("slides", FieldType::Array);
    arr.fields = vec![make_field("title", FieldType::Text)];
    arr.admin.labels_singular = Some(plain("Slide"));
    let fields = vec![arr];
    let result = build_field_contexts(&fields, &empty(), &empty(), false, false);
    assert_eq!(result[0].add_label.as_deref(), Some("Slide"));
}

#[test]
fn build_field_contexts_array_label_field() {
    let mut arr = make_field("items", FieldType::Array);
    arr.fields = vec![make_field("title", FieldType::Text)];
    arr.admin.label_field = Some("title".to_string());
    let fields = vec![arr];
    let result = build_field_contexts(&fields, &empty(), &empty(), false, false);
    assert_eq!(result[0].label_field.as_deref(), Some("title"));
}

// --- build_field_contexts: blocks with min/max rows and admin options ---

fn text_block() -> BlockDefinition {
    BlockDefinition {
        block_type: "text".to_string(),
        label: None,
        fields: vec![make_field("body", FieldType::Text)],
        ..Default::default()
    }
}

#[test]
fn build_field_contexts_blocks_with_min_max_rows() {
    let mut blocks = make_field("content", FieldType::Blocks);
    blocks.blocks = vec![text_block()];
    blocks.min_rows = Some(1);
    blocks.max_rows = Some(10);
    let fields = vec![blocks];
    let result = build_field_contexts(&fields, &empty(), &empty(), false, false);
    assert_eq!(result[0].min_rows, Some(1));
    assert_eq!(result[0].max_rows, Some(10));
}

#[test]
fn build_field_contexts_blocks_collapsed() {
    let mut blocks = make_field("content", FieldType::Blocks);
    blocks.blocks = vec![text_block()];
    let fields = vec![blocks];
    let result = build_field_contexts(&fields, &empty(), &empty(), false, false);
    assert_eq!(result[0].init_collapsed, Some(true));
}

#[test]
fn build_field_contexts_blocks_labels_singular() {
    let mut blocks = make_field("content", FieldType::Blocks);
    blocks.blocks = vec![text_block()];
    blocks.admin.labels_singular = Some(plain("Block"));
    let fields = vec![blocks];
    let result = build_field_contexts(&fields, &empty(), &empty(), false, false);
    assert_eq!(result[0].add_label.as_deref(), Some("Block"));
}

#[test]
fn build_field_contexts_blocks_block_label_field() {
    let mut blocks = make_field("content", FieldType::Blocks);
    let mut bd = text_block();
    bd.label_field = Some("body".to_string());
    blocks.blocks = vec![bd];
    let fields = vec![blocks];
    let result = build_field_contexts(&fields, &empty(), &empty(), false, false);
    let block_defs = result[0].block_definitions.as_ref().unwrap();
    assert_eq!(block_defs[0].label_field.as_deref(), Some("body"));
}

#[test]
fn build_field_contexts_blocks_group_and_image_url() {
    let mut blocks = make_field("content", FieldType::Blocks);
    blocks.blocks = vec![
        BlockDefinition {
            block_type: "hero".to_string(),
            label: Some(plain("Hero")),
            group: Some("Layout".to_string()),
            image_url: Some("/static/blocks/hero.svg".to_string()),
            ..Default::default()
        },
        BlockDefinition {
            block_type: "text".to_string(),
            label: Some(plain("Text")),
            group: Some("Content".to_string()),
            ..Default::default()
        },
        BlockDefinition {
            block_type: "divider".to_string(),
            label: Some(plain("Divider")),
            ..Default::default()
        },
    ];
    let fields = vec![blocks];
    let result = build_field_contexts(&fields, &empty(), &empty(), false, false);
    let block_defs = result[0].block_definitions.as_ref().unwrap();
    assert_eq!(block_defs[0].group.as_deref(), Some("Layout"));
    assert_eq!(block_defs[0].image_url.as_deref(), Some("/static/blocks/hero.svg"));
    assert_eq!(block_defs[1].group.as_deref(), Some("Content"));
    assert!(block_defs[1].image_url.is_none());
    assert!(block_defs[2].group.is_none());
    assert!(block_defs[2].image_url.is_none());
}

#[test]
fn build_field_contexts_blocks_picker_card() {
    let mut blocks = make_field("content", FieldType::Blocks);
    blocks.admin.picker = Some("card".to_string());
    blocks.blocks = vec![text_block()];
    let fields = vec![blocks];
    let result = build_field_contexts(&fields, &empty(), &empty(), false, false);
    assert_eq!(result[0].picker.as_deref(), Some("card"));
}

// --- has_many text/number inside composites regression tests ---

#[test]
fn has_many_text_in_group_gets_tags_context() {
    let mut group = make_field("meta", FieldType::Group);
    let mut tags = make_field("tags", FieldType::Text);
    tags.has_many = true;
    group.fields = vec![tags];
    let fields = vec![group];
    let values = smap(&[("meta__tags", r#"["rust","lua"]"#)]);
    let result = build_field_contexts(&fields, &values, &empty(), false, false);
    let sub = subs(&result[0]);
    assert_eq!(sub[0].has_many, Some(true));
    let tags_arr = sub[0].tags.as_ref().unwrap();
    assert_eq!(tags_arr.len(), 2);
    assert_eq!(tags_arr[0], "rust");
    assert_eq!(tags_arr[1], "lua");
    assert_eq!(sub[0].value, "rust,lua");
}

// --- build_field_contexts: position field ---

#[test]
fn build_field_contexts_position_set() {
    let mut field = make_field("status", FieldType::Text);
    field.admin.position = Some("sidebar".to_string());
    let fields = vec![field];
    let result = build_field_contexts(&fields, &empty(), &empty(), false, false);
    assert_eq!(result[0].position.as_deref(), Some("sidebar"));
}

// --- build_field_contexts: label, placeholder, description ---

#[test]
fn build_field_contexts_custom_label_placeholder_description() {
    let mut field = make_field("title", FieldType::Text);
    field.admin.label = Some(plain("Custom Title"));
    field.admin.placeholder = Some(plain("Enter title here..."));
    field.admin.description = Some(plain("The main title"));
    let fields = vec![field];
    let result = build_field_contexts(&fields, &empty(), &empty(), false, false);
    assert_eq!(result[0].label, "Custom Title");
    assert_eq!(result[0].placeholder.as_deref(), Some("Enter title here..."));
    assert_eq!(result[0].description.as_deref(), Some("The main title"));
}

#[test]
fn build_field_contexts_readonly_field() {
    let mut field = make_field("slug", FieldType::Text);
    field.admin.readonly = true;
    let fields = vec![field];
    let result = build_field_contexts(&fields, &empty(), &empty(), false, false);
    assert!(result[0].readonly);
}

// --- build_field_contexts: date short values ---

#[test]
fn build_field_contexts_date_short_value_day_only() {
    let values = smap(&[("d", "short")]);
    let fields = vec![make_field("d", FieldType::Date)];
    let result = build_field_contexts(&fields, &values, &empty(), false, false);
    assert_eq!(result[0].date_only_value.as_deref(), Some("short"));
}

#[test]
fn build_field_contexts_date_short_value_day_and_time() {
    let mut field = make_field("d", FieldType::Date);
    field.picker_appearance = Some("dayAndTime".to_string());
    let values = smap(&[("d", "short")]);
    let fields = vec![field];
    let result = build_field_contexts(&fields, &values, &empty(), false, false);
    assert_eq!(result[0].datetime_local_value.as_deref(), Some("short"));
}

// --- apply_field_type_extras tests ---

#[test]
fn apply_extras_checkbox_checked() {
    let sf = make_field("active", FieldType::Checkbox);
    let mut ctx = ctx_named("group__active");
    apply_field_type_extras(&sf, "true", &mut ctx, &empty(), &empty(), "group__active", false, 0);
    assert_eq!(ctx.checked, Some(true));
}

#[test]
fn apply_extras_checkbox_unchecked() {
    let sf = make_field("active", FieldType::Checkbox);
    let mut ctx = ctx_named("group__active");
    apply_field_type_extras(&sf, "0", &mut ctx, &empty(), &empty(), "group__active", false, 0);
    assert_eq!(ctx.checked, Some(false));
}

#[test]
fn apply_extras_select() {
    let mut sf = make_field("color", FieldType::Select);
    sf.options = vec![opt("Red", "red"), opt("Green", "green")];
    let mut ctx = ctx_named("group__color");
    apply_field_type_extras(&sf, "green", &mut ctx, &empty(), &empty(), "group__color", false, 0);
    let opts = ctx.options.as_ref().unwrap();
    assert!(!opts[0].selected);
    assert!(opts[1].selected);
}

#[test]
fn apply_extras_date_day_only() {
    let sf = make_field("d", FieldType::Date);
    let mut ctx = ctx_named("group__d");
    apply_field_type_extras(&sf, "2026-01-15T12:00:00Z", &mut ctx, &empty(), &empty(), "group__d", false, 0);
    assert_eq!(ctx.picker_appearance.as_deref(), Some("dayOnly"));
    assert_eq!(ctx.date_only_value.as_deref(), Some("2026-01-15"));
}

#[test]
fn apply_extras_date_day_and_time() {
    let mut sf = make_field("d", FieldType::Date);
    sf.picker_appearance = Some("dayAndTime".to_string());
    let mut ctx = ctx_named("group__d");
    apply_field_type_extras(&sf, "2026-01-15T09:30:00Z", &mut ctx, &empty(), &empty(), "group__d", false, 0);
    assert_eq!(ctx.picker_appearance.as_deref(), Some("dayAndTime"));
    assert_eq!(ctx.datetime_local_value.as_deref(), Some("2026-01-15T09:30"));
}

#[test]
fn apply_extras_date_short_values() {
    let sf = make_field("d", FieldType::Date);
    let mut ctx = ctx_named("g__d");
    apply_field_type_extras(&sf, "short", &mut ctx, &empty(), &empty(), "g__d", false, 0);
    assert_eq!(ctx.date_only_value.as_deref(), Some("short"));

    let mut sf2 = make_field("d2", FieldType::Date);
    sf2.picker_appearance = Some("dayAndTime".to_string());
    let mut ctx2 = ctx_named("g__d2");
    apply_field_type_extras(&sf2, "short", &mut ctx2, &empty(), &empty(), "g__d2", false, 0);
    assert_eq!(ctx2.datetime_local_value.as_deref(), Some("short"));
}

#[test]
fn apply_extras_relationship() {
    let mut sf = make_field("author", FieldType::Relationship);
    sf.relationship = rel("users", true);
    let mut ctx = ctx_named("group__author");
    apply_field_type_extras(&sf, "", &mut ctx, &empty(), &empty(), "group__author", false, 0);
    assert_eq!(ctx.relationship_collection.as_deref(), Some("users"));
    assert_eq!(ctx.has_many, Some(true));
}

#[test]
fn apply_extras_upload() {
    let mut sf = make_field("image", FieldType::Upload);
    sf.relationship = rel("media", false);
    let mut ctx = ctx_named("group__image");
    apply_field_type_extras(&sf, "", &mut ctx, &empty(), &empty(), "group__image", false, 0);
    assert_eq!(ctx.relationship_collection.as_deref(), Some("media"));
    assert_eq!(ctx.picker.as_deref(), Some("drawer"));
}

#[test]
fn apply_extras_array_in_group() {
    let mut arr = make_field("tags", FieldType::Array);
    arr.fields = vec![make_field("name", FieldType::Text)];
    arr.min_rows = Some(1);
    arr.max_rows = Some(3);
    arr.admin.collapsed = true;
    arr.admin.labels_singular = Some(plain("Tag"));
    arr.admin.label_field = Some("name".to_string());
    let mut ctx = ctx_named("group__tags");
    apply_field_type_extras(&arr, "", &mut ctx, &empty(), &empty(), "group__tags", false, 0);
    assert!(ctx.sub_fields.is_some());
    assert_eq!(ctx.row_count, Some(0));
    assert_eq!(ctx.min_rows, Some(1));
    assert_eq!(ctx.max_rows, Some(3));
    assert_eq!(ctx.init_collapsed, Some(true));
    assert_eq!(ctx.add_label.as_deref(), Some("Tag"));
    assert_eq!(ctx.label_field.as_deref(), Some("name"));
}

#[test]
fn apply_extras_group_in_group() {
    let mut inner = make_field("meta", FieldType::Group);
    inner.fields = vec![make_field("author", FieldType::Text)];
    inner.admin.collapsed = true;
    let mut ctx = ctx_named("outer__meta");
    apply_field_type_extras(&inner, "", &mut ctx, &empty(), &empty(), "outer__meta", false, 0);
    assert!(ctx.sub_fields.is_some());
    assert_eq!(ctx.collapsed, Some(true));
}

#[test]
fn apply_extras_blocks_in_group() {
    let mut blk = make_field("sections", FieldType::Blocks);
    let mut bd = text_block();
    bd.label_field = Some("body".to_string());
    blk.blocks = vec![bd];
    blk.min_rows = Some(0);
    blk.max_rows = Some(5);
    blk.admin.collapsed = true;
    blk.admin.labels_singular = Some(plain("Section"));
    let mut ctx = ctx_named("group__sections");
    apply_field_type_extras(&blk, "", &mut ctx, &empty(), &empty(), "group__sections", false, 0);
    assert!(ctx.block_definitions.is_some());
    assert_eq!(ctx.row_count, Some(0));
    assert_eq!(ctx.min_rows, Some(0));
    assert_eq!(ctx.max_rows, Some(5));
    assert_eq!(ctx.init_collapsed, Some(true));
    assert_eq!(ctx.add_label.as_deref(), Some("Section"));
    let bdc = ctx.block_definitions.as_ref().unwrap();
    assert_eq!(bdc[0].label_field.as_deref(), Some("body"));
}

#[test]
fn apply_extras_max_depth_stops_recursion() {
    let mut arr = make_field("deep", FieldType::Array);
    arr.fields = vec![make_field("leaf", FieldType::Text)];
    let mut ctx = ctx_named("group__deep");
    apply_field_type_extras(&arr, "", &mut ctx, &empty(), &empty(), "group__deep", false, MAX_FIELD_DEPTH);
    assert!(ctx.sub_fields.is_none());
}

#[test]
fn apply_extras_unknown_type_is_noop() {
    let sf = make_field("body", FieldType::Richtext);
    let mut ctx = FieldContext { name: "group__body".to_string(), field_type: "richtext".to_string(), ..Default::default() };
    apply_field_type_extras(&sf, "hello", &mut ctx, &empty(), &empty(), "group__body", false, 0);
    assert!(ctx.options.is_none());
    assert!(ctx.checked.is_none());
}

// --- count_errors_in_fields tests ---

fn with_error(name: &str, error: Option<&str>) -> FieldContext {
    FieldContext { name: name.to_string(), error: error.map(|e| e.to_string()), ..Default::default() }
}

#[test]
fn count_errors_empty_fields() {
    assert_eq!(count_errors_in_fields(&vec![]), 0);
}

#[test]
fn count_errors_no_errors() {
    let fields = vec![with_error("title", None), with_error("body", None)];
    assert_eq!(count_errors_in_fields(&fields), 0);
}

#[test]
fn count_errors_direct_errors() {
    let fields = vec![
        with_error("title", Some("Required")),
        with_error("body", None),
        with_error("email", Some("Invalid email")),
    ];
    assert_eq!(count_errors_in_fields(&fields), 2);
}

#[test]
fn count_errors_nested_in_sub_fields() {
    let fields = vec![FieldContext {
        name: "group1".to_string(),
        sub_fields: Some(vec![with_error("nested1", Some("Too short")), with_error("nested2", None)]),
        ..Default::default()
    }];
    assert_eq!(count_errors_in_fields(&fields), 1);
}

#[test]
fn count_errors_nested_in_tabs() {
    let fields = vec![FieldContext {
        name: "settings".to_string(),
        tabs: Some(vec![
            TabContext {
                label: "General".to_string(),
                sub_fields: vec![with_error("f1", Some("Required")), with_error("f2", Some("Too long"))],
                ..Default::default()
            },
            TabContext {
                label: "Advanced".to_string(),
                sub_fields: vec![with_error("f3", None)],
                ..Default::default()
            },
        ]),
        ..Default::default()
    }];
    assert_eq!(count_errors_in_fields(&fields), 2);
}

#[test]
fn count_errors_nested_in_array_rows() {
    let fields = vec![FieldContext {
        name: "items".to_string(),
        rows_data: Some(vec![
            RowContext { index: 0, sub_fields: vec![with_error("items[0][title]", Some("Required"))], ..Default::default() },
            RowContext { index: 1, sub_fields: vec![with_error("items[1][title]", None)], ..Default::default() },
        ]),
        ..Default::default()
    }];
    assert_eq!(count_errors_in_fields(&fields), 1);
}

#[test]
fn count_errors_null_error_not_counted() {
    let fields = vec![with_error("title", None)];
    assert_eq!(count_errors_in_fields(&fields), 0);
}

#[test]
fn tabs_field_context_includes_error_count() {
    let mut tabs_field = make_field("settings", FieldType::Tabs);
    tabs_field.tabs = vec![
        FieldTab {
            label: "General".to_string(),
            description: None,
            fields: vec![
                {
                    let mut f = make_field("title", FieldType::Text);
                    f.required = true;
                    f
                },
                make_field("slug", FieldType::Text),
            ],
        },
        FieldTab { label: "Advanced".to_string(), description: None, fields: vec![make_field("meta", FieldType::Text)] },
    ];
    let errors = smap(&[("title", "Title is required")]);
    let result = build_field_contexts(&[tabs_field], &empty(), &errors, false, false);
    let tabs = result[0].tabs.as_ref().expect("tabs should be an array");
    assert_eq!(tabs[0].error_count, Some(1));
    assert!(tabs[1].error_count.is_none());
}

// --- richtext_format context ---

#[test]
fn richtext_format_defaults_to_html() {
    let fields = vec![make_field("body", FieldType::Richtext)];
    let result = build_field_contexts(&fields, &empty(), &empty(), false, false);
    assert_eq!(result[0].richtext_format.as_deref(), Some("html"));
}

#[test]
fn richtext_format_json() {
    let mut field = make_field("body", FieldType::Richtext);
    field.admin.richtext_format = Some("json".to_string());
    let fields = vec![field];
    let result = build_field_contexts(&fields, &empty(), &empty(), false, false);
    assert_eq!(result[0].richtext_format.as_deref(), Some("json"));
}

fn make_nested_array(depth: usize) -> FieldDefinition {
    let mut field = FieldDefinition { name: format!("level{}", depth), field_type: FieldType::Array, ..Default::default() };
    if depth < 10 {
        field.fields = vec![make_nested_array(depth + 1)];
    } else {
        field.fields = vec![FieldDefinition { name: "leaf".to_string(), field_type: FieldType::Text, ..Default::default() }];
    }
    field
}

#[test]
fn builder_max_depth_prevents_infinite_recursion() {
    let fields = vec![make_nested_array(0)];
    let result = build_field_contexts(&fields, &empty(), &empty(), false, false);
    assert_eq!(result.len(), 1);
    assert_eq!(result[0].field_type, "array");
}

#[test]
fn date_value_is_cut_by_bytes() {
    let fields = vec![make_field("d", FieldType::Date)];
    let values = smap(&[("d", "é2026-01-15")]);
    let result = build_field_contexts(&fields, &values, &empty(), false, false);
    let v = "é2026-01-15";
    assert_eq!(result[0].date_only_value.as_deref(), Some(&v[..10]));
    let values = smap(&[("d", "2026")]);
    let result = build_field_contexts(&fields, &values, &empty(), false, false);
    assert_eq!(result[0].date_only_value.as_deref(), Some("2026"));
}

#[test]
fn has_many_text_with_invalid_json_has_no_tags() {
    let mut tags = make_field("tags", FieldType::Text);
    tags.has_many = true;
    let fields = vec![tags];
    let values = smap(&[("tags", "not json")]);
    let result = build_field_contexts(&fields, &values, &empty(), false, false);
    assert_eq!(result[0].tags.as_ref().map(|t| t.len()), Some(0));
}
