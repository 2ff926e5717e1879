use crap_cms::context::{FieldContext, MAX_FIELD_DEPTH};
use crap_cms::enrich::{build_enriched_sub_field_context, enrich_document_rows, DocValue};
use crap_cms::field::{
    BlockDefinition, FieldDefinition, FieldTab, FieldType, LocalizedString, RelationshipConfig,
    SelectOption,
};
use crap_cms::field_builder::build_field_contexts;
use crap_cms::strmap::StrMap;

fn make_field(name: &str, ft: FieldType) -> FieldDefinition {
    FieldDefinition { name: name.to_string(), field_type: ft, ..Default::default() }
}

fn empty() -> StrMap {
    StrMap::new()
}

fn plain(s: &str) -> LocalizedString {
    LocalizedString::Plain(s.to_string())
}

fn convert(v: &serde_json::Value) -> DocValue {
    match v {
        serde_json::Value::Null => DocValue::Null,
        serde_json::Value::Bool(b) => DocValue::Bool(*b),
        serde_json::Value::Number(n) => DocValue::Number(n.to_string()),
        serde_json::Value::String(s) => DocValue::Str(s.clone()),
        serde_json::Value::Array(items) => {
            DocValue::Array(items.iter().map(convert).collect(), v.to_string())
        }
        serde_json::Value::Object(ms) => DocValue::Object(
            ms.iter().map(|(k, x)| (k.clone(), convert(x))).collect(),
            v.to_string(),
        ),
    }
}

/// A stored value written as JSON text.
fn doc(json: &str) -> DocValue {
    let v: serde_json::Value = serde_json::from_str(json).unwrap();
    convert(&v)
}

fn doc_fields(pairs: &[(&str, &str)]) -> Vec<(String, DocValue)> {
    pairs.iter().map(|(k, j)| (k.to_string(), doc(j))).collect()
}

fn subs(c: &FieldContext) -> &Vec<FieldContext> {
    c.sub_fields.as_ref().unwrap()
}

fn text_block(block_type: &str, label: Option<&str>, fields: Vec<FieldDefinition>) -> BlockDefinition {
    BlockDefinition {
        block_type: block_type.to_string(),
        label: label.map(plain),
        fields,
        ..Default::default()
    }
}

// --- Recursive enrichment tests (build_enriched_sub_field_context) ---

#[test]
fn enriched_sub_field_nested_array_populates_rows() {
    let mut inner_array = make_field("images", FieldType::Array);
    inner_array.fields = vec![make_field("url", FieldType::Text), make_field("alt", FieldType::Text)];
    let raw_value = doc(r#"[{"url": "img1.jpg", "alt": "First"}, {"url": "img2.jpg", "alt": "Second"}]"#);
    let ctx = build_enriched_sub_field_context(&inner_array, Some(&raw_value), "content", 0, false, false, 1, &empty());
    assert_eq!(ctx.field_type, "array");
    assert_eq!(ctx.row_count, Some(2));
    let rows = ctx.rows_data.as_ref().unwrap();
    assert_eq!(rows.len(), 2);
    let row0_fields = &rows[0].sub_fields;
    assert_eq!(row0_fields[0].name, "content[0][images][0][url]");
    assert_eq!(row0_fields[0].value, "img1.jpg");
    assert_eq!(row0_fields[1].name, "content[0][images][0][alt]");
    assert_eq!(row0_fields[1].value, "First");
    let row1_fields = &rows[1].sub_fields;
    assert_eq!(row1_fields[0].value, "img2.jpg");
    assert_eq!(row1_fields[1].value, "Second");
    let template_sub = subs(&ctx);
    assert_eq!(template_sub[0].name, "content[0][images][__INDEX__][url]");
}

#[test]
fn enriched_sub_field_nested_blocks_populates_rows() {
    let mut inner_blocks = make_field("sections", FieldType::Blocks);
    inner_blocks.blocks = vec![text_block("text", Some("Text"), vec![make_field("body", FieldType::Richtext)])];
    let raw_value = doc(r#"[{"_block_type": "text", "body": "<p>Hello</p>"}]"#);
    let ctx = build_enriched_sub_field_context(&inner_blocks, Some(&raw_value), "page", 2, false, false, 1, &empty());
    assert_eq!(ctx.field_type, "blocks");
    assert_eq!(ctx.row_count, Some(1));
    let rows = ctx.rows_data.as_ref().unwrap();
    assert_eq!(rows[0].block_type.as_deref(), Some("text"));
    assert_eq!(rows[0].block_label.as_deref(), Some("Text"));
    let sub_fields = &rows[0].sub_fields;
    assert_eq!(sub_fields[0].name, "page[2][sections][0][body]");
    assert_eq!(sub_fields[0].value, "<p>Hello</p>");
    let block_defs = ctx.block_definitions.as_ref().unwrap();
    assert_eq!(block_defs.len(), 1);
}

#[test]
fn enriched_sub_field_nested_group_populates_values() {
    let mut inner_group = make_field("meta", FieldType::Group);
    inner_group.fields = vec![make_field("author", FieldType::Text), make_field("published", FieldType::Checkbox)];
    let raw_value = doc(r#"{"author": "Alice", "published": "1"}"#);
    let ctx = build_enriched_sub_field_context(&inner_group, Some(&raw_value), "items", 0, false, false, 1, &empty());
    assert_eq!(ctx.field_type, "group");
    let sub_fields = subs(&ctx);
    assert_eq!(sub_fields.len(), 2);
    assert_eq!(sub_fields[0].name, "items[0][meta][author]");
    assert_eq!(sub_fields[0].value, "Alice");
    assert_eq!(sub_fields[1].name, "items[0][meta][published]");
    assert_eq!(sub_fields[1].checked, Some(true));
}

#[test]
fn enriched_sub_field_empty_nested_array() {
    let mut inner_array = make_field("tags", FieldType::Array);
    inner_array.fields = vec![make_field("name", FieldType::Text)];
    let ctx = build_enriched_sub_field_context(&inner_array, None, "items", 0, false, false, 1, &empty());
    assert_eq!(ctx.field_type, "array");
    assert_eq!(ctx.row_count, Some(0));
    assert!(ctx.rows_data.as_ref().unwrap().is_empty());
}

#[test]
fn enriched_sub_field_select_preserves_selected() {
    let mut select_field = make_field("status", FieldType::Select);
    select_field.options = vec![
        SelectOption { label: plain("Draft"), value: "draft".to_string() },
        SelectOption { label: plain("Published"), value: "published".to_string() },
    ];
    let raw_value = doc(r#""published""#);
    let ctx = build_enriched_sub_field_context(&select_field, Some(&raw_value), "items", 0, false, false, 1, &empty());
    let opts = ctx.options.as_ref().unwrap();
    assert!(!opts[0].selected);
    assert!(opts[1].selected);
}

fn make_nested_array(depth: usize) -> FieldDefinition {
    let mut field = FieldDefinition { name: format!("level{}", depth), field_type: FieldType::Array, ..Default::default() };
    if depth < 10 {
        field.fields = vec![make_nested_array(depth + 1)];
    } else {
        field.fields = vec![FieldDefinition { name: "leaf".to_string(), field_type: FieldType::Text, ..Default::default() }];
    }
    field
}

#[test]
fn enrich_max_depth_prevents_infinite_recursion() {
    let fields = vec![make_nested_array(0)];
    let result = build_field_contexts(&fields, &empty(), &empty(), false, false);
    assert_eq!(result.len(), 1);
    assert_eq!(result[0].field_type, "array");
}

// --- enriched_sub_field: error propagation ---

#[test]
fn enriched_sub_field_with_error() {
    let sf = make_field("title", FieldType::Text);
    let mut errors = StrMap::new();
    errors.insert("content[0][title]".to_string(), "Required".to_string());
    let ctx = build_enriched_sub_field_context(&sf, Some(&doc(r#""val""#)), "content", 0, false, false, 1, &errors);
    assert_eq!(ctx.error.as_deref(), Some("Required"));
}

// --- enriched_sub_field: max depth ---

#[test]
fn enriched_sub_field_max_depth_returns_early() {
    let mut arr = make_field("deep", FieldType::Array);
    arr.fields = vec![make_field("leaf", FieldType::Text)];
    let ctx = build_enriched_sub_field_context(&arr, Some(&doc("[]")), "parent", 0, false, false, MAX_FIELD_DEPTH, &empty());
    assert!(ctx.rows_data.is_none());
    assert!(ctx.sub_fields.is_none());
}

// --- enriched_sub_field: date field ---

#[test]
fn enriched_sub_field_date_day_only() {
    let sf = make_field("d", FieldType::Date);
    let raw = doc(r#""2026-03-15T10:00:00Z""#);
    let ctx = build_enriched_sub_field_context(&sf, Some(&raw), "items", 0, false, false, 1, &empty());
    assert_eq!(ctx.picker_appearance.as_deref(), Some("dayOnly"));
    assert_eq!(ctx.date_only_value.as_deref(), Some("2026-03-15"));
}

#[test]
fn enriched_sub_field_date_day_and_time() {
    let mut sf = make_field("d", FieldType::Date);
    sf.picker_appearance = Some("dayAndTime".to_string());
    let raw = doc(r#""2026-03-15T10:30:00Z""#);
    let ctx = build_enriched_sub_field_context(&sf, Some(&raw), "items", 0, false, false, 1, &empty());
    assert_eq!(ctx.picker_appearance.as_deref(), Some("dayAndTime"));
    assert_eq!(ctx.datetime_local_value.as_deref(), Some("2026-03-15T10:30"));
}

#[test]
fn enriched_sub_field_date_short_value() {
    let sf = make_field("d", FieldType::Date);
    let raw = doc(r#""short""#);
    let ctx = build_enriched_sub_field_context(&sf, Some(&raw), "items", 0, false, false, 1, &empty());
    assert_eq!(ctx.date_only_value.as_deref(), Some("short"));
}

// --- enriched_sub_field: upload and relationship fields ---

#[test]
fn enriched_sub_field_upload() {
    let mut sf = make_field("image", FieldType::Upload);
    sf.relationship = Some(RelationshipConfig {
        collection: "media".to_string(),
        has_many: false,
        max_depth: None,
        polymorphic: vec![],
    });
    let ctx = build_enriched_sub_field_context(&sf, Some(&doc(r#""img123""#)), "items", 0, false, false, 1, &empty());
    assert_eq!(ctx.relationship_collection.as_deref(), Some("media"));
    assert_eq!(ctx.picker.as_deref(), Some("drawer"));
}

#[test]
fn enriched_sub_field_relationship() {
    let mut sf = make_field("author", FieldType::Relationship);
    sf.relationship = Some(RelationshipConfig {
        collection: "users".to_string(),
        has_many: true,
        max_depth: None,
        polymorphic: vec![],
    });
    let ctx = build_enriched_sub_field_context(&sf, Some(&doc(r#""user1""#)), "items", 0, false, false, 1, &empty());
    assert_eq!(ctx.relationship_collection.as_deref(), Some("users"));
    assert_eq!(ctx.has_many, Some(true));
}

// --- enriched_sub_field: value stringification ---

#[test]
fn enriched_sub_field_null_value_empty_string() {
    let sf = make_field("title", FieldType::Text);
    let ctx = build_enriched_sub_field_context(&sf, Some(&DocValue::Null), "items", 0, false, false, 1, &empty());
    assert_eq!(ctx.value, "");
}

#[test]
fn enriched_sub_field_number_to_string() {
    let sf = make_field("count", FieldType::Number);
    let ctx = build_enriched_sub_field_context(&sf, Some(&doc("42")), "items", 0, false, false, 1, &empty());
    assert_eq!(ctx.value, "42");
}

#[test]
fn enriched_sub_field_no_value() {
    let sf = make_field("title", FieldType::Text);
    let ctx = build_enriched_sub_field_context(&sf, None, "items", 0, false, false, 1, &empty());
    assert_eq!(ctx.value, "");
}

// --- enriched_sub_field: array and blocks options ---

#[test]
fn enriched_sub_field_array_with_options() {
    let mut arr = make_field("tags", FieldType::Array);
    arr.fields = vec![make_field("name", FieldType::Text)];
    arr.min_rows = Some(1);
    arr.max_rows = Some(5);
    arr.admin.collapsed = true;
    arr.admin.labels_singular = Some(plain("Tag"));
    let ctx = build_enriched_sub_field_context(&arr, Some(&doc("[]")), "items", 0, false, false, 1, &empty());
    assert_eq!(ctx.min_rows, Some(1));
    assert_eq!(ctx.max_rows, Some(5));
    assert_eq!(ctx.init_collapsed, Some(true));
    assert_eq!(ctx.add_label.as_deref(), Some("Tag"));
}

#[test]
fn enriched_sub_field_blocks_with_options() {
    let mut blk = make_field("sections", FieldType::Blocks);
    blk.blocks = vec![text_block("text", None, vec![make_field("body", FieldType::Text)])];
    blk.min_rows = Some(0);
    blk.max_rows = Some(10);
    blk.admin.collapsed = true;
    blk.admin.labels_singular = Some(plain("Section"));
    blk.admin.label_field = Some("body".to_string());
    let ctx = build_enriched_sub_field_context(&blk, Some(&doc("[]")), "items", 0, false, false, 1, &empty());
    assert_eq!(ctx.min_rows, Some(0));
    assert_eq!(ctx.max_rows, Some(10));
    assert_eq!(ctx.init_collapsed, Some(true));
    assert_eq!(ctx.add_label.as_deref(), Some("Section"));
    assert_eq!(ctx.label_field.as_deref(), Some("body"));
}

// --- enriched_sub_field: row errors ---

#[test]
fn enriched_sub_field_nested_array_row_errors() {
    let mut inner_array = make_field("items", FieldType::Array);
    inner_array.fields = vec![make_field("title", FieldType::Text)];
    let raw_value = doc(r#"[{"title": ""}]"#);
    let mut errors = StrMap::new();
    errors.insert("parent[0][items][0][title]".to_string(), "Required".to_string());
    let ctx = build_enriched_sub_field_context(&inner_array, Some(&raw_value), "parent", 0, false, false, 1, &errors);
    let rows = ctx.rows_data.as_ref().unwrap();
    assert_eq!(rows.len(), 1);
    assert_eq!(rows[0].sub_fields[0].error.as_deref(), Some("Required"));
    assert!(rows[0].has_errors);
}

#[test]
fn enriched_sub_field_nested_blocks_row_errors() {
    let mut blk = make_field("sections", FieldType::Blocks);
    blk.blocks = vec![text_block("text", Some("Text"), vec![make_field("body", FieldType::Richtext)])];
    let raw_value = doc(r#"[{"_block_type": "text", "body": ""}]"#);
    let mut errors = StrMap::new();
    errors.insert("parent[0][sections][0][body]".to_string(), "Required".to_string());
    let ctx = build_enriched_sub_field_context(&blk, Some(&raw_value), "parent", 0, false, false, 1, &errors);
    let rows = ctx.rows_data.as_ref().unwrap();
    assert_eq!(rows.len(), 1);
    assert!(rows[0].has_errors);
}

// --- enriched_sub_field: groups ---

#[test]
fn enriched_sub_field_group_collapsed() {
    let mut grp = make_field("meta", FieldType::Group);
    grp.fields = vec![make_field("author", FieldType::Text)];
    grp.admin.collapsed = true;
    let raw = doc(r#"{"author": "Alice"}"#);
    let ctx = build_enriched_sub_field_context(&grp, Some(&raw), "items", 0, false, false, 1, &empty());
    assert_eq!(ctx.collapsed, Some(true));
}

#[test]
fn enriched_sub_field_group_with_null_value() {
    let mut grp = make_field("meta", FieldType::Group);
    grp.fields = vec![make_field("author", FieldType::Text)];
    let ctx = build_enriched_sub_field_context(&grp, Some(&DocValue::Null), "items", 0, false, false, 1, &empty());
    let sub_fields = subs(&ctx);
    assert_eq!(sub_fields[0].value, "");
}

#[test]
fn enriched_sub_field_nested_blocks_unknown_type() {
    let mut blk = make_field("sections", FieldType::Blocks);
    blk.blocks = vec![text_block("text", Some("Text"), vec![make_field("body", FieldType::Richtext)])];
    let raw_value = doc(r#"[{"_block_type": "unknown_type", "body": "content"}]"#);
    let ctx = build_enriched_sub_field_context(&blk, Some(&raw_value), "parent", 0, false, false, 1, &empty());
    let rows = ctx.rows_data.as_ref().unwrap();
    assert_eq!(rows.len(), 1);
    assert_eq!(rows[0].block_type.as_deref(), Some("unknown_type"));
    assert_eq!(rows[0].block_label.as_deref(), Some("unknown_type"));
    assert!(rows[0].sub_fields.is_empty());
}

// --- filling rows of a built form from a stored document ---

#[test]
fn enrich_field_contexts_blocks_inside_tabs_populates_rows() {
    let blocks_field = FieldDefinition {
        name: "content".to_string(),
        field_type: FieldType::Blocks,
        blocks: vec![text_block("hero", Some("Hero"), vec![make_field("heading", FieldType::Text)])],
        ..Default::default()
    };
    let tabs_field = FieldDefinition {
        name: "page_settings".to_string(),
        field_type: FieldType::Tabs,
        tabs: vec![FieldTab { label: "Content".to_string(), description: None, fields: vec![blocks_field] }],
        ..Default::default()
    };
    let field_defs = vec![tabs_field];
    let mut contexts = build_field_contexts(&field_defs, &empty(), &empty(), false, false);
    let doc_fields = doc_fields(&[("content", r#"[{"_block_type": "hero", "heading": "Welcome"}]"#)]);
    enrich_document_rows(&mut contexts, &field_defs, &doc_fields, false, false, &empty());
    let tabs = contexts[0].tabs.as_ref().unwrap();
    let blocks_ctx = &tabs[0].sub_fields[0];
    assert_eq!(blocks_ctx.field_type, "blocks");
    let rows = blocks_ctx.rows_data.as_ref().expect("blocks inside Tabs must have rows populated from doc_fields");
    assert_eq!(rows.len(), 1, "should have 1 block row");
    assert_eq!(rows[0].block_type.as_deref(), Some("hero"));
}

#[test]
fn enrich_field_contexts_array_inside_row_populates_rows() {
    let array_field = FieldDefinition {
        name: "items".to_string(),
        field_type: FieldType::Array,
        fields: vec![make_field("label", FieldType::Text)],
        ..Default::default()
    };
    let row_field = FieldDefinition {
        name: "main_row".to_string(),
        field_type: FieldType::Row,
        fields: vec![array_field],
        ..Default::default()
    };
    let field_defs = vec![row_field];
    let mut contexts = build_field_contexts(&field_defs, &empty(), &empty(), false, false);
    let doc_fields = doc_fields(&[("items", r#"[{"label": "First"}, {"label": "Second"}]"#)]);
    enrich_document_rows(&mut contexts, &field_defs, &doc_fields, false, false, &empty());
    let array_ctx = &subs(&contexts[0])[0];
    assert_eq!(array_ctx.field_type, "array");
    let rows = array_ctx.rows_data.as_ref().expect("array inside Row must have rows populated from doc_fields");
    assert_eq!(rows.len(), 2, "should have 2 array rows");
}

// --- layout wrappers inside arrays: transparent names and data ---

#[test]
fn enriched_sub_field_tabs_in_array_transparent_names() {
    let mut arr_field = make_field("items", FieldType::Array);
    arr_field.fields = vec![FieldDefinition {
        name: "layout".to_string(),
        field_type: FieldType::Tabs,
        tabs: vec![
            FieldTab { label: "General".to_string(), description: None, fields: vec![make_field("title", FieldType::Text)] },
            FieldTab { label: "Content".to_string(), description: None, fields: vec![make_field("body", FieldType::Textarea)] },
        ],
        ..Default::default()
    }];
    let fields = vec![arr_field];
    let mut contexts = build_field_contexts(&fields, &empty(), &empty(), false, false);
    let doc_fields = doc_fields(&[("items", r#"[{"id": "r1", "title": "Hello", "body": "World"}]"#)]);
    enrich_document_rows(&mut contexts, &fields, &doc_fields, false, false, &empty());
    let rows = contexts[0].rows_data.as_ref().expect("should have rows");
    assert_eq!(rows.len(), 1);
    let row_sub_fields = &rows[0].sub_fields;
    assert_eq!(row_sub_fields.len(), 1);
    assert_eq!(row_sub_fields[0].field_type, "tabs");
    assert_eq!(row_sub_fields[0].name, "items[0]");
    let tabs = row_sub_fields[0].tabs.as_ref().unwrap();
    assert_eq!(tabs.len(), 2);
    assert_eq!(tabs[0].sub_fields[0].name, "items[0][title]");
    assert_eq!(tabs[0].sub_fields[0].value, "Hello");
    assert_eq!(tabs[1].sub_fields[0].name, "items[0][body]");
    assert_eq!(tabs[1].sub_fields[0].value, "World");
}

#[test]
fn enriched_sub_field_row_in_array_transparent_names() {
    let mut arr_field = make_field("items", FieldType::Array);
    arr_field.fields = vec![FieldDefinition {
        name: "row_wrap".to_string(),
        field_type: FieldType::Row,
        fields: vec![make_field("x", FieldType::Text), make_field("y", FieldType::Text)],
        ..Default::default()
    }];
    let fields = vec![arr_field];
    let mut contexts = build_field_contexts(&fields, &empty(), &empty(), false, false);
    let doc_fields = doc_fields(&[("items", r#"[{"id": "r1", "x": "10", "y": "20"}]"#)]);
    enrich_document_rows(&mut contexts, &fields, &doc_fields, false, false, &empty());
    let rows = contexts[0].rows_data.as_ref().expect("should have rows");
    assert_eq!(rows.len(), 1);
    let row_sub_fields = &rows[0].sub_fields;
    assert_eq!(row_sub_fields.len(), 1);
    assert_eq!(row_sub_fields[0].field_type, "row");
    assert_eq!(row_sub_fields[0].name, "items[0]");
    let children = subs(&row_sub_fields[0]);
    assert_eq!(children[0].name, "items[0][x]");
    assert_eq!(children[0].value, "10");
    assert_eq!(children[1].name, "items[0][y]");
    assert_eq!(children[1].value, "20");
}

#[test]
fn enriched_sub_field_row_inside_tabs_in_array_transparent_names() {
    let mut arr_field = make_field("team_members", FieldType::Array);
    arr_field.fields = vec![FieldDefinition {
        name: "member_tabs".to_string(),
        field_type: FieldType::Tabs,
        tabs: vec![
            FieldTab {
                label: "Personal".to_string(),
                description: None,
                fields: vec![
                    FieldDefinition {
                        name: "name_row".to_string(),
                        field_type: FieldType::Row,
                        fields: vec![make_field("first_name", FieldType::Text), make_field("last_name", FieldType::Text)],
                        ..Default::default()
                    },
                    make_field("email", FieldType::Email),
                ],
            },
            FieldTab { label: "Professional".to_string(), description: None, fields: vec![make_field("job_title", FieldType::Text)] },
        ],
        ..Default::default()
    }];
    let fields = vec![arr_field];
    let mut contexts = build_field_contexts(&fields, &empty(), &empty(), false, false);
    let doc_fields = doc_fields(&[(
        "team_members",
        r#"[{"id": "r1", "first_name": "John", "last_name": "Doe", "email": "john@example.com", "job_title": "Dev"}]"#,
    )]);
    enrich_document_rows(&mut contexts, &fields, &doc_fields, false, false, &empty());
    let rows = contexts[0].rows_data.as_ref().expect("should have rows");
    assert_eq!(rows.len(), 1);
    let row_sub_fields = &rows[0].sub_fields;
    assert_eq!(row_sub_fields.len(), 1);
    assert_eq!(row_sub_fields[0].field_type, "tabs");
    assert_eq!(row_sub_fields[0].name, "team_members[0]");
    let tabs = row_sub_fields[0].tabs.as_ref().unwrap();
    assert_eq!(tabs.len(), 2);
    let personal_fields = &tabs[0].sub_fields;
    assert_eq!(personal_fields.len(), 2);
    assert_eq!(personal_fields[0].field_type, "row");
    assert_eq!(personal_fields[0].name, "team_members[0]");
    let row_children = subs(&personal_fields[0]);
    assert_eq!(row_children[0].name, "team_members[0][first_name]");
    assert_eq!(row_children[0].value, "John");
    assert_eq!(row_children[1].name, "team_members[0][last_name]");
    assert_eq!(row_children[1].value, "Doe");
    assert_eq!(personal_fields[1].name, "team_members[0][email]");
    assert_eq!(personal_fields[1].value, "john@example.com");
    let pro_fields = &tabs[1].sub_fields;
    assert_eq!(pro_fields[0].name, "team_members[0][job_title]");
    assert_eq!(pro_fields[0].value, "Dev");
}

// --- own checks: stored values and row filling ---

#[test]
fn enriched_sub_field_bool_and_object_values_show_json_text() {
    let sf = make_field("flag", FieldType::Text);
    let ctx = build_enriched_sub_field_context(&sf, Some(&doc("true")), "items", 3, false, false, 1, &empty());
    assert_eq!(ctx.value, "true");
    assert_eq!(ctx.name, "items[3][flag]");
    let ctx = build_enriched_sub_field_context(&sf, Some(&doc(r#"{"a":1}"#)), "items", 0, false, false, 1, &empty());
    assert_eq!(ctx.value, r#"{"a":1}"#);
}

#[test]
fn enriched_sub_field_locale_locked_is_readonly() {
    let sf = make_field("title", FieldType::Text);
    let ctx = build_enriched_sub_field_context(&sf, Some(&doc(r#""x""#)), "items", 0, true, false, 1, &empty());
    assert!(ctx.readonly);
    assert!(ctx.locale_locked);
}

#[test]
fn enrich_document_rows_leaves_fields_without_rows_alone() {
    let fields = vec![make_field("title", FieldType::Text)];
    let mut values = StrMap::new();
    values.insert("title".to_string(), "Hi".to_string());
    let mut contexts = build_field_contexts(&fields, &values, &empty(), false, false);
    let doc_fields = doc_fields(&[("title", r#""Other""#)]);
    enrich_document_rows(&mut contexts, &fields, &doc_fields, false, false, &empty());
    assert_eq!(contexts[0].value, "Hi");
    assert!(contexts[0].rows_data.is_none());
}
