use crap_cms::builders::{AdminConfig, VersionSnapshotCtxBuilder, VersionsConfig};
use crap_cms::cli::parse_key_val;
use crap_cms::crypto::{
    base64_decode, base64_encode, decrypt, encrypt, hmac_sha256_hex, random_bytes_hex, sha256_hex,
};
use crap_cms::enrich::DocValue;
use crap_cms::events::{EventOperation, EventTarget};
use crap_cms::field::{FieldDefinition, FieldType, RelationshipConfig};
use crap_cms::forms::{extract_join_data_from_form, parse_array_form_data, parse_array_form_key, JoinValue};
use crap_cms::lifecycle::{
    access_kind, clamp_depth, cursor_page_flags, cursor_sort, denied_field_names,
    field_write_access_ref, global_table, hook_gate, is_draft_write, offset_pagination,
    new_verification_link, new_version_id, page_to_offset, should_store_password, verify_email_url,
    AccessKind, AccessReturn,
};
use crap_cms::status::{collection_status_line, migrations_summary, pending_migrations};
use crap_cms::strmap::StrMap;
use crap_cms::text::{auto_label_from_name, hex_encode, replace_str, safe_template_id, to_pascal_case};
use crap_cms::translations::Translations;
use crap_cms::typegen::{generate, generated_path, sort_strings, sorted_collection_slugs, Language};
use crap_cms::versions::{
    extract_snapshot_data, i64_to_decimal, join_restore_data, list_versions_sql,
    locale_restore_statement, prune_versions_sql, restore_locale_columns, snapshot_val_to_string,
    version_history_title, version_page_window, versions_page_url, SqlParam,
};

fn field(name: &str, ft: FieldType) -> FieldDefinition {
    FieldDefinition { name: name.to_string(), field_type: ft, ..Default::default() }
}

fn pairs(items: &[(&str, &str)]) -> Vec<(String, String)> {
    items.iter().map(|(k, v)| (k.to_string(), v.to_string())).collect()
}

fn strs(items: &[&str]) -> Vec<String> {
    items.iter().map(|s| s.to_string()).collect()
}

// --- crypto ---

#[test]
fn sha256_hex_known_digest() {
    assert_eq!(sha256_hex("abc"), "ba7816bf8f01cfea414140de5dae2223b00361a396177a9cb410ff61f20015ad");
    assert_eq!(sha256_hex(""), "e3b0c44298fc1c149afbf4c8996fb92427ae41e4649b934ca495991b7852b855");
}

#[test]
fn hmac_sha256_hex_known_tag() {
    assert_eq!(
        hmac_sha256_hex("The quick brown fox jumps over the lazy dog", "key"),
        "f7bc83f430538424b13298e6aa6fb143ef4d59a14946175997479dbc2d1a3cd8"
    );
}

#[test]
fn base64_encode_and_decode() {
    assert_eq!(base64_encode("hello"), "aGVsbG8=");
    assert_eq!(base64_encode(""), "");
    assert_eq!(base64_decode("aGVsbG8="), Ok("hello".to_string()));
    assert!(base64_decode("not base64!").unwrap_err().starts_with("base64 decode error: "));
    // 0xff is no UTF-8
    assert!(base64_decode("/w==").unwrap_err().starts_with("base64 decode utf8 error: "));
}

#[test]
fn encrypt_then_decrypt_round_trips() {
    let secret = "s3cret";
    let ct = encrypt("attack at dawn", secret).unwrap();
    assert_ne!(ct, "attack at dawn");
    assert_eq!(decrypt(&ct, secret), Ok("attack at dawn".to_string()));
    let empty = encrypt("", secret).unwrap();
    assert_eq!(decrypt(&empty, secret), Ok(String::new()));
}

#[test]
fn encrypt_uses_fresh_nonces() {
    let a = encrypt("same", "k").unwrap();
    let b = encrypt("same", "k").unwrap();
    assert_ne!(a, b);
}

#[test]
fn decrypt_errors_name_the_step() {
    assert!(decrypt("%%%", "k").unwrap_err().starts_with("base64 decode: "));
    assert_eq!(decrypt("AAAA", "k"), Err("ciphertext too short".to_string()));
    let ct = encrypt("text", "right").unwrap();
    assert!(decrypt(&ct, "wrong").unwrap_err().starts_with("decrypt error: "));
}

#[test]
fn random_bytes_hex_has_two_digits_per_byte() {
    let r = random_bytes_hex(16);
    assert_eq!(r.len(), 32);
    assert!(r.chars().all(|c| c.is_ascii_hexdigit() && !c.is_ascii_uppercase()));
    assert_eq!(random_bytes_hex(0), "");
}

#[test]
fn hex_encode_lower_case() {
    assert_eq!(hex_encode(&[0x00, 0x0f, 0xab, 0xff]), "000fabff");
}

// --- cli ---

#[test]
fn parse_key_val_splits_at_first_equals() {
    assert_eq!(parse_key_val("title=Hello"), Ok(("title".to_string(), "Hello".to_string())));
    assert_eq!(parse_key_val("a=b=c"), Ok(("a".to_string(), "b=c".to_string())));
    assert_eq!(parse_key_val("=v"), Ok((String::new(), "v".to_string())));
    assert_eq!(
        parse_key_val("novalue"),
        Err("invalid KEY=VALUE: no `=` found in `novalue`".to_string())
    );
}

// --- events ---

#[test]
fn event_names() {
    assert_eq!(EventTarget::Collection.as_str(), "collection");
    assert_eq!(EventTarget::Global.as_str(), "global");
    assert_eq!(EventOperation::Create.as_str(), "create");
    assert_eq!(EventOperation::Update.as_str(), "update");
    assert_eq!(EventOperation::Delete.as_str(), "delete");
}

// --- lifecycle ---

#[test]
fn hook_gate_defaults_and_limit() {
    assert_eq!(hook_gate(true, None, None), (true, false));
    assert_eq!(hook_gate(true, Some(3), None), (false, true));
    assert_eq!(hook_gate(true, Some(2), Some(3)), (true, false));
    assert_eq!(hook_gate(false, Some(5), Some(3)), (false, false));
}

#[test]
fn draft_and_depth() {
    assert!(is_draft_write(Some(true), true));
    assert!(!is_draft_write(Some(true), false));
    assert!(!is_draft_write(None, true));
    assert_eq!(clamp_depth(None), 0);
    assert_eq!(clamp_depth(Some(-4)), 0);
    assert_eq!(clamp_depth(Some(7)), 7);
    assert_eq!(clamp_depth(Some(99)), 10);
}

#[test]
fn pagination_offsets_and_facts() {
    assert_eq!(page_to_offset(3, Some(20), 10), 40);
    assert_eq!(page_to_offset(0, None, 10), 0);
    let p = offset_pagination(45, Some(10), 20, Some(20), None);
    assert_eq!(p.total_docs, 45);
    assert_eq!(p.total_pages, 5);
    assert_eq!(p.page, 3);
    assert_eq!(p.page_start, 21);
    assert!(p.has_next_page && p.has_prev_page);
    assert_eq!(p.prev_page, Some(2));
    assert_eq!(p.next_page, Some(4));
    let last = offset_pagination(45, None, 10, Some(40), Some(5));
    assert_eq!(last.page, 5);
    assert!(!last.has_next_page);
    assert_eq!(last.next_page, None);
    let empty = offset_pagination(0, Some(10), 10, None, None);
    assert_eq!(empty.total_pages, 0);
    assert_eq!(empty.page, 1);
    assert!(!empty.has_prev_page);
}

#[test]
fn cursor_sort_and_flags() {
    assert_eq!(cursor_sort(Some("-title"), false), ("title".to_string(), true));
    assert_eq!(cursor_sort(Some("title"), true), ("title".to_string(), false));
    assert_eq!(cursor_sort(None, true), ("created_at".to_string(), true));
    assert_eq!(cursor_sort(None, false), ("id".to_string(), false));
    assert_eq!(cursor_page_flags(false, false, 10, 10), (true, false));
    assert_eq!(cursor_page_flags(false, true, 3, 10), (false, true));
    assert_eq!(cursor_page_flags(true, false, 10, 10), (true, true));
    assert_eq!(cursor_page_flags(true, false, 0, 0), (true, false));
}

#[test]
fn access_results_and_field_access() {
    assert_eq!(access_kind(false, AccessReturn::Boolean(false)), AccessKind::Allowed);
    assert_eq!(access_kind(true, AccessReturn::Boolean(true)), AccessKind::Allowed);
    assert_eq!(access_kind(true, AccessReturn::Table), AccessKind::Constrained);
    assert_eq!(access_kind(true, AccessReturn::Nil), AccessKind::Denied);
    assert_eq!(access_kind(true, AccessReturn::Other), AccessKind::Denied);

    let mut f = field("secret", FieldType::Text);
    f.access.create = Some("hooks.access.admin".to_string());
    assert_eq!(field_write_access_ref(&f, "create").as_deref(), Some("hooks.access.admin"));
    assert_eq!(field_write_access_ref(&f, "update"), None);
    assert_eq!(field_write_access_ref(&f, "read"), None);

    let fields = vec![field("a", FieldType::Text), field("b", FieldType::Text), field("c", FieldType::Text)];
    let guarded = [true, true, false];
    let outcomes = [Some(AccessKind::Denied), Some(AccessKind::Allowed), None];
    assert_eq!(denied_field_names(&fields, &guarded, &outcomes), strs(&["a"]));
    let outcomes = [None, Some(AccessKind::Constrained), None];
    assert_eq!(denied_field_names(&fields, &guarded, &outcomes), strs(&["a"]));
}

#[test]
fn service_helpers() {
    assert!(should_store_password(Some("pw")));
    assert!(!should_store_password(Some("")));
    assert!(!should_store_password(None));
    assert_eq!(global_table("site"), "_global_site");
    assert_eq!(
        verify_email_url("localhost", 3000, "abc"),
        "http://localhost:3000/admin/verify-email?token=abc"
    );
}

// --- forms ---

#[test]
fn parse_array_form_key_cases() {
    assert_eq!(parse_array_form_key("items[0][title]", "items"), Some((0, "title".to_string())));
    assert_eq!(parse_array_form_key("items[12][a[b]]", "items"), Some((12, "a[b]".to_string())));
    assert_eq!(parse_array_form_key("items[+3][x]", "items"), Some((3, "x".to_string())));
    assert_eq!(parse_array_form_key("items[x][title]", "items"), None);
    assert_eq!(parse_array_form_key("items[0]title", "items"), None);
    assert_eq!(parse_array_form_key("other[0][title]", "items"), None);
    assert_eq!(parse_array_form_key("items[-1][title]", "items"), None);
}

#[test]
fn parse_array_form_data_orders_rows_by_index() {
    let form = pairs(&[
        ("slides[1][caption]", "second"),
        ("slides[0][title]", "first"),
        ("slides[0][caption]", "one"),
        ("title", "page"),
        ("slides[bad][x]", "ignored"),
    ]);
    let rows = parse_array_form_data(&form, "slides");
    assert_eq!(rows.len(), 2);
    assert_eq!(rows[0].get("title").map(|s| s.as_str()), Some("first"));
    assert_eq!(rows[0].get("caption").map(|s| s.as_str()), Some("one"));
    assert_eq!(rows[1].get("caption").map(|s| s.as_str()), Some("second"));
    assert!(rows[1].get("title").is_none());
    assert!(parse_array_form_data(&form, "missing").is_empty());
}

#[test]
fn extract_join_data_from_form_cases() {
    let mut tags = field("tags", FieldType::Relationship);
    tags.relationship = Some(RelationshipConfig {
        collection: "tags".to_string(),
        has_many: true,
        max_depth: None,
        polymorphic: vec![],
    });
    let mut author = field("author", FieldType::Relationship);
    author.relationship = Some(RelationshipConfig {
        collection: "users".to_string(),
        has_many: false,
        max_depth: None,
        polymorphic: vec![],
    });
    let mut cats = field("cats", FieldType::Relationship);
    cats.relationship = tags.relationship.clone();
    let defs = vec![
        field("title", FieldType::Text),
        tags,
        author,
        cats,
        field("items", FieldType::Array),
        field("content", FieldType::Blocks),
    ];
    let form = pairs(&[
        ("tags", "a,b"),
        ("items[0][x]", "1"),
        ("content[0][_block_type]", "hero"),
    ]);
    let data = extract_join_data_from_form(&form, &defs);
    assert_eq!(data.len(), 4);
    assert_eq!(data[0].0, "tags");
    assert!(matches!(&data[0].1, JoinValue::Ids(s) if s == "a,b"));
    assert_eq!(data[1].0, "cats");
    assert!(matches!(&data[1].1, JoinValue::Ids(s) if s.is_empty()));
    assert_eq!(data[2].0, "items");
    match &data[2].1 {
        JoinValue::Rows(rows) => {
            assert_eq!(rows.len(), 1);
            assert_eq!(rows[0].get("x").map(|s| s.as_str()), Some("1"));
        }
        _ => panic!("array rows expected"),
    }
    match &data[3].1 {
        JoinValue::Rows(rows) => assert_eq!(rows[0].get("_block_type").map(|s| s.as_str()), Some("hero")),
        _ => panic!("block rows expected"),
    }
}

// --- versions ---

#[test]
fn snapshot_values_to_column_text() {
    assert_eq!(snapshot_val_to_string(Some(&DocValue::Str("x".to_string()))), Some("x".to_string()));
    assert_eq!(snapshot_val_to_string(Some(&DocValue::Number("4.5".to_string()))), Some("4.5".to_string()));
    assert_eq!(snapshot_val_to_string(Some(&DocValue::Bool(true))), Some("true".to_string()));
    assert_eq!(snapshot_val_to_string(Some(&DocValue::Null)), Some(String::new()));
    assert_eq!(snapshot_val_to_string(None), Some(String::new()));
    assert_eq!(snapshot_val_to_string(Some(&DocValue::Array(vec![], "[]".to_string()))), None);
}

#[test]
fn extract_snapshot_data_flattens_groups() {
    let mut seo = field("seo", FieldType::Group);
    seo.fields = vec![field("meta_title", FieldType::Text), field("meta_desc", FieldType::Text)];
    let mut loc = field("body", FieldType::Text);
    loc.localized = true;
    let fields = vec![field("title", FieldType::Text), seo, loc, field("items", FieldType::Array)];
    let obj = vec![
        ("title".to_string(), DocValue::Str("Hi".to_string())),
        ("seo__meta_title".to_string(), DocValue::Str("flat".to_string())),
        (
            "seo".to_string(),
            DocValue::Object(
                vec![
                    ("meta_title".to_string(), DocValue::Str("nested".to_string())),
                    ("meta_desc".to_string(), DocValue::Str("desc".to_string())),
                ],
                r#"{"meta_title":"nested","meta_desc":"desc"}"#.to_string(),
            ),
        ),
        ("body".to_string(), DocValue::Str("text".to_string())),
        ("items".to_string(), DocValue::Array(vec![], "[]".to_string())),
    ];
    let data = extract_snapshot_data(&obj, &fields, true);
    assert_eq!(data.get("title").map(|s| s.as_str()), Some("Hi"));
    assert_eq!(data.get("seo__meta_title").map(|s| s.as_str()), Some("flat"));
    assert_eq!(data.get("seo__meta_desc").map(|s| s.as_str()), Some("desc"));
    assert!(data.get("body").is_none());
    assert!(data.get("items").is_none());
    let data = extract_snapshot_data(&obj, &fields, false);
    assert_eq!(data.get("body").map(|s| s.as_str()), Some("text"));
}

#[test]
fn restore_locale_columns_clears_and_sets_default() {
    let locales = strs(&["en", "de"]);
    let mut clauses: Vec<String> = Vec::new();
    let mut params: Vec<SqlParam> = Vec::new();
    let mut idx: usize = 1;
    restore_locale_columns(Some(&DocValue::Str("Hello".to_string())), "title", &locales, "en", &mut clauses, &mut params, &mut idx);
    assert_eq!(clauses, strs(&["title__en = ?1", "title__de = NULL"]));
    assert_eq!(params.len(), 1);
    assert!(matches!(&params[0], SqlParam::Text(s) if s == "Hello"));
    assert_eq!(idx, 2);
    restore_locale_columns(Some(&DocValue::Bool(true)), "flag", &locales, "en", &mut clauses, &mut params, &mut idx);
    assert_eq!(clauses[2], "flag__en = ?2");
    assert!(matches!(&params[1], SqlParam::Int(1)));
    assert_eq!(idx, 3);
    restore_locale_columns(None, "gone", &locales, "en", &mut clauses, &mut params, &mut idx);
    assert_eq!(clauses[4], "gone__en = NULL");
    assert_eq!(params.len(), 2);
    assert_eq!(idx, 3);
}

#[test]
fn locale_restore_statement_binds_id_last() {
    let mut title = field("title", FieldType::Text);
    title.localized = true;
    let fields = vec![title, field("plain", FieldType::Text)];
    let obj = vec![("title".to_string(), DocValue::Number("7".to_string()))];
    let locales = strs(&["en", "fr"]);
    let (sql, params) = locale_restore_statement("posts", "doc1", &fields, &obj, &locales, "en").unwrap();
    assert_eq!(sql, "UPDATE posts SET title__en = ?1, title__fr = NULL WHERE id = ?2");
    assert_eq!(params.len(), 2);
    assert!(matches!(&params[0], SqlParam::Text(s) if s == "7"));
    assert!(matches!(&params[1], SqlParam::Text(s) if s == "doc1"));
    let none = locale_restore_statement("posts", "doc1", &[field("plain", FieldType::Text)], &obj, &locales, "en");
    assert!(none.is_none());
}

#[test]
fn join_restore_takes_join_fields_present_in_snapshot() {
    let fields = vec![field("title", FieldType::Text), field("items", FieldType::Array), field("blocks", FieldType::Blocks)];
    let obj = vec![
        ("title".to_string(), DocValue::Str("x".to_string())),
        ("items".to_string(), DocValue::Array(vec![], "[]".to_string())),
    ];
    let r = join_restore_data(&obj, &fields);
    assert_eq!(r.len(), 1);
    assert_eq!(r[0].0, "items");
}

#[test]
fn version_queries() {
    assert_eq!(
        list_versions_sql("posts", Some(10), Some(20)),
        "SELECT id, _parent, _version, _status, _latest, snapshot, created_at, updated_at FROM _versions_posts WHERE _parent = ?1 ORDER BY _version DESC LIMIT 10 OFFSET 20"
    );
    assert_eq!(
        list_versions_sql("posts", None, None),
        "SELECT id, _parent, _version, _status, _latest, snapshot, created_at, updated_at FROM _versions_posts WHERE _parent = ?1 ORDER BY _version DESC"
    );
    assert_eq!(prune_versions_sql("posts", 0), None);
    assert_eq!(
        prune_versions_sql("posts", 5).unwrap(),
        "DELETE FROM _versions_posts WHERE _parent = ?1 AND id NOT IN (SELECT id FROM _versions_posts WHERE _parent = ?1 ORDER BY _version DESC LIMIT ?2)"
    );
    assert_eq!(i64_to_decimal(-42), "-42");
    assert_eq!(i64_to_decimal(i64::MIN), "-9223372036854775808");
}

#[test]
fn version_history_page() {
    assert_eq!(version_page_window(Some(3), Some(500), 20, 100), (3, 100, 200));
    assert_eq!(version_page_window(None, None, 20, 100), (1, 20, 0));
    assert_eq!(version_page_window(Some(-2), Some(10), 20, 100), (1, 10, 0));
    assert_eq!(versions_page_url("posts", "abc", 2), "/admin/collections/posts/abc/versions?page=2");
    assert_eq!(version_history_title("Hello"), "Version History — Hello");
}

// --- text, typegen, translations, builders, strmap ---

#[test]
fn text_helpers() {
    assert_eq!(auto_label_from_name("first_name"), "First Name");
    assert_eq!(to_pascal_case("blog_posts"), "BlogPosts");
    assert_eq!(safe_template_id("items[0][title]"), "items-0-title");
    assert_eq!(replace_str("a {{x}} b {{x}}", "{{x}}", "1"), "a 1 b 1");
}

#[test]
fn typegen_paths_and_sorting() {
    assert_eq!(generate(), "types/generated.lua");
    assert_eq!(generated_path(Language::Typescript), "types/generated.ts");
    assert_eq!(Language::from_str("Python"), Some(Language::Python));
    assert_eq!(sort_strings(&strs(&["b", "a", "ab", "B"])), strs(&["B", "a", "ab", "b"]));
    assert_eq!(sorted_collection_slugs(&strs(&["posts", "media", "pages"])), strs(&["media", "pages", "posts"]));
}

#[test]
fn translations_fallback_and_interpolation() {
    let t = Translations::from_layers(
        pairs(&[("greet", "Hello {{name}}"), ("bye", "Bye")]),
        pairs(&[("bye", "Ciao")]),
    );
    assert_eq!(t.get("bye"), "Ciao");
    assert_eq!(t.get("missing.key"), "missing.key");
    assert_eq!(t.get_interpolated("greet", &pairs(&[("name", "Ana")])), "Hello Ana");
    assert_eq!(t.get_interpolated("greet", &[]), "Hello {{name}}");
}

#[test]
fn builders_keep_what_was_set() {
    let c = AdminConfig::builder().use_as_title(Some("title".to_string())).hidden(true).build();
    assert_eq!(c.use_as_title.as_deref(), Some("title"));
    assert!(c.hidden);
    assert!(c.default_sort.is_none());
    let v = VersionsConfig { drafts: true, max_versions: 3 };
    let fields = vec![field("title", FieldType::Text)];
    let ctx = VersionSnapshotCtxBuilder::new("posts", "id1").fields(&fields).versions(Some(&v)).has_drafts(true).build();
    assert_eq!(ctx.table, "posts");
    assert_eq!(ctx.parent_id, "id1");
    assert_eq!(ctx.fields.len(), 1);
    assert!(ctx.has_drafts);
    assert_eq!(ctx.versions.unwrap().max_versions, 3);
}

#[test]
fn strmap_and_string_lists() {
    let mut m = StrMap::new();
    m.insert("k".to_string(), "v".to_string());
    m.insert("k".to_string(), "w".to_string());
    assert_eq!(m.get_or_empty("k"), "w");
    assert_eq!(m.get_or_empty("x"), "");
    assert!(m.contains_key("k"));
}

// --- status report ---

#[test]
fn status_collection_lines() {
    assert_eq!(collection_status_line("posts", 3, false, false), format!("  {:<20} {} row(s)", "posts", 3));
    assert_eq!(collection_status_line("users", 1, true, false), "  users                1 row(s) [auth]");
    assert_eq!(collection_status_line("media", 0, false, true), "  media                0 row(s) [upload]");
    assert_eq!(collection_status_line("both", 2, true, true), "  both                 2 row(s) [auth, upload]");
    let long = "a_very_long_collection_slug";
    assert_eq!(collection_status_line(long, 7, false, false), format!("  {} 7 row(s)", long));
}

#[test]
fn status_migration_counts() {
    let all = strs(&["001_a.lua", "002_b.lua", "003_c.lua"]);
    let applied = strs(&["001_a.lua", "003_c.lua", "999_gone.lua"]);
    assert_eq!(pending_migrations(&all, &applied), 1);
    assert_eq!(pending_migrations(&all, &vec![]), 3);
    assert_eq!(migrations_summary(3, 3, 1), "Migrations: 3 total, 3 applied, 1 pending");
}

#[test]
fn fresh_ids_and_verification_links() {
    let (token, url) = new_verification_link("example.com", 8080);
    assert_eq!(token.chars().count(), 32);
    assert!(token.chars().all(|c| c.is_ascii_alphanumeric() || c == '_' || c == '-'));
    assert_eq!(url, format!("http://example.com:8080/admin/verify-email?token={}", token));
    let a = new_version_id();
    let b = new_version_id();
    assert_eq!(a.chars().count(), 21);
    assert!(a.chars().all(|c| c.is_ascii_alphanumeric() || c == '_' || c == '-'));
    assert_ne!(a, b);
}

#[test]
fn base64_round_trip_of_unicode_text() {
    let s = "héllo — wörld ✓";
    assert_eq!(base64_decode(&base64_encode(s)), Ok(s.to_string()));
}

#[test]
fn translations_from_json_texts() {
    let en = r#"{"greet": "Hello {{name}}", "bye": "Bye"}"#;
    let t = Translations::from_json_texts(en, Some(r#"{"bye": "Tschüss"}"#));
    assert_eq!(t.get("bye"), "Tschüss");
    assert_eq!(t.get("greet"), "Hello {{name}}");
    assert_eq!(t.get("other"), "other");
    let ignored = Translations::from_json_texts(en, Some("not json"));
    assert_eq!(ignored.get("bye"), "Bye");
    let no_file = Translations::from_json_texts(en, None);
    assert_eq!(no_file.get("greet"), "Hello {{name}}");
    let bad_base = Translations::from_json_texts("[1, 2]", Some(r#"{"x": "y"}"#));
    assert_eq!(bad_base.get("bye"), "bye");
    assert_eq!(bad_base.get("x"), "y");
    let not_strings = Translations::from_json_texts(en, Some(r#"{"bye": 3}"#));
    assert_eq!(not_strings.get("bye"), "Bye");
}

#[test]
fn interpolation_order_does_not_matter() {
    let t = Translations::from_json_texts(r#"{"msg": "{{who}} sent {{count}} files to {{other}}"}"#, None);
    let forward = t.get_interpolated("msg", &pairs(&[("who", "Ana"), ("count", "3")]));
    let backward = t.get_interpolated("msg", &pairs(&[("count", "3"), ("who", "Ana")]));
    assert_eq!(forward, "Ana sent 3 files to {{other}}");
    assert_eq!(forward, backward);
}
