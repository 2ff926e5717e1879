use crap_cms::builders::{AdminConfig, VersionsConfig};
use crap_cms::collection::{
    AuthStrategy, CollectionAccess, CollectionAuth, CollectionDefinition, CollectionHooks,
    CollectionLabels, CollectionUpload, FormatOptions, FormatQuality, GlobalDefinition, ImageFit,
    ImageSize, LiveSetting,
};
use crap_cms::field::{BlockDefinition, FieldDefinition, FieldType, LocalizedString, RelationshipConfig, SelectOption};
use crap_cms::lua_tables::{
    collection_config_to_lua, collection_def_to_lua_table, collection_hooks_to_lua, collection_list_to_lua,
    field_config_to_lua, field_def_to_lua_table, global_config_to_lua, global_def_to_lua_table,
    global_list_to_lua, localized_string_to_lua, LuaValue,
};

fn field(name: &str, ft: FieldType) -> FieldDefinition {
    FieldDefinition { name: name.to_string(), field_type: ft, ..Default::default() }
}

fn keys(v: &LuaValue) -> Vec<&str> {
    match v {
        LuaValue::Record(es) => es.iter().map(|(k, _)| k.as_str()).collect(),
        _ => panic!("record expected"),
    }
}

fn get<'a>(v: &'a LuaValue, k: &str) -> &'a LuaValue {
    match v {
        LuaValue::Record(es) => &es.iter().find(|(key, _)| key == k).unwrap().1,
        _ => panic!("record expected"),
    }
}

fn text(v: &LuaValue) -> &str {
    match v {
        LuaValue::Str(s) => s,
        _ => panic!("string expected"),
    }
}

fn flag(v: &LuaValue) -> bool {
    match v {
        LuaValue::Bool(b) => *b,
        _ => panic!("bool expected"),
    }
}

fn items(v: &LuaValue) -> &Vec<LuaValue> {
    match v {
        LuaValue::List(items) => items,
        _ => panic!("list expected"),
    }
}

#[test]
fn schema_table_of_plain_field() {
    let t = field_def_to_lua_table(&field("title", FieldType::Text));
    assert_eq!(keys(&t), vec!["name", "type", "required", "localized", "unique"]);
    assert_eq!(text(get(&t, "name")), "title");
    assert_eq!(text(get(&t, "type")), "text");
    assert!(!flag(get(&t, "required")));
}

#[test]
fn schema_table_of_relationship_and_options() {
    let mut f = field("tags", FieldType::Relationship);
    f.required = true;
    f.relationship = Some(RelationshipConfig {
        collection: "tags".to_string(),
        has_many: false,
        max_depth: Some(2),
        polymorphic: vec![],
    });
    f.options = vec![SelectOption {
        label: LocalizedString::Localized(vec![("de".to_string(), "Eins".to_string()), ("en".to_string(), "One".to_string())]),
        value: "1".to_string(),
    }];
    let t = field_def_to_lua_table(&f);
    assert_eq!(keys(&t), vec!["name", "type", "required", "localized", "unique", "relationship", "options"]);
    assert!(flag(get(&t, "required")));
    let rel = get(&t, "relationship");
    assert_eq!(keys(rel), vec!["collection", "has_many", "max_depth"]);
    assert!(!flag(get(rel, "has_many")));
    assert!(matches!(get(rel, "max_depth"), LuaValue::Int(2)));
    let opts = items(get(&t, "options"));
    assert_eq!(text(get(&opts[0], "label")), "One");
    assert_eq!(text(get(&opts[0], "value")), "1");
}

#[test]
fn schema_table_recurses_into_fields_and_blocks() {
    let mut arr = field("items", FieldType::Array);
    arr.fields = vec![field("a", FieldType::Text), field("b", FieldType::Number)];
    arr.blocks = vec![BlockDefinition {
        block_type: "hero".to_string(),
        label: Some(LocalizedString::Plain("Hero".to_string())),
        fields: vec![field("heading", FieldType::Text)],
        ..Default::default()
    }];
    let t = field_def_to_lua_table(&arr);
    let subs = items(get(&t, "fields"));
    assert_eq!(subs.len(), 2);
    assert_eq!(text(get(&subs[1], "type")), "number");
    let blocks = items(get(&t, "blocks"));
    assert_eq!(keys(&blocks[0]), vec!["type", "label", "fields"]);
    assert_eq!(text(get(&blocks[0], "label")), "Hero");
    assert_eq!(text(get(&items(get(&blocks[0], "fields"))[0], "name")), "heading");
}

#[test]
fn config_table_of_plain_field_keeps_only_set_entries() {
    let mut f = field("title", FieldType::Text);
    f.admin.collapsed = false;
    let t = field_config_to_lua(&f);
    assert_eq!(keys(&t), vec!["name", "type", "admin"]);
    assert_eq!(keys(get(&t, "admin")), vec!["collapsed"]);
    assert!(!flag(get(get(&t, "admin"), "collapsed")));
}

#[test]
fn config_table_default_admin_is_collapsed() {
    let t = field_config_to_lua(&field("title", FieldType::Text));
    assert_eq!(keys(&t), vec!["name", "type", "admin"]);
    assert_eq!(keys(get(&t, "admin")), vec!["collapsed"]);
}

#[test]
fn config_table_of_full_field() {
    let mut f = field("author", FieldType::Relationship);
    f.required = true;
    f.localized = true;
    f.validate = Some("hooks.validate.author".to_string());
    f.admin.label = Some(LocalizedString::Localized(vec![("en".to_string(), "Author".to_string())]));
    f.admin.hidden = true;
    f.admin.width = Some("50%".to_string());
    f.admin.collapsed = false;
    f.hooks.before_change = vec!["hooks.a".to_string(), "hooks.b".to_string()];
    f.access.read = Some("hooks.access.read".to_string());
    f.relationship = Some(RelationshipConfig {
        collection: "users".to_string(),
        has_many: true,
        max_depth: None,
        polymorphic: vec![],
    });
    let t = field_config_to_lua(&f);
    assert_eq!(
        keys(&t),
        vec!["name", "type", "required", "localized", "validate", "admin", "hooks", "access", "relationship"]
    );
    let admin = get(&t, "admin");
    assert_eq!(keys(admin), vec!["label", "hidden", "width", "collapsed"]);
    assert_eq!(text(get(get(admin, "label"), "en")), "Author");
    let hooks = get(&t, "hooks");
    assert_eq!(keys(hooks), vec!["before_change"]);
    assert_eq!(items(get(hooks, "before_change")).len(), 2);
    assert_eq!(keys(get(&t, "relationship")), vec!["collection", "has_many"]);
}

#[test]
fn localized_labels_as_values() {
    assert!(matches!(localized_string_to_lua(&LocalizedString::Plain("x".to_string())), LuaValue::Str(s) if s == "x"));
    let t = localized_string_to_lua(&LocalizedString::Localized(vec![
        ("en".to_string(), "Hi".to_string()),
        ("de".to_string(), "Hallo".to_string()),
    ]));
    assert_eq!(keys(&t), vec!["en", "de"]);
    assert_eq!(text(get(&t, "de")), "Hallo");
}

fn collection(slug: &str) -> CollectionDefinition {
    CollectionDefinition {
        slug: slug.to_string(),
        labels: CollectionLabels::default(),
        timestamps: true,
        fields: vec![field("title", FieldType::Text)],
        admin: AdminConfig::builder().build(),
        hooks: CollectionHooks::default(),
        auth: None,
        upload: None,
        access: CollectionAccess::default(),
        live: None,
        versions: None,
    }
}

fn number(v: &LuaValue) -> i128 {
    match v {
        LuaValue::Int(i) => *i as i128,
        LuaValue::UInt(n) => *n as i128,
        _ => panic!("integer expected"),
    }
}

#[test]
fn collection_config_of_plain_collection() {
    let t = collection_config_to_lua(&collection("posts"));
    assert_eq!(keys(&t), vec!["labels", "timestamps", "admin", "fields", "hooks", "access", "live"]);
    assert!(keys(get(&t, "labels")).is_empty());
    assert!(flag(get(&t, "timestamps")));
    assert!(keys(get(&t, "hooks")).is_empty());
    assert!(flag(get(&t, "live")));
    assert_eq!(text(get(&items(get(&t, "fields"))[0], "name")), "title");
}

#[test]
fn collection_config_shorthands() {
    let mut c = collection("users");
    c.auth = Some(CollectionAuth {
        enabled: true,
        token_expiry: 7200,
        strategies: vec![],
        disable_local: false,
        verify_email: false,
        forgot_password: true,
    });
    c.upload = Some(CollectionUpload {
        enabled: true,
        mime_types: vec![],
        max_file_size: None,
        image_sizes: vec![],
        admin_thumbnail: None,
        format_options: FormatOptions::default(),
    });
    c.versions = Some(VersionsConfig { drafts: true, max_versions: 0 });
    c.live = Some(LiveSetting::Disabled);
    let t = collection_config_to_lua(&c);
    assert_eq!(
        keys(&t),
        vec!["labels", "timestamps", "admin", "fields", "hooks", "access", "auth", "upload", "live", "versions"]
    );
    assert!(flag(get(&t, "auth")));
    assert!(flag(get(&t, "upload")));
    assert!(!flag(get(&t, "live")));
    assert!(flag(get(&t, "versions")));
}

#[test]
fn collection_config_full_settings() {
    let mut c = collection("media");
    c.labels.singular = Some(LocalizedString::Plain("Medium".to_string()));
    c.admin = AdminConfig::builder()
        .use_as_title(Some("title".to_string()))
        .list_searchable_fields(vec!["title".to_string()])
        .build();
    c.hooks.before_delete = vec!["hooks.media.cleanup".to_string()];
    c.access.delete = Some("hooks.access.admin".to_string());
    c.auth = Some(CollectionAuth {
        enabled: true,
        token_expiry: 3600,
        strategies: vec![AuthStrategy { name: "sso".to_string(), authenticate: "hooks.auth.sso".to_string() }],
        disable_local: true,
        verify_email: true,
        forgot_password: false,
    });
    c.upload = Some(CollectionUpload {
        enabled: true,
        mime_types: vec!["image/*".to_string()],
        max_file_size: Some(1048576),
        image_sizes: vec![ImageSize { name: "thumb".to_string(), width: 200, height: 100, fit: ImageFit::Cover }],
        admin_thumbnail: Some("thumb".to_string()),
        format_options: FormatOptions { webp: Some(FormatQuality { quality: 80 }), avif: None },
    });
    c.versions = Some(VersionsConfig { drafts: false, max_versions: 10 });
    c.live = Some(LiveSetting::Function("hooks.live.filter".to_string()));
    let t = collection_config_to_lua(&c);
    assert_eq!(text(get(get(&t, "labels"), "singular")), "Medium");
    assert_eq!(keys(get(&t, "admin")), vec!["use_as_title", "list_searchable_fields"]);
    assert_eq!(keys(get(&t, "hooks")), vec!["before_delete"]);
    assert_eq!(keys(get(&t, "access")), vec!["delete"]);
    let auth = get(&t, "auth");
    assert_eq!(keys(auth), vec!["token_expiry", "disable_local", "verify_email", "forgot_password", "strategies"]);
    assert_eq!(number(get(auth, "token_expiry")), 3600);
    assert!(!flag(get(auth, "forgot_password")));
    assert_eq!(text(get(&items(get(auth, "strategies"))[0], "authenticate")), "hooks.auth.sso");
    let upload = get(&t, "upload");
    assert_eq!(keys(upload), vec!["mime_types", "max_file_size", "image_sizes", "admin_thumbnail", "format_options"]);
    assert_eq!(number(get(upload, "max_file_size")), 1048576);
    let size = &items(get(upload, "image_sizes"))[0];
    assert_eq!(number(get(size, "width")), 200);
    assert_eq!(text(get(size, "fit")), "cover");
    assert_eq!(keys(get(upload, "format_options")), vec!["webp"]);
    assert_eq!(number(get(get(get(upload, "format_options"), "webp"), "quality")), 80);
    assert_eq!(text(get(&t, "live")), "hooks.live.filter");
    let versions = get(&t, "versions");
    assert_eq!(keys(versions), vec!["drafts", "max_versions"]);
    assert_eq!(number(get(versions, "max_versions")), 10);
}

#[test]
fn disabled_auth_and_upload_are_left_out() {
    let mut c = collection("x");
    c.auth = Some(CollectionAuth {
        enabled: false,
        token_expiry: 7200,
        strategies: vec![],
        disable_local: false,
        verify_email: false,
        forgot_password: true,
    });
    let t = collection_config_to_lua(&c);
    assert!(!keys(&t).contains(&"auth"));
    let s = collection_def_to_lua_table(&c);
    assert!(!flag(get(&s, "has_auth")));
}

#[test]
fn collection_schema_table() {
    let mut c = collection("posts");
    c.labels.plural = Some(LocalizedString::Localized(vec![("en".to_string(), "Posts".to_string())]));
    c.versions = Some(VersionsConfig { drafts: true, max_versions: 5 });
    let t = collection_def_to_lua_table(&c);
    assert_eq!(
        keys(&t),
        vec!["slug", "labels", "timestamps", "has_auth", "has_upload", "has_versions", "has_drafts", "fields"]
    );
    assert_eq!(text(get(&t, "slug")), "posts");
    assert_eq!(text(get(get(&t, "labels"), "plural")), "Posts");
    assert!(flag(get(&t, "has_versions")));
    assert!(flag(get(&t, "has_drafts")));
    assert_eq!(keys(&items(get(&t, "fields"))[0]), vec!["name", "type", "required", "localized", "unique"]);
}

#[test]
fn global_config_table() {
    let g = GlobalDefinition {
        slug: "site".to_string(),
        labels: CollectionLabels::default(),
        fields: vec![field("title", FieldType::Text)],
        hooks: CollectionHooks::default(),
        access: CollectionAccess { read: Some("hooks.access.public".to_string()), ..Default::default() },
        live: None,
    };
    let t = global_config_to_lua(&g);
    assert_eq!(keys(&t), vec!["labels", "fields", "hooks", "access", "live"]);
    assert_eq!(text(get(get(&t, "access"), "read")), "hooks.access.public");
}

#[test]
fn collection_hooks_table_keeps_order_of_positions() {
    let mut h = CollectionHooks::default();
    h.before_broadcast = vec!["b".to_string()];
    h.before_validate = vec!["a".to_string()];
    let t = collection_hooks_to_lua(&h);
    assert_eq!(keys(&t), vec!["before_validate", "before_broadcast"]);
}

#[test]
fn config_table_holds_every_field_setting() {
    let mut f = field("layout", FieldType::Tabs);
    f.has_many = true;
    f.min_length = Some(2);
    f.max_length = Some(80);
    f.min_rows = Some(1);
    f.max_rows = Some(9);
    f.min_date = Some("2020-01-01".to_string());
    f.max_date = Some("2030-01-01".to_string());
    f.admin.position = Some("sidebar".to_string());
    f.admin.step = Some("0.5".to_string());
    f.admin.rows = Some(6);
    f.admin.language = Some("lua".to_string());
    f.admin.picker = Some("drawer".to_string());
    f.admin.label_field = Some("title".to_string());
    f.admin.labels_singular = Some(LocalizedString::Plain("Item".to_string()));
    f.admin.features = vec!["bold".to_string()];
    f.admin.richtext_format = Some("json".to_string());
    f.admin.nodes = vec!["cta".to_string()];
    f.relationship = Some(RelationshipConfig {
        collection: "pages".to_string(),
        has_many: false,
        max_depth: None,
        polymorphic: vec!["pages".to_string(), "posts".to_string()],
    });
    f.join = Some(crap_cms::field::JoinConfig { collection: "comments".to_string(), on: "post".to_string() });
    f.blocks = vec![BlockDefinition {
        block_type: "hero".to_string(),
        label: None,
        fields: vec![],
        label_field: Some("heading".to_string()),
        group: Some("media".to_string()),
        image_url: Some("/hero.png".to_string()),
    }];
    f.tabs = vec![crap_cms::field::FieldTab {
        label: "Main".to_string(),
        description: Some("First tab".to_string()),
        fields: vec![field("title", FieldType::Text)],
    }];
    let t = field_config_to_lua(&f);
    assert_eq!(
        keys(&t),
        vec![
            "name", "type", "has_many", "min_length", "max_length", "min_rows", "max_rows", "min_date", "max_date",
            "admin", "relationship", "join", "blocks", "tabs",
        ]
    );
    assert_eq!(number(get(&t, "max_length")), 80);
    assert_eq!(
        keys(get(&t, "admin")),
        vec![
            "position", "step", "rows", "language", "picker", "label_field", "collapsed", "labels_singular",
            "features", "richtext_format", "nodes",
        ]
    );
    assert_eq!(items(get(get(&t, "relationship"), "polymorphic")).len(), 2);
    assert_eq!(text(get(get(&t, "join"), "on")), "post");
    assert_eq!(keys(&items(get(&t, "blocks"))[0]), vec!["type", "label_field", "group", "image_url", "fields"]);
    let tab = &items(get(&t, "tabs"))[0];
    assert_eq!(keys(tab), vec!["label", "description", "fields"]);
    assert_eq!(text(get(&items(get(tab, "fields"))[0], "name")), "title");
}

fn same_value(a: &LuaValue, b: &LuaValue) -> bool {
    match (a, b) {
        (LuaValue::Str(x), LuaValue::Str(y)) => x == y,
        (LuaValue::Bool(x), LuaValue::Bool(y)) => x == y,
        (LuaValue::Int(x), LuaValue::Int(y)) => x == y,
        (LuaValue::UInt(x), LuaValue::UInt(y)) => x == y,
        (LuaValue::Record(x), LuaValue::Record(y)) => {
            x.len() == y.len() && x.iter().zip(y.iter()).all(|((k1, v1), (k2, v2))| k1 == k2 && same_value(v1, v2))
        }
        (LuaValue::List(x), LuaValue::List(y)) => x.len() == y.len() && x.iter().zip(y.iter()).all(|(v1, v2)| same_value(v1, v2)),
        _ => false,
    }
}

#[test]
fn config_tables_tell_tabs_and_bounds_apart() {
    let mut a = field("layout", FieldType::Tabs);
    a.tabs = vec![crap_cms::field::FieldTab { label: "One".to_string(), description: None, fields: vec![] }];
    let mut b = field("layout", FieldType::Tabs);
    b.tabs = vec![crap_cms::field::FieldTab { label: "Two".to_string(), description: None, fields: vec![] }];
    assert!(!same_value(&field_config_to_lua(&a), &field_config_to_lua(&b)));
    let mut c = field("title", FieldType::Text);
    c.max_length = Some(10);
    let mut d = field("title", FieldType::Text);
    d.max_length = Some(11);
    assert!(!same_value(&field_config_to_lua(&c), &field_config_to_lua(&d)));
    assert!(same_value(&field_config_to_lua(&c), &field_config_to_lua(&c)));
}

#[test]
fn global_schema_and_lists() {
    let g = GlobalDefinition {
        slug: "site".to_string(),
        labels: CollectionLabels {
            singular: Some(LocalizedString::Plain("Site".to_string())),
            plural: None,
        },
        fields: vec![field("title", FieldType::Text)],
        hooks: CollectionHooks::default(),
        access: CollectionAccess::default(),
        live: None,
    };
    let t = global_def_to_lua_table(&g);
    assert_eq!(keys(&t), vec!["slug", "labels", "fields"]);
    assert_eq!(text(get(&t, "slug")), "site");
    assert_eq!(keys(get(&t, "labels")), vec!["singular"]);
    assert_eq!(text(get(get(&t, "labels"), "singular")), "Site");
    assert_eq!(text(get(&items(get(&t, "fields"))[0], "name")), "title");
    let globals = global_list_to_lua(&vec![g]);
    let gl = items(&globals);
    assert_eq!(gl.len(), 1);
    assert_eq!(keys(&gl[0]), vec!["slug", "labels"]);
    let cols = collection_list_to_lua(&vec![collection("posts"), collection("pages")]);
    let cl = items(&cols);
    assert_eq!(text(get(&cl[0], "slug")), "posts");
    assert_eq!(text(get(&cl[1], "slug")), "pages");
    assert!(keys(get(&cl[1], "labels")).is_empty());
}
