use crap_cms::lifecycle::{
    access_denied_message, access_table_clauses, display_visible, document_access_denied_message,
    kept_cursors, published_filter, published_only, AccessClause, AccessValue, CrudOperation,
    DisplayOutcome,
};
use crap_cms::selected::{
    has_prefix, polymorphic_item, relationship_item, selected_items_of, split_polymorphic_ref,
    upload_item, FetchedDoc,
};
use crap_cms::strmap::StrMap;

fn doc(id: &str, fields: &[(&str, &str)], sizes: &[(&str, &str)]) -> FetchedDoc {
    let mut f = StrMap::new();
    for (k, v) in fields {
        f.insert(k.to_string(), v.to_string());
    }
    let mut s = StrMap::new();
    for (k, v) in sizes {
        s.insert(k.to_string(), v.to_string());
    }
    FetchedDoc { id: id.to_string(), fields: f, size_urls: s }
}

#[test]
fn relationship_item_uses_title_field() {
    let d = doc("p1", &[("title", "Hello")], &[]);
    let item = relationship_item(&d, Some("title"));
    assert_eq!(item.id, "p1");
    assert_eq!(item.label, "Hello");
    assert!(item.thumbnail_url.is_none());
    assert!(!item.is_image);
}

#[test]
fn relationship_item_falls_back_to_id() {
    let d = doc("p2", &[("name", "x")], &[]);
    assert_eq!(relationship_item(&d, Some("title")).label, "p2");
    assert_eq!(relationship_item(&d, None).label, "p2");
}

#[test]
fn upload_item_image_with_admin_thumbnail() {
    let d = doc(
        "m1",
        &[("filename", "cat.png"), ("mime_type", "image/png"), ("url", "/uploads/cat.png")],
        &[("thumbnail", "/uploads/cat-thumb.png")],
    );
    let item = upload_item(&d, Some("alt"), Some("thumbnail"));
    assert_eq!(item.id, "m1");
    assert_eq!(item.label, "cat.png");
    assert!(item.is_image);
    assert_eq!(item.thumbnail_url.as_deref(), Some("/uploads/cat-thumb.png"));
}

#[test]
fn upload_item_image_without_size_uses_url() {
    let d = doc("m2", &[("mime_type", "image/jpeg"), ("url", "/u/a.jpg"), ("alt", "A")], &[]);
    let item = upload_item(&d, Some("alt"), Some("thumbnail"));
    assert_eq!(item.label, "A");
    assert_eq!(item.thumbnail_url.as_deref(), Some("/u/a.jpg"));
    let no_thumb_config = upload_item(&d, None, None);
    assert_eq!(no_thumb_config.label, "m2");
    assert_eq!(no_thumb_config.thumbnail_url.as_deref(), Some("/u/a.jpg"));
}

#[test]
fn upload_item_non_image_has_no_thumbnail() {
    let d = doc("m3", &[("filename", "doc.pdf"), ("mime_type", "application/pdf"), ("url", "/u/doc.pdf")], &[]);
    let item = upload_item(&d, None, Some("thumbnail"));
    assert!(!item.is_image);
    assert!(item.thumbnail_url.is_none());
    assert_eq!(item.label, "doc.pdf");
}

#[test]
fn selected_items_keep_order() {
    let docs = vec![doc("a", &[("title", "First")], &[]), doc("b", &[], &[])];
    let items = selected_items_of(&docs, Some("title"), false, None);
    assert_eq!(items.len(), 2);
    assert_eq!(items[0].label, "First");
    assert_eq!(items[1].label, "b");
    let uploads = selected_items_of(&docs, Some("title"), true, None);
    assert_eq!(uploads[0].label, "First");
    assert!(!uploads[0].is_image);
    assert!(selected_items_of(&Vec::new(), None, true, None).is_empty());
}

#[test]
fn polymorphic_refs_split_at_first_slash() {
    assert_eq!(split_polymorphic_ref("posts/abc"), Some(("posts".to_string(), "abc".to_string())));
    assert_eq!(split_polymorphic_ref("a/b/c"), Some(("a".to_string(), "b/c".to_string())));
    assert_eq!(split_polymorphic_ref("/abc"), None);
    assert_eq!(split_polymorphic_ref("posts/"), None);
    assert_eq!(split_polymorphic_ref("posts"), None);
}

#[test]
fn polymorphic_item_prefixes_collection() {
    let d = doc("42", &[("title", "Answer")], &[]);
    let item = polymorphic_item("pages", &d, Some("title"));
    assert_eq!(item.id, "pages/42");
    assert_eq!(item.label, "Answer");
    assert_eq!(item.collection.as_deref(), Some("pages"));
}

#[test]
fn prefix_check() {
    assert!(has_prefix("image/png", "image/"));
    assert!(!has_prefix("imag", "image/"));
    assert!(!has_prefix("video/mp4", "image/"));
    assert!(has_prefix("x", ""));
}

#[test]
fn published_only_reads() {
    assert!(published_only(true, None));
    assert!(published_only(true, Some(false)));
    assert!(!published_only(true, Some(true)));
    assert!(!published_only(false, None));
    let (f, v) = published_filter();
    assert_eq!(f, "_status");
    assert_eq!(v, "published");
}

#[test]
fn cursors_ignored_outside_cursor_mode() {
    let kept = kept_cursors(true, Some("c1".to_string()), None);
    assert_eq!(kept, (Some("c1".to_string()), None));
    let dropped = kept_cursors(false, Some("c1".to_string()), Some("c2".to_string()));
    assert_eq!(dropped, (None, None));
}

#[test]
fn access_denied_texts() {
    assert_eq!(access_denied_message(CrudOperation::Read), "Read access denied");
    assert_eq!(access_denied_message(CrudOperation::Create), "Create access denied");
    assert_eq!(access_denied_message(CrudOperation::Delete), "Delete access denied");
    assert_eq!(
        document_access_denied_message(CrudOperation::Update, "d7"),
        "Update access denied for document d7"
    );
}

#[test]
fn access_table_gives_clauses() {
    let entries = vec![
        ("author".to_string(), AccessValue::Text("u1".to_string())),
        ("level".to_string(), AccessValue::Integer(-3)),
        ("flag".to_string(), AccessValue::Other),
        ("score".to_string(), AccessValue::Number("1.5".to_string())),
        ("views".to_string(), AccessValue::Operators),
    ];
    let clauses = access_table_clauses(&entries);
    assert_eq!(clauses.len(), 4);
    match &clauses[0] {
        AccessClause::Equals { field, value } => {
            assert_eq!(field, "author");
            assert_eq!(value, "u1");
        }
        _ => panic!("expected equality"),
    }
    match &clauses[1] {
        AccessClause::Equals { field, value } => {
            assert_eq!(field, "level");
            assert_eq!(value, "-3");
        }
        _ => panic!("expected equality"),
    }
    match &clauses[2] {
        AccessClause::Equals { value, .. } => assert_eq!(value, "1.5"),
        _ => panic!("expected equality"),
    }
    match &clauses[3] {
        AccessClause::Operators { field } => assert_eq!(field, "views"),
        _ => panic!("expected operators"),
    }
}

#[test]
fn display_condition_decision() {
    assert!(display_visible(None));
    assert!(!display_visible(Some(DisplayOutcome::Bool(false))));
    assert!(display_visible(Some(DisplayOutcome::Bool(true))));
    assert!(!display_visible(Some(DisplayOutcome::Table { visible: false })));
}
