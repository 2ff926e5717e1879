//! The items a relationship or upload widget shows as already selected, computed from
//! the related documents once they have been fetched.

use vstd::prelude::*;
use crate::strmap::{StrMap, lookup, lookup_opt};
use crate::text::{chars_of, concat_str, find_char, substring_of, first_index_of};

verus! {

/// A related document as the selection widgets read it: its id, its string-valued
/// fields, and the URL of each of its image sizes (by size name).
pub struct FetchedDoc {
    pub id: String,
    pub fields: StrMap,
    pub size_urls: StrMap,
}

/// One selected item of a relationship or upload widget.
pub struct SelectedItem {
    /// The document id; for a polymorphic relationship, `collection/id`.
    pub id: String,
    pub label: String,
    /// A preview image, for uploads that are images.
    pub thumbnail_url: Option<String>,
    pub is_image: bool,
    /// The related collection, for a polymorphic relationship.
    pub collection: Option<String>,
}

/// The view of an optional string.
pub open spec fn opt_seq(o: Option<String>) -> Option<Seq<char>> {
    match o {
        Some(s) => Some(s@),
        None => None,
    }
}

/// The label of a related document: its title field where the collection has one and
/// the document holds it, else its id.
pub open spec fn title_label(doc: FetchedDoc, title_field: Option<Seq<char>>) -> Seq<char> {
    match title_field {
        Some(f) => if doc.fields@.contains_key(f) { doc.fields@[f]@ } else { doc.id@ },
        None => doc.id@,
    }
}

/// The label of an upload: its file name, else the title label.
pub open spec fn upload_label(doc: FetchedDoc, title_field: Option<Seq<char>>) -> Seq<char> {
    if doc.fields@.contains_key("filename"@) {
        doc.fields@["filename"@]@
    } else {
        title_label(doc, title_field)
    }
}

/// Whether an upload is an image: its MIME type starts with `image/`.
pub open spec fn upload_is_image(doc: FetchedDoc) -> bool {
    "image/"@.is_prefix_of(lookup(doc.fields@, "mime_type"@))
}

/// The preview of an image upload: the URL of the collection's admin thumbnail size
/// where the document has it, else the document's own URL. Non-images have none.
pub open spec fn upload_thumbnail(doc: FetchedDoc, admin_thumbnail: Option<Seq<char>>) -> Option<Seq<char>> {
    if !upload_is_image(doc) {
        None
    } else {
        match admin_thumbnail {
            Some(t) => if doc.size_urls@.contains_key(t) {
                Some(doc.size_urls@[t]@)
            } else {
                lookup_opt(doc.fields@, "url"@)
            },
            None => lookup_opt(doc.fields@, "url"@),
        }
    }
}

/// `item` is the selected item of a related document of a plain relationship.
pub open spec fn relationship_item_ok(item: SelectedItem, doc: FetchedDoc, title_field: Option<Seq<char>>) -> bool {
    &&& item.id@ == doc.id@
    &&& item.label@ == title_label(doc, title_field)
    &&& item.thumbnail_url is None
    &&& !item.is_image
    &&& item.collection is None
}

/// `item` is the selected item of an upload document.
pub open spec fn upload_item_ok(
    item: SelectedItem,
    doc: FetchedDoc,
    title_field: Option<Seq<char>>,
    admin_thumbnail: Option<Seq<char>>,
) -> bool {
    &&& item.id@ == doc.id@
    &&& item.label@ == upload_label(doc, title_field)
    &&& opt_seq(item.thumbnail_url) == upload_thumbnail(doc, admin_thumbnail)
    &&& item.is_image == upload_is_image(doc)
    &&& item.collection is None
}

/// Whether `p` is a prefix of `s`.
pub fn has_prefix(s: &str, p: &str) -> (r: bool)
    ensures
        r == p@.is_prefix_of(s@),
{
    let sv = chars_of(s);
    let pv = chars_of(p);
    if pv.len() > sv.len() {
        return false;
    }
    let mut i: usize = 0;
    while i < pv.len()
        invariant
            sv@ == s@,
            pv@ == p@,
            pv.len() <= sv.len(),
            i <= pv.len(),
            forall|j: int| 0 <= j < i ==> pv@[j] == sv@[j],
        decreases pv.len() - i,
    {
        if pv[i] != sv[i] {
            assert(p@[i as int] != s@.subrange(0, p@.len() as int)[i as int]);
            return false;
        }
        i = i + 1;
    }
    assert(p@ =~= s@.subrange(0, p@.len() as int));
    true
}

/// A copy of an optional string field of a document.
fn field_str(m: &StrMap, k: &str) -> (r: Option<String>)
    ensures
        opt_seq(r) == lookup_opt(m@, k@),
{
    match m.get(k) {
        Some(v) => Some(v.clone()),
        None => None,
    }
}

/// The label of a related document (title field, else id).
fn title_label_of(doc: &FetchedDoc, title_field: Option<&str>) -> (r: String)
    ensures
        r@ == title_label(*doc, match title_field { Some(f) => Some(f@), None => None }),
{
    match title_field {
        Some(f) => match doc.fields.get(f) {
            Some(v) => v.clone(),
            None => doc.id.clone(),
        },
        None => doc.id.clone(),
    }
}

/// The selected item of a plain relationship for a fetched document.
pub fn relationship_item(doc: &FetchedDoc, title_field: Option<&str>) -> (r: SelectedItem)
    ensures
        relationship_item_ok(r, *doc, match title_field { Some(f) => Some(f@), None => None }),
{
    SelectedItem {
        id: doc.id.clone(),
        label: title_label_of(doc, title_field),
        thumbnail_url: None,
        is_image: false,
        collection: None,
    }
}

/// The selected item of an upload field for a fetched document: labelled by file
/// name, marked as an image by its MIME type, with the admin thumbnail as preview.
pub fn upload_item(doc: &FetchedDoc, title_field: Option<&str>, admin_thumbnail: Option<&str>) -> (r: SelectedItem)
    ensures
        upload_item_ok(
            r,
            *doc,
            match title_field { Some(f) => Some(f@), None => None },
            match admin_thumbnail { Some(t) => Some(t@), None => None },
        ),
{
    let label = match doc.fields.get("filename") {
        Some(v) => v.clone(),
        None => title_label_of(doc, title_field),
    };
    let mime = doc.fields.get_or_empty("mime_type");
    let is_image = has_prefix(mime.as_str(), "image/");
    let thumbnail_url = if is_image {
        match admin_thumbnail {
            Some(t) => match doc.size_urls.get(t) {
                Some(u) => Some(u.clone()),
                None => field_str(&doc.fields, "url"),
            },
            None => field_str(&doc.fields, "url"),
        }
    } else {
        None
    };
    SelectedItem { id: doc.id.clone(), label, thumbnail_url, is_image, collection: None }
}

/// The selected items of a relationship or upload field, one for each related document
/// that was found, in the order of the stored ids.
pub fn selected_items_of(
    docs: &Vec<FetchedDoc>,
    title_field: Option<&str>,
    is_upload: bool,
    admin_thumbnail: Option<&str>,
) -> (r: Vec<SelectedItem>)
    ensures
        r.len() == docs.len(),
        forall|i: int| 0 <= i < docs.len() ==> if is_upload {
            upload_item_ok(
                #[trigger] r@[i],
                docs@[i],
                match title_field { Some(f) => Some(f@), None => None },
                match admin_thumbnail { Some(t) => Some(t@), None => None },
            )
        } else {
            relationship_item_ok(
                r@[i],
                docs@[i],
                match title_field { Some(f) => Some(f@), None => None },
            )
        },
{
    let mut r: Vec<SelectedItem> = Vec::new();
    let mut i: usize = 0;
    while i < docs.len()
        invariant
            i <= docs.len(),
            r.len() == i,
            forall|j: int| 0 <= j < i ==> if is_upload {
                upload_item_ok(
                    #[trigger] r@[j],
                    docs@[j],
                    match title_field { Some(f) => Some(f@), None => None },
                    match admin_thumbnail { Some(t) => Some(t@), None => None },
                )
            } else {
                relationship_item_ok(
                    r@[j],
                    docs@[j],
                    match title_field { Some(f) => Some(f@), None => None },
                )
            },
        decreases docs.len() - i,
    {
        let item = if is_upload {
            upload_item(&docs[i], title_field, admin_thumbnail)
        } else {
            relationship_item(&docs[i], title_field)
        };
        r.push(item);
        i = i + 1;
    }
    r
}

// ---------------------------------------------------------------------------
// Polymorphic references
// ---------------------------------------------------------------------------

/// A polymorphic reference `collection/id`, split at its first `/`: present when both
/// parts are non-empty.
pub open spec fn polymorphic_ref(s: Seq<char>) -> Option<(Seq<char>, Seq<char>)> {
    match first_index_of(s, '/') {
        Some(i) => if i > 0 && i + 1 < s.len() {
            Some((s.subrange(0, i), s.subrange(i + 1, s.len() as int)))
        } else {
            None
        },
        None => None,
    }
}

/// Split a polymorphic reference into its collection and document id.
pub fn split_polymorphic_ref(s: &str) -> (r: Option<(String, String)>)
    ensures
        match r {
            Some((c, id)) => polymorphic_ref(s@) == Some((c@, id@)),
            None => polymorphic_ref(s@) is None,
        },
{
    let v = chars_of(s);
    match find_char(&v, '/') {
        Some(i) => {
            if i > 0 && i + 1 < v.len() {
                let c = substring_of(&v, 0, i);
                let id = substring_of(&v, i + 1, v.len());
                Some((c, id))
            } else {
                None
            }
        },
        None => None,
    }
}

/// The selected item of a polymorphic relationship: the reference as id, the related
/// collection, and the title label of the document found there.
pub fn polymorphic_item(collection: &str, doc: &FetchedDoc, title_field: Option<&str>) -> (r: SelectedItem)
    ensures
        r.id@ == collection@ + "/"@ + doc.id@,
        r.label@ == title_label(*doc, match title_field { Some(f) => Some(f@), None => None }),
        r.thumbnail_url is None,
        !r.is_image,
        opt_seq(r.collection) == Some(collection@),
{
    let with_slash = concat_str(collection, "/");
    let id = concat_str(with_slash.as_str(), doc.id.as_str());
    SelectedItem {
        id,
        label: title_label_of(doc, title_field),
        thumbnail_url: None,
        is_image: false,
        collection: Some(String::from_str(collection)),
    }
}

} // verus!
