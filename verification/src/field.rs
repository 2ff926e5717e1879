//! Field definitions: the schema of a collection or global as the admin UI and the
//! storage layer read it.

use vstd::prelude::*;
use vstd::string::*;
use crate::text::str_eq;

verus! {

/// The kind of a field.
#[derive(Debug, Clone, Copy, PartialEq, Eq, Structural, Default)]
pub enum FieldType {
    #[default]
    Text,
    Number,
    Email,
    Textarea,
    Richtext,
    Select,
    Radio,
    Checkbox,
    Date,
    Json,
    Code,
    Relationship,
    Upload,
    Array,
    Group,
    Blocks,
    Row,
    Collapsible,
    Tabs,
    Join,
}

/// The lower-case name of each field type, as templates and the Lua API spell it.
pub open spec fn field_type_name(t: FieldType) -> Seq<char> {
    match t {
        FieldType::Text => "text"@,
        FieldType::Number => "number"@,
        FieldType::Email => "email"@,
        FieldType::Textarea => "textarea"@,
        FieldType::Richtext => "richtext"@,
        FieldType::Select => "select"@,
        FieldType::Radio => "radio"@,
        FieldType::Checkbox => "checkbox"@,
        FieldType::Date => "date"@,
        FieldType::Json => "json"@,
        FieldType::Code => "code"@,
        FieldType::Relationship => "relationship"@,
        FieldType::Upload => "upload"@,
        FieldType::Array => "array"@,
        FieldType::Group => "group"@,
        FieldType::Blocks => "blocks"@,
        FieldType::Row => "row"@,
        FieldType::Collapsible => "collapsible"@,
        FieldType::Tabs => "tabs"@,
        FieldType::Join => "join"@,
    }
}

/// Layout-only wrappers: they add no name of their own to the form names beneath them.
pub open spec fn is_layout_wrapper(t: FieldType) -> bool {
    t == FieldType::Tabs || t == FieldType::Row || t == FieldType::Collapsible
}

impl FieldType {
    /// The lower-case name of the field type.
    pub fn as_str(&self) -> (r: &'static str)
        ensures
            r@ == field_type_name(*self),
    {
        match self {
            FieldType::Text => "text",
            FieldType::Number => "number",
            FieldType::Email => "email",
            FieldType::Textarea => "textarea",
            FieldType::Richtext => "richtext",
            FieldType::Select => "select",
            FieldType::Radio => "radio",
            FieldType::Checkbox => "checkbox",
            FieldType::Date => "date",
            FieldType::Json => "json",
            FieldType::Code => "code",
            FieldType::Relationship => "relationship",
            FieldType::Upload => "upload",
            FieldType::Array => "array",
            FieldType::Group => "group",
            FieldType::Blocks => "blocks",
            FieldType::Row => "row",
            FieldType::Collapsible => "collapsible",
            FieldType::Tabs => "tabs",
            FieldType::Join => "join",
        }
    }

    /// Whether the type is a layout-only wrapper (Tabs, Row, Collapsible).
    pub fn is_layout_wrapper(&self) -> (r: bool)
        ensures
            r == is_layout_wrapper(*self),
    {
        match self {
            FieldType::Tabs | FieldType::Row | FieldType::Collapsible => true,
            _ => false,
        }
    }
}

/// A label that is either one plain string or a set of per-locale strings.
#[derive(Debug, Clone)]
pub enum LocalizedString {
    Plain(String),
    Localized(Vec<(String, String)>),
}

/// The value of the first English entry of a per-locale label, if any.
pub open spec fn english_entry(pairs: Seq<(String, String)>) -> Option<Seq<char>>
    decreases pairs.len(),
{
    if pairs.len() == 0 {
        None
    } else if pairs[0].0@ == "en"@ {
        Some(pairs[0].1@)
    } else {
        english_entry(pairs.skip(1))
    }
}

/// The string shown when no locale is requested: the plain string, else the English
/// entry, else the first entry, else the empty string.
pub open spec fn default_text(ls: LocalizedString) -> Seq<char> {
    match ls {
        LocalizedString::Plain(s) => s@,
        LocalizedString::Localized(pairs) => match english_entry(pairs@) {
            Some(v) => v,
            None => if pairs.len() > 0 {
                pairs@[0].1@
            } else {
                Seq::empty()
            },
        },
    }
}

impl LocalizedString {
    /// The default-locale rendering of the label.
    pub fn resolve_default(&self) -> (r: String)
        ensures
            r@ == default_text(*self),
    {
        match self {
            LocalizedString::Plain(s) => s.clone(),
            LocalizedString::Localized(pairs) => {
                let mut i: usize = 0;
                assert(pairs@.skip(0) =~= pairs@);
                while i < pairs.len()
                    invariant
                        i <= pairs.len(),
                        english_entry(pairs@) == english_entry(pairs@.skip(i as int)),
                        *self == LocalizedString::Localized(*pairs),
                    decreases pairs.len() - i,
                {
                    assert(pairs@.skip(i as int).skip(1) =~= pairs@.skip(i + 1));
                    if str_eq(pairs[i].0.as_str(), "en") {
                        assert(pairs@.skip(i as int)[0] == pairs@[i as int]);
                        assert(english_entry(pairs@) == Some(pairs@[i as int].1@));
                        return pairs[i].1.clone();
                    }
                    i = i + 1;
                }
                if pairs.len() > 0 {
                    pairs[0].1.clone()
                } else {
                    String::new()
                }
            },
        }
    }
}

/// One option of a select or radio field.
#[derive(Debug, Clone)]
pub struct SelectOption {
    pub label: LocalizedString,
    pub value: String,
}

/// How a relationship or upload field points at other documents.
#[derive(Debug, Clone, Default)]
pub struct RelationshipConfig {
    pub collection: String,
    pub has_many: bool,
    pub max_depth: Option<i32>,
    /// Target collections of a polymorphic relationship (empty when not polymorphic).
    pub polymorphic: Vec<String>,
}

impl RelationshipConfig {
    /// A relationship is polymorphic when it names target collections.
    pub fn is_polymorphic(&self) -> (r: bool)
        ensures
            r == (self.polymorphic.len() > 0),
    {
        self.polymorphic.len() > 0
    }
}

/// The reverse relationship of a join field.
#[derive(Debug, Clone, Default)]
pub struct JoinConfig {
    pub collection: String,
    pub on: String,
}

/// Field-level access control function references.
#[derive(Debug, Clone, Default)]
pub struct FieldAccess {
    pub read: Option<String>,
    pub create: Option<String>,
    pub update: Option<String>,
}

/// Field-level hook references, by lifecycle position.
#[derive(Debug, Clone, Default)]
pub struct FieldHooks {
    pub before_validate: Vec<String>,
    pub before_change: Vec<String>,
    pub after_change: Vec<String>,
    pub after_read: Vec<String>,
}

/// Admin-UI presentation settings of a field.
#[derive(Debug, Clone)]
pub struct FieldAdmin {
    pub label: Option<LocalizedString>,
    pub placeholder: Option<LocalizedString>,
    pub description: Option<LocalizedString>,
    pub hidden: bool,
    pub readonly: bool,
    pub width: Option<String>,
    pub position: Option<String>,
    pub step: Option<String>,
    pub rows: Option<u32>,
    pub language: Option<String>,
    pub picker: Option<String>,
    pub label_field: Option<String>,
    /// Whether composite fields start collapsed (default: yes).
    pub collapsed: bool,
    pub labels_singular: Option<LocalizedString>,
    pub features: Vec<String>,
    pub richtext_format: Option<String>,
    pub nodes: Vec<String>,
}

impl FieldAdmin {
    /// Settings with nothing configured: no label or texts, visible, editable, and
    /// composites starting collapsed.
    pub fn new() -> (a: FieldAdmin)
        ensures
            a.label is None && a.placeholder is None && a.description is None,
            !a.hidden && !a.readonly && a.collapsed,
            a.width is None && a.position is None && a.step is None && a.rows is None,
            a.language is None && a.picker is None && a.label_field is None,
            a.labels_singular is None && a.richtext_format is None,
            a.features.len() == 0 && a.nodes.len() == 0,
    {
        FieldAdmin {
            label: None,
            placeholder: None,
            description: None,
            hidden: false,
            readonly: false,
            width: None,
            position: None,
            step: None,
            rows: None,
            language: None,
            picker: None,
            label_field: None,
            collapsed: true,
            labels_singular: None,
            features: Vec::new(),
            richtext_format: None,
            nodes: Vec::new(),
        }
    }
}

impl Default for FieldAdmin {
    fn default() -> (a: FieldAdmin)
        ensures
            a.label is None && a.placeholder is None && a.description is None,
            !a.hidden && !a.readonly && a.collapsed,
            a.width is None && a.position is None && a.step is None && a.rows is None,
            a.language is None && a.picker is None && a.label_field is None,
            a.labels_singular is None && a.richtext_format is None,
            a.features.len() == 0 && a.nodes.len() == 0,
    {
        FieldAdmin::new()
    }
}

/// One block type of a blocks field.
#[derive(Debug, Default)]
pub struct BlockDefinition {
    pub block_type: String,
    pub label: Option<LocalizedString>,
    pub fields: Vec<FieldDefinition>,
    pub label_field: Option<String>,
    pub group: Option<String>,
    pub image_url: Option<String>,
}

/// One tab panel of a tabs field.
#[derive(Debug, Default)]
pub struct FieldTab {
    pub label: String,
    pub description: Option<String>,
    pub fields: Vec<FieldDefinition>,
}

/// A field of a collection or global.
#[derive(Debug, Default)]
pub struct FieldDefinition {
    pub name: String,
    pub field_type: FieldType,
    pub required: bool,
    pub unique: bool,
    pub localized: bool,
    pub has_many: bool,
    pub validate: Option<String>,
    pub min_length: Option<u64>,
    pub max_length: Option<u64>,
    pub min_rows: Option<u64>,
    pub max_rows: Option<u64>,
    pub min_date: Option<String>,
    pub max_date: Option<String>,
    pub picker_appearance: Option<String>,
    pub options: Vec<SelectOption>,
    pub admin: FieldAdmin,
    pub access: FieldAccess,
    pub hooks: FieldHooks,
    pub relationship: Option<RelationshipConfig>,
    pub join: Option<JoinConfig>,
    pub fields: Vec<FieldDefinition>,
    pub blocks: Vec<BlockDefinition>,
    pub tabs: Vec<FieldTab>,
}

/// Fields whose data lives in a column of the parent table (not in a join table,
/// not a layout wrapper, not virtual).
pub open spec fn has_parent_column(f: FieldDefinition) -> bool {
    match f.field_type {
        FieldType::Array | FieldType::Blocks | FieldType::Row | FieldType::Collapsible
        | FieldType::Tabs | FieldType::Join => false,
        FieldType::Relationship | FieldType::Upload => match f.relationship {
            Some(rc) => !rc.has_many,
            None => true,
        },
        _ => true,
    }
}

/// Whether a field should be treated as optional in generated types.
pub open spec fn optional_field(f: FieldDefinition) -> bool {
    !f.required || f.field_type == FieldType::Checkbox
}

impl FieldDefinition {
    /// A field with the given name and type and every other setting at its default.
    pub fn new(name: &str, field_type: FieldType) -> (f: FieldDefinition)
        ensures
            f.name@ == name@,
            f.field_type == field_type,
            !f.required && !f.unique && !f.localized && !f.has_many,
            f.fields.len() == 0 && f.blocks.len() == 0 && f.tabs.len() == 0,
            f.options.len() == 0,
            f.relationship is None && f.join is None,
            f.picker_appearance is None,
            f.admin.label is None && f.admin.placeholder is None && f.admin.description is None,
            !f.admin.hidden && !f.admin.readonly && f.admin.collapsed,
            f.admin.position is None,
    {
        FieldDefinition {
            name: String::from_str(name),
            field_type,
            required: false,
            unique: false,
            localized: false,
            has_many: false,
            validate: None,
            min_length: None,
            max_length: None,
            min_rows: None,
            max_rows: None,
            min_date: None,
            max_date: None,
            picker_appearance: None,
            options: Vec::new(),
            admin: FieldAdmin::new(),
            access: FieldAccess { read: None, create: None, update: None },
            hooks: FieldHooks {
                before_validate: Vec::new(),
                before_change: Vec::new(),
                after_change: Vec::new(),
                after_read: Vec::new(),
            },
            relationship: None,
            join: None,
            fields: Vec::new(),
            blocks: Vec::new(),
            tabs: Vec::new(),
        }
    }

    /// Whether the field's data lives in a column of the parent table.
    pub fn has_parent_column(&self) -> (r: bool)
        ensures
            r == has_parent_column(*self),
    {
        match self.field_type {
            FieldType::Array | FieldType::Blocks | FieldType::Row | FieldType::Collapsible
            | FieldType::Tabs | FieldType::Join => false,
            FieldType::Relationship | FieldType::Upload => match &self.relationship {
                Some(rc) => !rc.has_many,
                None => true,
            },
            _ => true,
        }
    }
}

/// Whether a field should be treated as optional in generated types.
pub fn is_optional(field: &FieldDefinition) -> (r: bool)
    ensures
        r == optional_field(*field),
{
    !field.required || field.field_type == FieldType::Checkbox
}

} // verus!
