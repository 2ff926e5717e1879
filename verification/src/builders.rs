//! Builders for configuration records.

use vstd::prelude::*;
use crate::field::FieldDefinition;

verus! {

/// Admin-UI settings of a collection.
#[derive(Debug, Clone)]
pub struct AdminConfig {
    pub use_as_title: Option<String>,
    pub default_sort: Option<String>,
    pub hidden: bool,
    pub list_searchable_fields: Vec<String>,
}

impl AdminConfig {
    /// A builder with every setting at its default.
    pub fn builder() -> (b: AdminConfigBuilder)
        ensures
            b.spec_use_as_title() is None,
            b.spec_default_sort() is None,
            !b.spec_hidden(),
            b.spec_list_searchable_fields().len() == 0,
    {
        AdminConfigBuilder::new()
    }
}

/// Builder for [`AdminConfig`]. Created via [`AdminConfig::builder`].
pub struct AdminConfigBuilder {
    use_as_title: Option<String>,
    default_sort: Option<String>,
    hidden: bool,
    list_searchable_fields: Vec<String>,
}

impl AdminConfigBuilder {
    /// A builder with every setting at its default.
    pub fn new() -> (b: Self)
        ensures
            b.spec_use_as_title() is None,
            b.spec_default_sort() is None,
            !b.spec_hidden(),
            b.spec_list_searchable_fields().len() == 0,
    {
        Self { use_as_title: None, default_sort: None, hidden: false, list_searchable_fields: Vec::new() }
    }

    pub fn use_as_title(self, v: Option<String>) -> (b: Self)
        ensures
            b.spec_use_as_title() == v,
            b.spec_default_sort() == self.spec_default_sort(),
            b.spec_hidden() == self.spec_hidden(),
            b.spec_list_searchable_fields() == self.spec_list_searchable_fields(),
    {
        let mut s = self;
        s.use_as_title = v;
        s
    }

    pub fn default_sort(self, v: Option<String>) -> (b: Self)
        ensures
            b.spec_default_sort() == v,
            b.spec_use_as_title() == self.spec_use_as_title(),
            b.spec_hidden() == self.spec_hidden(),
            b.spec_list_searchable_fields() == self.spec_list_searchable_fields(),
    {
        let mut s = self;
        s.default_sort = v;
        s
    }

    pub fn hidden(self, v: bool) -> (b: Self)
        ensures
            b.spec_hidden() == v,
            b.spec_use_as_title() == self.spec_use_as_title(),
            b.spec_default_sort() == self.spec_default_sort(),
            b.spec_list_searchable_fields() == self.spec_list_searchable_fields(),
    {
        let mut s = self;
        s.hidden = v;
        s
    }

    pub fn list_searchable_fields(self, v: Vec<String>) -> (b: Self)
        ensures
            b.spec_list_searchable_fields() == v,
            b.spec_use_as_title() == self.spec_use_as_title(),
            b.spec_default_sort() == self.spec_default_sort(),
            b.spec_hidden() == self.spec_hidden(),
    {
        let mut s = self;
        s.list_searchable_fields = v;
        s
    }

    pub fn build(self) -> (c: AdminConfig)
        ensures
            c.use_as_title == self.spec_use_as_title(),
            c.default_sort == self.spec_default_sort(),
            c.hidden == self.spec_hidden(),
            c.list_searchable_fields == self.spec_list_searchable_fields(),
    {
        AdminConfig {
            use_as_title: self.use_as_title,
            default_sort: self.default_sort,
            hidden: self.hidden,
            list_searchable_fields: self.list_searchable_fields,
        }
    }
}

impl AdminConfigBuilder {
    pub closed spec fn spec_use_as_title(&self) -> Option<String> {
        self.use_as_title
    }

    pub closed spec fn spec_default_sort(&self) -> Option<String> {
        self.default_sort
    }

    pub closed spec fn spec_hidden(&self) -> bool {
        self.hidden
    }

    pub closed spec fn spec_list_searchable_fields(&self) -> Vec<String> {
        self.list_searchable_fields
    }
}

/// Versioning settings of a collection or global.
#[derive(Debug, Clone, Copy)]
pub struct VersionsConfig {
    pub drafts: bool,
    /// The most versions kept per document; 0 keeps them all.
    pub max_versions: u32,
}

/// What a version snapshot is taken of.
pub struct VersionSnapshotCtx<'a> {
    pub table: &'a str,
    pub parent_id: &'a str,
    pub fields: &'a [FieldDefinition],
    pub versions: Option<&'a VersionsConfig>,
    pub has_drafts: bool,
}

/// Builder for [`VersionSnapshotCtx`].
pub struct VersionSnapshotCtxBuilder<'a> {
    table: &'a str,
    parent_id: &'a str,
    fields: &'a [FieldDefinition],
    versions: Option<&'a VersionsConfig>,
    has_drafts: bool,
}

impl<'a> VersionSnapshotCtxBuilder<'a> {
    /// A builder for the given table and parent document, with no fields, no versioning
    /// settings and no drafts.
    pub fn new(table: &'a str, parent_id: &'a str) -> (b: Self)
        ensures
            b.spec_table() == table,
            b.spec_parent_id() == parent_id,
            b.spec_fields()@.len() == 0,
            b.spec_versions() is None,
            !b.spec_has_drafts(),
    {
        Self { table, parent_id, fields: &[], versions: None, has_drafts: false }
    }

    pub closed spec fn spec_table(&self) -> &'a str {
        self.table
    }

    pub closed spec fn spec_parent_id(&self) -> &'a str {
        self.parent_id
    }

    pub closed spec fn spec_fields(&self) -> &'a [FieldDefinition] {
        self.fields
    }

    pub closed spec fn spec_versions(&self) -> Option<&'a VersionsConfig> {
        self.versions
    }

    pub closed spec fn spec_has_drafts(&self) -> bool {
        self.has_drafts
    }

    pub fn fields(self, fields: &'a [FieldDefinition]) -> (b: Self)
        ensures
            b.spec_fields() == fields,
            b.spec_table() == self.spec_table(),
            b.spec_parent_id() == self.spec_parent_id(),
            b.spec_versions() == self.spec_versions(),
            b.spec_has_drafts() == self.spec_has_drafts(),
    {
        let mut s = self;
        s.fields = fields;
        s
    }

    pub fn versions(self, versions: Option<&'a VersionsConfig>) -> (b: Self)
        ensures
            b.spec_versions() == versions,
            b.spec_table() == self.spec_table(),
            b.spec_parent_id() == self.spec_parent_id(),
            b.spec_fields() == self.spec_fields(),
            b.spec_has_drafts() == self.spec_has_drafts(),
    {
        let mut s = self;
        s.versions = versions;
        s
    }

    pub fn has_drafts(self, has_drafts: bool) -> (b: Self)
        ensures
            b.spec_has_drafts() == has_drafts,
            b.spec_table() == self.spec_table(),
            b.spec_parent_id() == self.spec_parent_id(),
            b.spec_fields() == self.spec_fields(),
            b.spec_versions() == self.spec_versions(),
    {
        let mut s = self;
        s.has_drafts = has_drafts;
        s
    }

    pub fn build(self) -> (c: VersionSnapshotCtx<'a>)
        ensures
            c.table == self.spec_table(),
            c.parent_id == self.spec_parent_id(),
            c.fields == self.spec_fields(),
            c.versions == self.spec_versions(),
            c.has_drafts == self.spec_has_drafts(),
    {
        VersionSnapshotCtx {
            table: self.table,
            parent_id: self.parent_id,
            fields: self.fields,
            versions: self.versions,
            has_drafts: self.has_drafts,
        }
    }
}


// ---------------------------------------------------------------------------
// What a chain of builder calls builds
// ---------------------------------------------------------------------------

/// One setter call on an `AdminConfigBuilder`, with its argument.
pub enum AdminSetting {
    UseAsTitle(Option<String>),
    DefaultSort(Option<String>),
    Hidden(bool),
    ListSearchableFields(Vec<String>),
}

/// What a setter call does: it sets its own setting and keeps the others (as each
/// setter's `ensures` states).
pub open spec fn admin_step(before: AdminConfigBuilder, op: AdminSetting, after: AdminConfigBuilder) -> bool {
    &&& after.spec_use_as_title() == match op {
        AdminSetting::UseAsTitle(v) => v,
        _ => before.spec_use_as_title(),
    }
    &&& after.spec_default_sort() == match op {
        AdminSetting::DefaultSort(v) => v,
        _ => before.spec_default_sort(),
    }
    &&& after.spec_hidden() == match op {
        AdminSetting::Hidden(v) => v,
        _ => before.spec_hidden(),
    }
    &&& after.spec_list_searchable_fields()@ == match op {
        AdminSetting::ListSearchableFields(v) => v@,
        _ => before.spec_list_searchable_fields()@,
    }
}

/// The title field last set in a chain of calls (none if never set).
pub open spec fn last_use_as_title(ops: Seq<AdminSetting>) -> Option<String>
    decreases ops.len(),
{
    if ops.len() == 0 {
        None
    } else if let AdminSetting::UseAsTitle(v) = ops.last() {
        v
    } else {
        last_use_as_title(ops.drop_last())
    }
}

/// The default sort last set in a chain of calls (none if never set).
pub open spec fn last_default_sort(ops: Seq<AdminSetting>) -> Option<String>
    decreases ops.len(),
{
    if ops.len() == 0 {
        None
    } else if let AdminSetting::DefaultSort(v) = ops.last() {
        v
    } else {
        last_default_sort(ops.drop_last())
    }
}

/// The hidden flag last set in a chain of calls (false if never set).
pub open spec fn last_hidden(ops: Seq<AdminSetting>) -> bool
    decreases ops.len(),
{
    if ops.len() == 0 {
        false
    } else if let AdminSetting::Hidden(v) = ops.last() {
        v
    } else {
        last_hidden(ops.drop_last())
    }
}

/// The searchable fields last set in a chain of calls (none if never set).
pub open spec fn last_searchable(ops: Seq<AdminSetting>) -> Seq<String>
    decreases ops.len(),
{
    if ops.len() == 0 {
        Seq::empty()
    } else if let AdminSetting::ListSearchableFields(v) = ops.last() {
        v@
    } else {
        last_searchable(ops.drop_last())
    }
}

/// A builder made by `new` (or `AdminConfig::builder`) followed by the calls `ops`, in
/// order, holds the value last given to each setter, or the default for a setter never
/// called; `build` then copies these into the `AdminConfig`.
pub proof fn lemma_admin_builder_last_set(bs: Seq<AdminConfigBuilder>, ops: Seq<AdminSetting>)
    requires
        bs.len() == ops.len() + 1,
        bs[0].spec_use_as_title() is None,
        bs[0].spec_default_sort() is None,
        !bs[0].spec_hidden(),
        bs[0].spec_list_searchable_fields().len() == 0,
        forall|i: int| 0 <= i < ops.len() ==> admin_step(#[trigger] bs[i], ops[i], bs[i + 1]),
    ensures
        bs.last().spec_use_as_title() == last_use_as_title(ops),
        bs.last().spec_default_sort() == last_default_sort(ops),
        bs.last().spec_hidden() == last_hidden(ops),
        bs.last().spec_list_searchable_fields()@ == last_searchable(ops),
    decreases ops.len(),
{
    if ops.len() == 0 {
        assert(bs[0].spec_list_searchable_fields()@ =~= Seq::<String>::empty());
    } else {
        let n = ops.len() - 1;
        let bs2 = bs.drop_last();
        let ops2 = ops.drop_last();
        assert forall|i: int| 0 <= i < ops2.len() implies admin_step(#[trigger] bs2[i], ops2[i], bs2[i + 1]) by {
            assert(admin_step(bs[i], ops[i], bs[i + 1]));
        }
        lemma_admin_builder_last_set(bs2, ops2);
        assert(admin_step(bs[n], ops[n], bs[n + 1]));
    }
}

/// One setter call on a `VersionSnapshotCtxBuilder`, with its argument.
pub enum SnapshotSetting<'a> {
    Fields(&'a [FieldDefinition]),
    Versions(Option<&'a VersionsConfig>),
    HasDrafts(bool),
}

/// What a setter call does: it sets its own setting and keeps the table, the parent
/// document and the other settings.
pub open spec fn snapshot_step<'a>(
    before: VersionSnapshotCtxBuilder<'a>,
    op: SnapshotSetting<'a>,
    after: VersionSnapshotCtxBuilder<'a>,
) -> bool {
    &&& after.spec_table() == before.spec_table()
    &&& after.spec_parent_id() == before.spec_parent_id()
    &&& after.spec_fields()@ == match op {
        SnapshotSetting::Fields(f) => f@,
        _ => before.spec_fields()@,
    }
    &&& after.spec_versions() == match op {
        SnapshotSetting::Versions(v) => v,
        _ => before.spec_versions(),
    }
    &&& after.spec_has_drafts() == match op {
        SnapshotSetting::HasDrafts(h) => h,
        _ => before.spec_has_drafts(),
    }
}

/// The fields last set in a chain of calls (none if never set).
pub open spec fn last_fields<'a>(ops: Seq<SnapshotSetting<'a>>) -> Seq<FieldDefinition>
    decreases ops.len(),
{
    if ops.len() == 0 {
        Seq::empty()
    } else if let SnapshotSetting::Fields(f) = ops.last() {
        f@
    } else {
        last_fields(ops.drop_last())
    }
}

/// The versioning settings last set in a chain of calls (none if never set).
pub open spec fn last_versions<'a>(ops: Seq<SnapshotSetting<'a>>) -> Option<&'a VersionsConfig>
    decreases ops.len(),
{
    if ops.len() == 0 {
        None
    } else if let SnapshotSetting::Versions(v) = ops.last() {
        v
    } else {
        last_versions(ops.drop_last())
    }
}

/// The drafts flag last set in a chain of calls (false if never set).
pub open spec fn last_has_drafts<'a>(ops: Seq<SnapshotSetting<'a>>) -> bool
    decreases ops.len(),
{
    if ops.len() == 0 {
        false
    } else if let SnapshotSetting::HasDrafts(h) = ops.last() {
        h
    } else {
        last_has_drafts(ops.drop_last())
    }
}

/// A builder made by `new(table, parent_id)` followed by the calls `ops`, in order,
/// keeps the table and parent document and holds the value last given to each setter,
/// or the default for a setter never called; `build` then copies these into the context.
pub proof fn lemma_snapshot_builder_last_set<'a>(
    bs: Seq<VersionSnapshotCtxBuilder<'a>>,
    ops: Seq<SnapshotSetting<'a>>,
)
    requires
        bs.len() == ops.len() + 1,
        bs[0].spec_fields()@.len() == 0,
        bs[0].spec_versions() is None,
        !bs[0].spec_has_drafts(),
        forall|i: int| 0 <= i < ops.len() ==> snapshot_step(#[trigger] bs[i], ops[i], bs[i + 1]),
    ensures
        bs.last().spec_table() == bs[0].spec_table(),
        bs.last().spec_parent_id() == bs[0].spec_parent_id(),
        bs.last().spec_fields()@ == last_fields(ops),
        bs.last().spec_versions() == last_versions(ops),
        bs.last().spec_has_drafts() == last_has_drafts(ops),
    decreases ops.len(),
{
    if ops.len() == 0 {
        assert(bs[0].spec_fields()@ =~= Seq::<FieldDefinition>::empty());
    } else {
        let n = ops.len() - 1;
        let bs2 = bs.drop_last();
        let ops2 = ops.drop_last();
        assert forall|i: int| 0 <= i < ops2.len() implies snapshot_step(#[trigger] bs2[i], ops2[i], bs2[i + 1]) by {
            assert(snapshot_step(bs[i], ops[i], bs[i + 1]));
        }
        lemma_snapshot_builder_last_set(bs2, ops2);
        assert(snapshot_step(bs[n], ops[n], bs[n + 1]));
    }
}

} // verus!
