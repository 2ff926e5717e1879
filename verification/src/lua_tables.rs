//! Field definitions as the tables the Lua hook API hands out: the introspection form of
//! `crap.schema` and the round-trip form of `crap.collections.config`, which
//! `crap.collections.define` accepts back. The tables are built here as plain values;
//! turning them into interpreter values is the caller's part.

use vstd::prelude::*;
use vstd::string::*;
use crate::builders::{AdminConfig, VersionsConfig};
use crate::collection::{
    drafts_on, is_auth, is_upload, AuthStrategy, CollectionAccess, CollectionAuth,
    CollectionDefinition, CollectionHooks, CollectionLabels, CollectionUpload, FormatQuality,
    GlobalDefinition, ImageFit, ImageSize, LiveSetting,
};
use crate::field::{
    default_text, field_type_name, BlockDefinition, FieldAccess, FieldAdmin, FieldDefinition,
    FieldHooks, FieldTab, FieldType, JoinConfig, LocalizedString, RelationshipConfig, SelectOption,
};

verus! {

/// A value of a generated table.
#[derive(Debug)]
pub enum LuaValue {
    Str(String),
    Bool(bool),
    Int(i64),
    /// An unsigned integer (a Lua integer when it fits in one).
    UInt(u64),
    /// A table with string keys, set in this order.
    Record(Vec<(String, LuaValue)>),
    /// A sequence table (keys 1..n).
    List(Vec<LuaValue>),
}

/// The mathematical value of a table.
pub enum LuaTree {
    Str(Seq<char>),
    Bool(bool),
    Int(int),
    /// An unsigned integer, kept apart from signed ones: above `i64::MAX` it is not a
    /// Lua integer.
    UInt(nat),
    Record(Seq<(Seq<char>, LuaTree)>),
    List(Seq<LuaTree>),
}

/// The tree that a built value stands for.
pub open spec fn tree_of(v: LuaValue) -> LuaTree
    decreases v,
{
    match v {
        LuaValue::Str(s) => LuaTree::Str(s@),
        LuaValue::Bool(b) => LuaTree::Bool(b),
        LuaValue::Int(i) => LuaTree::Int(i as int),
        LuaValue::UInt(n) => LuaTree::UInt(n as nat),
        LuaValue::Record(es) => LuaTree::Record(
            Seq::new(
                es.len() as nat,
                |i: int|
                    (
                        es@[i].0@,
                        if 0 <= i < es.len() {
                            tree_of(es@[i].1)
                        } else {
                            LuaTree::Bool(false)
                        },
                    ),
            ),
        ),
        LuaValue::List(items) => LuaTree::List(
            Seq::new(
                items.len() as nat,
                |i: int|
                    if 0 <= i < items.len() {
                        tree_of(items@[i])
                    } else {
                        LuaTree::Bool(false)
                    },
            ),
        ),
    }
}

/// The trees of the entries of a record.
pub open spec fn entries_tree(es: Seq<(String, LuaValue)>) -> Seq<(Seq<char>, LuaTree)> {
    Seq::new(es.len(), |i: int| (es[i].0@, tree_of(es[i].1)))
}

/// The trees of the items of a list.
pub open spec fn items_tree(items: Seq<LuaValue>) -> Seq<LuaTree> {
    Seq::new(items.len(), |i: int| tree_of(items[i]))
}

proof fn lemma_record_tree(es: Vec<(String, LuaValue)>)
    ensures
        tree_of(LuaValue::Record(es)) == LuaTree::Record(entries_tree(es@)),
{
    assert(tree_of(LuaValue::Record(es))->Record_0 =~= entries_tree(es@));
}

proof fn lemma_list_tree(items: Vec<LuaValue>)
    ensures
        tree_of(LuaValue::List(items)) == LuaTree::List(items_tree(items@)),
{
    assert(tree_of(LuaValue::List(items))->List_0 =~= items_tree(items@));
}

/// One entry when `c` holds, none otherwise.
pub open spec fn entry_if(c: bool, k: Seq<char>, v: LuaTree) -> Seq<(Seq<char>, LuaTree)> {
    if c {
        seq![(k, v)]
    } else {
        Seq::empty()
    }
}

/// Add an entry to a record.
fn push_entry(es: &mut Vec<(String, LuaValue)>, k: &str, v: LuaValue)
    ensures
        entries_tree(final(es)@) == entries_tree(old(es)@) + seq![(k@, tree_of(v))],
{
    let ghost t = tree_of(v);
    es.push((String::from_str(k), v));
    assert(entries_tree(es@) =~= entries_tree(old(es)@) + seq![(k@, t)]);
}

/// Add an entry to a record when `c` holds.
fn push_entry_if(es: &mut Vec<(String, LuaValue)>, c: bool, k: &str, v: LuaValue)
    ensures
        entries_tree(final(es)@) == entries_tree(old(es)@) + entry_if(c, k@, tree_of(v)),
{
    if c {
        push_entry(es, k, v);
    } else {
        assert(entries_tree(es@) =~= entries_tree(es@) + entry_if(c, k@, tree_of(v)));
    }
}

/// An entry holding an optional string, when it is set.
pub open spec fn opt_str_entry(k: Seq<char>, o: Option<String>) -> Seq<(Seq<char>, LuaTree)> {
    match o {
        Some(s) => seq![(k, LuaTree::Str(s@))],
        None => Seq::empty(),
    }
}

fn push_opt_str(es: &mut Vec<(String, LuaValue)>, k: &str, o: &Option<String>)
    ensures
        entries_tree(final(es)@) == entries_tree(old(es)@) + opt_str_entry(k@, *o),
{
    match o {
        Some(s) => push_entry(es, k, LuaValue::Str(s.clone())),
        None => {
            assert(entries_tree(es@) =~= entries_tree(es@) + opt_str_entry(k@, *o));
        },
    }
}

/// An entry holding an optional small unsigned number, when it is set.
pub open spec fn opt_u32_entry(k: Seq<char>, o: Option<u32>) -> Seq<(Seq<char>, LuaTree)> {
    match o {
        Some(n) => seq![(k, LuaTree::Int(n as int))],
        None => Seq::empty(),
    }
}

/// An entry holding an optional signed number, when it is set.
pub open spec fn opt_i32_entry(k: Seq<char>, o: Option<i32>) -> Seq<(Seq<char>, LuaTree)> {
    match o {
        Some(n) => seq![(k, LuaTree::Int(n as int))],
        None => Seq::empty(),
    }
}

/// An entry holding an optional unsigned number, when it is set.
pub open spec fn opt_u64_entry(k: Seq<char>, o: Option<u64>) -> Seq<(Seq<char>, LuaTree)> {
    match o {
        Some(n) => seq![(k, LuaTree::UInt(n as nat))],
        None => Seq::empty(),
    }
}

fn push_opt_u64(es: &mut Vec<(String, LuaValue)>, k: &str, o: Option<u64>)
    ensures
        entries_tree(final(es)@) == entries_tree(old(es)@) + opt_u64_entry(k@, o),
{
    match o {
        Some(n) => push_entry(es, k, LuaValue::UInt(n)),
        None => {
            assert(entries_tree(es@) =~= entries_tree(es@) + opt_u64_entry(k@, o));
        },
    }
}

// ---------------------------------------------------------------------------
// The introspection form (`crap.schema`)
// ---------------------------------------------------------------------------

/// The relationship table of the introspection form.
pub open spec fn schema_relationship_tree(rc: RelationshipConfig) -> LuaTree {
    LuaTree::Record(
        seq![("collection"@, LuaTree::Str(rc.collection@)), ("has_many"@, LuaTree::Bool(rc.has_many))]
            + match rc.max_depth {
            Some(d) => seq![("max_depth"@, LuaTree::Int(d as int))],
            None => Seq::empty(),
        },
    )
}

/// The options of a select field with their labels in the default locale.
pub open spec fn schema_options_tree(opts: Seq<SelectOption>) -> LuaTree {
    LuaTree::List(
        opts.map_values(
            |o: SelectOption|
                LuaTree::Record(
                    seq![("label"@, LuaTree::Str(default_text(o.label))), ("value"@, LuaTree::Str(o.value@))],
                ),
        ),
    )
}

/// The introspection table of a field: name, type, the required / localized / unique
/// flags, then its relationship, options, sub-fields and blocks when it has them.
pub open spec fn schema_tree(f: FieldDefinition) -> LuaTree
    decreases f, 2int,
{
    LuaTree::Record(
        seq![
            ("name"@, LuaTree::Str(f.name@)),
            ("type"@, LuaTree::Str(field_type_name(f.field_type))),
            ("required"@, LuaTree::Bool(f.required)),
            ("localized"@, LuaTree::Bool(f.localized)),
            ("unique"@, LuaTree::Bool(f.unique)),
        ] + match f.relationship {
            Some(rc) => seq![("relationship"@, schema_relationship_tree(rc))],
            None => Seq::empty(),
        } + entry_if(f.options.len() > 0, "options"@, schema_options_tree(f.options@))
            + entry_if(f.fields.len() > 0, "fields"@, LuaTree::List(schema_trees(f.fields@)))
            + entry_if(f.blocks.len() > 0, "blocks"@, LuaTree::List(schema_block_trees(f.blocks@))),
    )
}

/// `t` is a record that gives key `k` the value `v`: one of its entries is `(k, v)` and
/// every entry under `k` holds `v`.
pub open spec fn record_gives(t: LuaTree, k: Seq<char>, v: LuaTree) -> bool {
    match t {
        LuaTree::Record(es) => (exists|i: int| 0 <= i < es.len() && #[trigger] es[i] == (k, v))
            && forall|i: int| 0 <= i < es.len() && (#[trigger] es[i]).0 == k ==> es[i].1 == v,
        _ => false,
    }
}

/// `t` is a record with an entry under `k`.
pub open spec fn record_has_key(t: LuaTree, k: Seq<char>) -> bool {
    match t {
        LuaTree::Record(es) => exists|i: int| 0 <= i < es.len() && (#[trigger] es[i]).0 == k,
        _ => false,
    }
}

/// The introspection table of a field gives its name, its type name, and its
/// `required`, `localized` and `unique` flags under those keys, and has a
/// `relationship` entry exactly when the field has a relationship.
pub proof fn lemma_schema_table_entries(f: FieldDefinition)
    ensures
        record_gives(schema_tree(f), "name"@, LuaTree::Str(f.name@)),
        record_gives(schema_tree(f), "type"@, LuaTree::Str(field_type_name(f.field_type))),
        record_gives(schema_tree(f), "required"@, LuaTree::Bool(f.required)),
        record_gives(schema_tree(f), "localized"@, LuaTree::Bool(f.localized)),
        record_gives(schema_tree(f), "unique"@, LuaTree::Bool(f.unique)),
        record_has_key(schema_tree(f), "relationship"@) <==> f.relationship is Some,
{
    reveal_strlit("name");
    reveal_strlit("type");
    reveal_strlit("required");
    reveal_strlit("localized");
    reveal_strlit("unique");
    reveal_strlit("relationship");
    reveal_strlit("options");
    reveal_strlit("fields");
    reveal_strlit("blocks");
    let es = schema_tree(f)->Record_0;
    let head = seq![
        ("name"@, LuaTree::Str(f.name@)),
        ("type"@, LuaTree::Str(field_type_name(f.field_type))),
        ("required"@, LuaTree::Bool(f.required)),
        ("localized"@, LuaTree::Bool(f.localized)),
        ("unique"@, LuaTree::Bool(f.unique)),
    ];
    let a: Seq<(Seq<char>, LuaTree)> = match f.relationship {
        Some(rc) => seq![("relationship"@, schema_relationship_tree(rc))],
        None => Seq::empty(),
    };
    let b = entry_if(f.options.len() > 0, "options"@, schema_options_tree(f.options@));
    let c = entry_if(f.fields.len() > 0, "fields"@, LuaTree::List(schema_trees(f.fields@)));
    let d = entry_if(f.blocks.len() > 0, "blocks"@, LuaTree::List(schema_block_trees(f.blocks@)));
    assert(es == head + a + b + c + d);
    let tail = a + b + c + d;
    assert(es =~= head + tail);
    assert forall|j: int| 0 <= j < tail.len() implies {
        let k = (#[trigger] tail[j]).0;
        k == "relationship"@ || k == "options"@ || k == "fields"@ || k == "blocks"@
    } by {
        if j < a.len() {
            assert(tail[j] == a[j]);
        } else if j < a.len() + b.len() {
            assert(tail[j] == b[j - a.len()]);
        } else if j < a.len() + b.len() + c.len() {
            assert(tail[j] == c[j - a.len() - b.len()]);
        } else {
            assert(tail[j] == d[j - a.len() - b.len() - c.len()]);
        }
    }
    let heads = seq!["name"@, "type"@, "required"@, "localized"@, "unique"@];
    let ts = seq!["relationship"@, "options"@, "fields"@, "blocks"@];
    assert forall|x: int, y: int| 0 <= x < 5 && 0 <= y < 4 implies #[trigger] heads[x] != #[trigger] ts[y] by {
        let h = heads[x];
        let t = ts[y];
        if h.len() == t.len() {
            assert(h[0] != t[0]);
        }
    }
    assert forall|i: int| 0 <= i < es.len() && i >= 5 implies {
        let k = (#[trigger] es[i]).0;
        k != "name"@ && k != "type"@ && k != "required"@ && k != "localized"@ && k != "unique"@
    } by {
        assert(es[i] == tail[i - 5]);
        let k = tail[i - 5].0;
        let y: int = if k == "relationship"@ { 0 } else if k == "options"@ { 1 } else if k == "fields"@ { 2 } else { 3 };
        assert(k == ts[y]);
        assert(heads[0] != ts[y]);
        assert(heads[1] != ts[y]);
        assert(heads[2] != ts[y]);
        assert(heads[3] != ts[y]);
        assert(heads[4] != ts[y]);
    }
    assert forall|x: int, y: int| 0 <= x < 5 && 0 <= y < 5 && x != y implies #[trigger] heads[x]
        != #[trigger] heads[y] by {
        assert(heads[0].len() == 4 && heads[1].len() == 4 && heads[2].len() == 8);
        assert(heads[3].len() == 9 && heads[4].len() == 6);
        if heads[x].len() == heads[y].len() {
            assert(heads[x][0] != heads[y][0]);
        }
    }
    assert forall|i: int| 0 <= i < 5 implies #[trigger] es[i] == head[i] && head[i].0 == heads[i] by {}
    assert(es[0] == head[0]);
    assert(es[1] == head[1]);
    assert(es[2] == head[2]);
    assert(es[3] == head[3]);
    assert(es[4] == head[4]);
    if f.relationship is Some {
        assert(es[5] == tail[0]);
        assert(tail[0] == a[0]);
    } else {
        assert(ts[0].len() == 12 && ts[1].len() == 7 && ts[2].len() == 6 && ts[3].len() == 6);
        assert forall|i: int| 0 <= i < es.len() implies (#[trigger] es[i]).0 != "relationship"@ by {
            if i < 5 {
                assert(heads[i] != ts[0]);
            } else {
                assert(es[i] == tail[i - 5]);
                assert(a.len() == 0);
                let j = i - 5;
                if j < b.len() {
                    assert(tail[j] == b[j]);
                    assert(b[j].0 == ts[1]);
                } else if j < b.len() + c.len() {
                    assert(tail[j] == c[j - b.len()]);
                    assert(c[j - b.len()].0 == ts[2]);
                } else {
                    assert(tail[j] == d[j - b.len() - c.len()]);
                    assert(d[j - b.len() - c.len()].0 == ts[3]);
                }
            }
        }
    }
}

/// The introspection tables of a list of fields.
pub open spec fn schema_trees(fs: Seq<FieldDefinition>) -> Seq<LuaTree>
    decreases fs, 1int,
{
    Seq::new(
        fs.len(),
        |i: int|
            if 0 <= i < fs.len() {
                schema_tree(fs[i])
            } else {
                LuaTree::Bool(false)
            },
    )
}

/// The introspection table of a block type: its type, its label in the default locale
/// when it has one, and its fields.
pub open spec fn schema_block_tree(b: BlockDefinition) -> LuaTree
    decreases b, 2int,
{
    LuaTree::Record(
        seq![("type"@, LuaTree::Str(b.block_type@))] + match b.label {
            Some(l) => seq![("label"@, LuaTree::Str(default_text(l)))],
            None => Seq::empty(),
        } + seq![("fields"@, LuaTree::List(schema_trees(b.fields@)))],
    )
}

/// The introspection tables of a list of block types.
pub open spec fn schema_block_trees(bs: Seq<BlockDefinition>) -> Seq<LuaTree>
    decreases bs, 1int,
{
    Seq::new(
        bs.len(),
        |i: int|
            if 0 <= i < bs.len() {
                schema_block_tree(bs[i])
            } else {
                LuaTree::Bool(false)
            },
    )
}

fn schema_relationship_table(rc: &RelationshipConfig) -> (r: LuaValue)
    ensures
        tree_of(r) == schema_relationship_tree(*rc),
{
    let mut es: Vec<(String, LuaValue)> = Vec::new();
    assert(entries_tree(es@) =~= Seq::empty());
    push_entry(&mut es, "collection", LuaValue::Str(rc.collection.clone()));
    push_entry(&mut es, "has_many", LuaValue::Bool(rc.has_many));
    match rc.max_depth {
        Some(d) => push_entry(&mut es, "max_depth", LuaValue::Int(d as i64)),
        None => {},
    }
    proof {
        lemma_record_tree(es);
        assert(entries_tree(es@) =~= seq![
            ("collection"@, LuaTree::Str(rc.collection@)),
            ("has_many"@, LuaTree::Bool(rc.has_many)),
        ] + match rc.max_depth {
            Some(d) => seq![("max_depth"@, LuaTree::Int(d as int))],
            None => Seq::empty(),
        });
    }
    LuaValue::Record(es)
}

fn schema_options_table(opts: &Vec<SelectOption>) -> (r: LuaValue)
    ensures
        tree_of(r) == schema_options_tree(opts@),
{
    let ghost want = schema_options_tree(opts@)->List_0;
    let mut items: Vec<LuaValue> = Vec::new();
    let mut i: usize = 0;
    while i < opts.len()
        invariant
            i <= opts.len(),
            items.len() == i,
            want == schema_options_tree(opts@)->List_0,
            forall|k: int| 0 <= k < i ==> tree_of(#[trigger] items@[k]) == want[k],
        decreases opts.len() - i,
    {
        let mut es: Vec<(String, LuaValue)> = Vec::new();
        assert(entries_tree(es@) =~= Seq::empty());
        push_entry(&mut es, "label", LuaValue::Str(opts[i].label.resolve_default()));
        push_entry(&mut es, "value", LuaValue::Str(opts[i].value.clone()));
        proof {
            lemma_record_tree(es);
            assert(entries_tree(es@) =~= seq![
                ("label"@, LuaTree::Str(default_text(opts@[i as int].label))),
                ("value"@, LuaTree::Str(opts@[i as int].value@)),
            ]);
        }
        items.push(LuaValue::Record(es));
        i = i + 1;
    }
    proof {
        lemma_list_tree(items);
        assert(items_tree(items@) =~= want);
    }
    LuaValue::List(items)
}

/// Build the introspection table of a field (see `schema_tree`).
pub fn field_def_to_lua_table(f: &FieldDefinition) -> (r: LuaValue)
    ensures
        tree_of(r) == schema_tree(*f),
    decreases f, 2int,
{
    let mut es: Vec<(String, LuaValue)> = Vec::new();
    assert(entries_tree(es@) =~= Seq::empty());
    push_entry(&mut es, "name", LuaValue::Str(f.name.clone()));
    push_entry(&mut es, "type", LuaValue::Str(String::from_str(f.field_type.as_str())));
    push_entry(&mut es, "required", LuaValue::Bool(f.required));
    push_entry(&mut es, "localized", LuaValue::Bool(f.localized));
    push_entry(&mut es, "unique", LuaValue::Bool(f.unique));
    let ghost head = entries_tree(es@);
    assert(head =~= seq![
        ("name"@, LuaTree::Str(f.name@)),
        ("type"@, LuaTree::Str(field_type_name(f.field_type))),
        ("required"@, LuaTree::Bool(f.required)),
        ("localized"@, LuaTree::Bool(f.localized)),
        ("unique"@, LuaTree::Bool(f.unique)),
    ]);
    match &f.relationship {
        Some(rc) => push_entry(&mut es, "relationship", schema_relationship_table(rc)),
        None => {
            assert(entries_tree(es@) =~= entries_tree(es@) + Seq::<(Seq<char>, LuaTree)>::empty());
        },
    }
    if f.options.len() > 0 {
        push_entry(&mut es, "options", schema_options_table(&f.options));
    } else {
        assert(entries_tree(es@) =~= entries_tree(es@) + entry_if(false, "options"@, schema_options_tree(f.options@)));
    }
    if f.fields.len() > 0 {
        let items = schema_tables(&f.fields);
        proof {
            lemma_list_tree(items);
        }
        push_entry(&mut es, "fields", LuaValue::List(items));
    } else {
        assert(entries_tree(es@) =~= entries_tree(es@) + entry_if(false, "fields"@, LuaTree::List(schema_trees(f.fields@))));
    }
    if f.blocks.len() > 0 {
        let items = schema_block_tables(&f.blocks);
        proof {
            lemma_list_tree(items);
        }
        push_entry(&mut es, "blocks", LuaValue::List(items));
    } else {
        assert(entries_tree(es@) =~= entries_tree(es@) + entry_if(false, "blocks"@, LuaTree::List(schema_block_trees(f.blocks@))));
    }
    proof {
        lemma_record_tree(es);
    }
    LuaValue::Record(es)
}

fn schema_tables(fs: &Vec<FieldDefinition>) -> (r: Vec<LuaValue>)
    ensures
        items_tree(r@) == schema_trees(fs@),
    decreases fs, 1int,
{
    let mut items: Vec<LuaValue> = Vec::new();
    let mut i: usize = 0;
    while i < fs.len()
        invariant
            i <= fs.len(),
            items.len() == i,
            forall|k: int| 0 <= k < i ==> tree_of(#[trigger] items@[k]) == schema_tree(fs@[k]),
        decreases fs.len() - i,
    {
        let t = field_def_to_lua_table(&fs[i]);
        items.push(t);
        i = i + 1;
    }
    assert(items_tree(items@) =~= schema_trees(fs@));
    items
}

fn schema_block_table(b: &BlockDefinition) -> (r: LuaValue)
    ensures
        tree_of(r) == schema_block_tree(*b),
    decreases b, 2int,
{
    let mut es: Vec<(String, LuaValue)> = Vec::new();
    assert(entries_tree(es@) =~= Seq::empty());
    push_entry(&mut es, "type", LuaValue::Str(b.block_type.clone()));
    match &b.label {
        Some(l) => push_entry(&mut es, "label", LuaValue::Str(l.resolve_default())),
        None => {
            assert(entries_tree(es@) =~= entries_tree(es@) + Seq::<(Seq<char>, LuaTree)>::empty());
        },
    }
    let items = schema_tables(&b.fields);
    proof {
        lemma_list_tree(items);
    }
    push_entry(&mut es, "fields", LuaValue::List(items));
    proof {
        lemma_record_tree(es);
    }
    LuaValue::Record(es)
}

fn schema_block_tables(bs: &Vec<BlockDefinition>) -> (r: Vec<LuaValue>)
    ensures
        items_tree(r@) == schema_block_trees(bs@),
    decreases bs, 1int,
{
    let mut items: Vec<LuaValue> = Vec::new();
    let mut i: usize = 0;
    while i < bs.len()
        invariant
            i <= bs.len(),
            items.len() == i,
            forall|k: int| 0 <= k < i ==> tree_of(#[trigger] items@[k]) == schema_block_tree(bs@[k]),
        decreases bs.len() - i,
    {
        let t = schema_block_table(&bs[i]);
        items.push(t);
        i = i + 1;
    }
    assert(items_tree(items@) =~= schema_block_trees(bs@));
    items
}


// ---------------------------------------------------------------------------
// The round-trip form (`crap.collections.config`)
// ---------------------------------------------------------------------------

/// A label as a Lua value: the plain string, or a table of per-locale strings.
pub open spec fn localized_tree(ls: LocalizedString) -> LuaTree {
    match ls {
        LocalizedString::Plain(s) => LuaTree::Str(s@),
        LocalizedString::Localized(pairs) => LuaTree::Record(
            pairs@.map_values(|p: (String, String)| (p.0@, LuaTree::Str(p.1@))),
        ),
    }
}

/// Build the Lua value of a label (see `localized_tree`).
pub fn localized_string_to_lua(ls: &LocalizedString) -> (r: LuaValue)
    ensures
        tree_of(r) == localized_tree(*ls),
{
    match ls {
        LocalizedString::Plain(s) => LuaValue::Str(s.clone()),
        LocalizedString::Localized(pairs) => {
            let mut es: Vec<(String, LuaValue)> = Vec::new();
            let mut i: usize = 0;
            while i < pairs.len()
                invariant
                    i <= pairs.len(),
                    entries_tree(es@) == pairs@.take(i as int).map_values(
                        |p: (String, String)| (p.0@, LuaTree::Str(p.1@)),
                    ),
                decreases pairs.len() - i,
            {
                push_entry(&mut es, pairs[i].0.as_str(), LuaValue::Str(pairs[i].1.clone()));
                assert(pairs@.take(i + 1).map_values(|p: (String, String)| (p.0@, LuaTree::Str(p.1@)))
                    =~= pairs@.take(i as int).map_values(|p: (String, String)| (p.0@, LuaTree::Str(p.1@)))
                    + seq![(pairs@[i as int].0@, LuaTree::Str(pairs@[i as int].1@))]);
                i = i + 1;
            }
            assert(pairs@.take(pairs.len() as int) =~= pairs@);
            proof {
                lemma_record_tree(es);
            }
            LuaValue::Record(es)
        },
    }
}

/// An entry holding an optional label, when it is set.
pub open spec fn opt_label_entry(k: Seq<char>, o: Option<LocalizedString>) -> Seq<(Seq<char>, LuaTree)> {
    match o {
        Some(l) => seq![(k, localized_tree(l))],
        None => Seq::empty(),
    }
}

fn push_opt_label(es: &mut Vec<(String, LuaValue)>, k: &str, o: &Option<LocalizedString>)
    ensures
        entries_tree(final(es)@) == entries_tree(old(es)@) + opt_label_entry(k@, *o),
{
    match o {
        Some(l) => push_entry(es, k, localized_string_to_lua(l)),
        None => {
            assert(entries_tree(es@) =~= entries_tree(es@) + opt_label_entry(k@, *o));
        },
    }
}

/// A list of strings as a Lua sequence.
pub open spec fn str_list_tree(v: Seq<String>) -> LuaTree {
    LuaTree::List(v.map_values(|s: String| LuaTree::Str(s@)))
}

fn str_list_table(v: &Vec<String>) -> (r: LuaValue)
    ensures
        tree_of(r) == str_list_tree(v@),
{
    let mut items: Vec<LuaValue> = Vec::new();
    let mut i: usize = 0;
    while i < v.len()
        invariant
            i <= v.len(),
            items.len() == i,
            forall|k: int| 0 <= k < i ==> tree_of(#[trigger] items@[k]) == LuaTree::Str(v@[k]@),
        decreases v.len() - i,
    {
        items.push(LuaValue::Str(v[i].clone()));
        i = i + 1;
    }
    proof {
        lemma_list_tree(items);
        assert(items_tree(items@) =~= v@.map_values(|s: String| LuaTree::Str(s@)));
    }
    LuaValue::List(items)
}

/// The entries of the admin table: every admin setting that is set (labels, texts,
/// flags that are on, layout and editor settings, non-empty lists), and the collapsed
/// flag always, since composites start collapsed unless told otherwise.
pub open spec fn admin_entries(a: FieldAdmin) -> Seq<(Seq<char>, LuaTree)> {
    opt_label_entry("label"@, a.label) + opt_label_entry("placeholder"@, a.placeholder)
        + opt_label_entry("description"@, a.description) + entry_if(a.hidden, "hidden"@, LuaTree::Bool(true))
        + entry_if(a.readonly, "readonly"@, LuaTree::Bool(true)) + opt_str_entry("width"@, a.width)
        + opt_str_entry("position"@, a.position) + opt_str_entry("step"@, a.step) + opt_u32_entry(
        "rows"@,
        a.rows,
    ) + opt_str_entry("language"@, a.language) + opt_str_entry("picker"@, a.picker)
        + opt_str_entry("label_field"@, a.label_field) + seq![("collapsed"@, LuaTree::Bool(a.collapsed))]
        + opt_label_entry("labels_singular"@, a.labels_singular) + entry_if(
        a.features.len() > 0,
        "features"@,
        str_list_tree(a.features@),
    ) + opt_str_entry("richtext_format"@, a.richtext_format) + entry_if(
        a.nodes.len() > 0,
        "nodes"@,
        str_list_tree(a.nodes@),
    )
}

fn admin_table(a: &FieldAdmin) -> (r: Vec<(String, LuaValue)>)
    ensures
        entries_tree(r@) == admin_entries(*a),
{
    let mut es: Vec<(String, LuaValue)> = Vec::new();
    assert(entries_tree(es@) =~= Seq::empty());
    push_opt_label(&mut es, "label", &a.label);
    push_opt_label(&mut es, "placeholder", &a.placeholder);
    push_opt_label(&mut es, "description", &a.description);
    push_entry_if(&mut es, a.hidden, "hidden", LuaValue::Bool(true));
    push_entry_if(&mut es, a.readonly, "readonly", LuaValue::Bool(true));
    push_opt_str(&mut es, "width", &a.width);
    push_opt_str(&mut es, "position", &a.position);
    push_opt_str(&mut es, "step", &a.step);
    match a.rows {
        Some(n) => push_entry(&mut es, "rows", LuaValue::Int(n as i64)),
        None => {
            assert(entries_tree(es@) =~= entries_tree(es@) + Seq::<(Seq<char>, LuaTree)>::empty());
        },
    }
    push_opt_str(&mut es, "language", &a.language);
    push_opt_str(&mut es, "picker", &a.picker);
    push_opt_str(&mut es, "label_field", &a.label_field);
    push_entry(&mut es, "collapsed", LuaValue::Bool(a.collapsed));
    push_opt_label(&mut es, "labels_singular", &a.labels_singular);
    push_entry_if(&mut es, a.features.len() > 0, "features", str_list_table(&a.features));
    push_opt_str(&mut es, "richtext_format", &a.richtext_format);
    push_entry_if(&mut es, a.nodes.len() > 0, "nodes", str_list_table(&a.nodes));
    assert(entries_tree(es@) =~= admin_entries(*a));
    es
}

/// The entries of the hooks table: each lifecycle position that has hooks.
pub open spec fn hooks_entries(h: FieldHooks) -> Seq<(Seq<char>, LuaTree)> {
    entry_if(h.before_validate.len() > 0, "before_validate"@, str_list_tree(h.before_validate@))
        + entry_if(h.before_change.len() > 0, "before_change"@, str_list_tree(h.before_change@))
        + entry_if(h.after_change.len() > 0, "after_change"@, str_list_tree(h.after_change@))
        + entry_if(h.after_read.len() > 0, "after_read"@, str_list_tree(h.after_read@))
}

fn hooks_table(h: &FieldHooks) -> (r: Vec<(String, LuaValue)>)
    ensures
        entries_tree(r@) == hooks_entries(*h),
{
    let mut es: Vec<(String, LuaValue)> = Vec::new();
    assert(entries_tree(es@) =~= Seq::empty());
    push_entry_if(&mut es, h.before_validate.len() > 0, "before_validate", str_list_table(&h.before_validate));
    push_entry_if(&mut es, h.before_change.len() > 0, "before_change", str_list_table(&h.before_change));
    push_entry_if(&mut es, h.after_change.len() > 0, "after_change", str_list_table(&h.after_change));
    push_entry_if(&mut es, h.after_read.len() > 0, "after_read", str_list_table(&h.after_read));
    assert(entries_tree(es@) =~= hooks_entries(*h));
    es
}

/// The entries of the access table: read, create and update, each when set.
pub open spec fn access_entries(a: FieldAccess) -> Seq<(Seq<char>, LuaTree)> {
    opt_str_entry("read"@, a.read) + opt_str_entry("create"@, a.create) + opt_str_entry("update"@, a.update)
}

fn access_table(a: &FieldAccess) -> (r: Vec<(String, LuaValue)>)
    ensures
        entries_tree(r@) == access_entries(*a),
{
    let mut es: Vec<(String, LuaValue)> = Vec::new();
    assert(entries_tree(es@) =~= Seq::empty());
    push_opt_str(&mut es, "read", &a.read);
    push_opt_str(&mut es, "create", &a.create);
    push_opt_str(&mut es, "update", &a.update);
    assert(entries_tree(es@) =~= access_entries(*a));
    es
}

/// The relationship table of the round-trip form: the collection, `has_many` only when
/// set, the maximum depth when given, and the target collections of a polymorphic
/// relationship.
pub open spec fn config_relationship_tree(rc: RelationshipConfig) -> LuaTree {
    LuaTree::Record(
        seq![("collection"@, LuaTree::Str(rc.collection@))] + entry_if(
            rc.has_many,
            "has_many"@,
            LuaTree::Bool(true),
        ) + opt_i32_entry("max_depth"@, rc.max_depth) + entry_if(
            rc.polymorphic.len() > 0,
            "polymorphic"@,
            str_list_tree(rc.polymorphic@),
        ),
    )
}

fn config_relationship_table(rc: &RelationshipConfig) -> (r: LuaValue)
    ensures
        tree_of(r) == config_relationship_tree(*rc),
{
    let mut es: Vec<(String, LuaValue)> = Vec::new();
    assert(entries_tree(es@) =~= Seq::empty());
    push_entry(&mut es, "collection", LuaValue::Str(rc.collection.clone()));
    push_entry_if(&mut es, rc.has_many, "has_many", LuaValue::Bool(true));
    match rc.max_depth {
        Some(d) => push_entry(&mut es, "max_depth", LuaValue::Int(d as i64)),
        None => {
            assert(entries_tree(es@) =~= entries_tree(es@) + Seq::<(Seq<char>, LuaTree)>::empty());
        },
    }
    push_entry_if(&mut es, rc.polymorphic.len() > 0, "polymorphic", str_list_table(&rc.polymorphic));
    proof {
        lemma_record_tree(es);
    }
    LuaValue::Record(es)
}

/// The relationship entry of the round-trip form, when the field has a relationship.
pub open spec fn relationship_entry(o: Option<RelationshipConfig>) -> Seq<(Seq<char>, LuaTree)> {
    match o {
        Some(rc) => seq![("relationship"@, config_relationship_tree(rc))],
        None => Seq::empty(),
    }
}

/// The join table: the collection and the field that points back.
pub open spec fn join_entry(j: Option<JoinConfig>) -> Seq<(Seq<char>, LuaTree)> {
    match j {
        Some(j) => seq![
            (
                "join"@,
                LuaTree::Record(seq![("collection"@, LuaTree::Str(j.collection@)), ("on"@, LuaTree::Str(j.on@))]),
            ),
        ],
        None => Seq::empty(),
    }
}

fn push_join(es: &mut Vec<(String, LuaValue)>, j: &Option<JoinConfig>)
    ensures
        entries_tree(final(es)@) == entries_tree(old(es)@) + join_entry(*j),
{
    match j {
        Some(j) => {
            let mut js: Vec<(String, LuaValue)> = Vec::new();
            assert(entries_tree(js@) =~= Seq::empty());
            push_entry(&mut js, "collection", LuaValue::Str(j.collection.clone()));
            push_entry(&mut js, "on", LuaValue::Str(j.on.clone()));
            proof {
                lemma_record_tree(js);
                assert(entries_tree(js@) =~= seq![
                    ("collection"@, LuaTree::Str(j.collection@)),
                    ("on"@, LuaTree::Str(j.on@)),
                ]);
            }
            push_entry(es, "join", LuaValue::Record(js));
        },
        None => {
            assert(entries_tree(es@) =~= entries_tree(es@) + join_entry(*j));
        },
    }
}

/// The options of a select field with their labels as configured.
pub open spec fn config_options_tree(opts: Seq<SelectOption>) -> LuaTree {
    LuaTree::List(
        opts.map_values(
            |o: SelectOption|
                LuaTree::Record(seq![("label"@, localized_tree(o.label)), ("value"@, LuaTree::Str(o.value@))]),
        ),
    )
}

fn config_options_table(opts: &Vec<SelectOption>) -> (r: LuaValue)
    ensures
        tree_of(r) == config_options_tree(opts@),
{
    let ghost want = config_options_tree(opts@)->List_0;
    let mut items: Vec<LuaValue> = Vec::new();
    let mut i: usize = 0;
    while i < opts.len()
        invariant
            i <= opts.len(),
            items.len() == i,
            want == config_options_tree(opts@)->List_0,
            forall|k: int| 0 <= k < i ==> tree_of(#[trigger] items@[k]) == want[k],
        decreases opts.len() - i,
    {
        let mut es: Vec<(String, LuaValue)> = Vec::new();
        assert(entries_tree(es@) =~= Seq::empty());
        push_entry(&mut es, "label", localized_string_to_lua(&opts[i].label));
        push_entry(&mut es, "value", LuaValue::Str(opts[i].value.clone()));
        proof {
            lemma_record_tree(es);
            assert(entries_tree(es@) =~= seq![
                ("label"@, localized_tree(opts@[i as int].label)),
                ("value"@, LuaTree::Str(opts@[i as int].value@)),
            ]);
        }
        items.push(LuaValue::Record(es));
        i = i + 1;
    }
    proof {
        lemma_list_tree(items);
        assert(items_tree(items@) =~= want);
    }
    LuaValue::List(items)
}

/// The round-trip table of a field: every setting of the definition. Name and type
/// always; the flags that are on; the validator, length, row and date bounds, date picker
/// and options when set; the admin table; the hooks and access tables when they hold
/// anything; the relationship and join when set; and the sub-fields, blocks and tabs
/// when there are any.
#[verifier::rlimit(80)]
pub open spec fn config_tree(f: FieldDefinition) -> LuaTree
    decreases f, 2int,
{
    LuaTree::Record(
        seq![("name"@, LuaTree::Str(f.name@))] + seq![("type"@, LuaTree::Str(field_type_name(f.field_type)))]
            + entry_if(f.required, "required"@, LuaTree::Bool(true))
            + entry_if(f.unique, "unique"@, LuaTree::Bool(true))
            + entry_if(f.localized, "localized"@, LuaTree::Bool(true))
            + entry_if(f.has_many, "has_many"@, LuaTree::Bool(true))
            + opt_str_entry("validate"@, f.validate)
            + opt_u64_entry("min_length"@, f.min_length) + opt_u64_entry("max_length"@, f.max_length)
            + opt_u64_entry("min_rows"@, f.min_rows) + opt_u64_entry("max_rows"@, f.max_rows)
            + opt_str_entry("min_date"@, f.min_date) + opt_str_entry("max_date"@, f.max_date)
            + opt_str_entry("picker_appearance"@, f.picker_appearance)
            + entry_if(f.options.len() > 0, "options"@, config_options_tree(f.options@))
            + entry_if(admin_entries(f.admin).len() > 0, "admin"@, LuaTree::Record(admin_entries(f.admin)))
            + entry_if(hooks_entries(f.hooks).len() > 0, "hooks"@, LuaTree::Record(hooks_entries(f.hooks)))
            + entry_if(access_entries(f.access).len() > 0, "access"@, LuaTree::Record(access_entries(f.access)))
            + relationship_entry(f.relationship) + join_entry(f.join) + entry_if(f.fields.len() > 0, "fields"@, LuaTree::List(config_trees(f.fields@)))
            + entry_if(f.blocks.len() > 0, "blocks"@, LuaTree::List(config_block_trees(f.blocks@)))
            + entry_if(f.tabs.len() > 0, "tabs"@, LuaTree::List(config_tab_trees(f.tabs@))),
    )
}

/// The round-trip tables of a list of fields.
pub open spec fn config_trees(fs: Seq<FieldDefinition>) -> Seq<LuaTree>
    decreases fs, 1int,
{
    Seq::new(
        fs.len(),
        |i: int|
            if 0 <= i < fs.len() {
                config_tree(fs[i])
            } else {
                LuaTree::Bool(false)
            },
    )
}

/// The round-trip table of a block type: its type, its label as configured, its label
/// field, group and image when set, and its fields.
pub open spec fn config_block_tree(b: BlockDefinition) -> LuaTree
    decreases b, 2int,
{
    LuaTree::Record(
        seq![("type"@, LuaTree::Str(b.block_type@))] + opt_label_entry("label"@, b.label)
            + opt_str_entry("label_field"@, b.label_field) + opt_str_entry("group"@, b.group)
            + opt_str_entry("image_url"@, b.image_url) + seq![("fields"@, LuaTree::List(config_trees(b.fields@)))],
    )
}

/// The round-trip table of a tab: its label, its description when set, and its fields.
pub open spec fn config_tab_tree(t: FieldTab) -> LuaTree
    decreases t, 2int,
{
    LuaTree::Record(
        seq![("label"@, LuaTree::Str(t.label@))] + opt_str_entry("description"@, t.description)
            + seq![("fields"@, LuaTree::List(config_trees(t.fields@)))],
    )
}

/// The round-trip tables of a list of tabs.
pub open spec fn config_tab_trees(ts: Seq<FieldTab>) -> Seq<LuaTree>
    decreases ts, 1int,
{
    Seq::new(
        ts.len(),
        |i: int|
            if 0 <= i < ts.len() {
                config_tab_tree(ts[i])
            } else {
                LuaTree::Bool(false)
            },
    )
}

/// The round-trip tables of a list of block types.
pub open spec fn config_block_trees(bs: Seq<BlockDefinition>) -> Seq<LuaTree>
    decreases bs, 1int,
{
    Seq::new(
        bs.len(),
        |i: int|
            if 0 <= i < bs.len() {
                config_block_tree(bs[i])
            } else {
                LuaTree::Bool(false)
            },
    )
}

/// Build the round-trip table of a field (see `config_tree`).
pub fn field_config_to_lua(f: &FieldDefinition) -> (r: LuaValue)
    ensures
        tree_of(r) == config_tree(*f),
    decreases f, 2int,
{
    let mut es: Vec<(String, LuaValue)> = Vec::new();
    assert(entries_tree(es@) =~= Seq::empty());
    push_entry(&mut es, "name", LuaValue::Str(f.name.clone()));
    push_entry(&mut es, "type", LuaValue::Str(String::from_str(f.field_type.as_str())));
    assert(entries_tree(es@) =~= seq![("name"@, LuaTree::Str(f.name@))] + seq![
        ("type"@, LuaTree::Str(field_type_name(f.field_type))),
    ]);
    push_entry_if(&mut es, f.required, "required", LuaValue::Bool(true));
    push_entry_if(&mut es, f.unique, "unique", LuaValue::Bool(true));
    push_entry_if(&mut es, f.localized, "localized", LuaValue::Bool(true));
    push_entry_if(&mut es, f.has_many, "has_many", LuaValue::Bool(true));
    push_opt_str(&mut es, "validate", &f.validate);
    push_opt_u64(&mut es, "min_length", f.min_length);
    push_opt_u64(&mut es, "max_length", f.max_length);
    push_opt_u64(&mut es, "min_rows", f.min_rows);
    push_opt_u64(&mut es, "max_rows", f.max_rows);
    push_opt_str(&mut es, "min_date", &f.min_date);
    push_opt_str(&mut es, "max_date", &f.max_date);
    push_opt_str(&mut es, "picker_appearance", &f.picker_appearance);
    if f.options.len() > 0 {
        push_entry(&mut es, "options", config_options_table(&f.options));
    } else {
        assert(entries_tree(es@) =~= entries_tree(es@) + entry_if(false, "options"@, config_options_tree(f.options@)));
    }
    let admin = admin_table(&f.admin);
    let has_admin = admin.len() > 0;
    proof {
        lemma_record_tree(admin);
    }
    push_entry_if(&mut es, has_admin, "admin", LuaValue::Record(admin));
    let hooks = hooks_table(&f.hooks);
    let has_hooks = hooks.len() > 0;
    proof {
        lemma_record_tree(hooks);
    }
    push_entry_if(&mut es, has_hooks, "hooks", LuaValue::Record(hooks));
    let access = access_table(&f.access);
    let has_access = access.len() > 0;
    proof {
        lemma_record_tree(access);
    }
    push_entry_if(&mut es, has_access, "access", LuaValue::Record(access));
    match &f.relationship {
        Some(rc) => push_entry(&mut es, "relationship", config_relationship_table(rc)),
        None => {
            assert(entries_tree(es@) =~= entries_tree(es@) + Seq::<(Seq<char>, LuaTree)>::empty());
        },
    }
    push_join(&mut es, &f.join);
    if f.fields.len() > 0 {
        let items = config_tables(&f.fields);
        proof {
            lemma_list_tree(items);
        }
        push_entry(&mut es, "fields", LuaValue::List(items));
    } else {
        assert(entries_tree(es@) =~= entries_tree(es@) + entry_if(false, "fields"@, LuaTree::List(config_trees(f.fields@))));
    }
    if f.blocks.len() > 0 {
        let items = config_block_tables(&f.blocks);
        proof {
            lemma_list_tree(items);
        }
        push_entry(&mut es, "blocks", LuaValue::List(items));
    } else {
        assert(entries_tree(es@) =~= entries_tree(es@) + entry_if(false, "blocks"@, LuaTree::List(config_block_trees(f.blocks@))));
    }
    if f.tabs.len() > 0 {
        let items = config_tab_tables(&f.tabs);
        proof {
            lemma_list_tree(items);
        }
        push_entry(&mut es, "tabs", LuaValue::List(items));
    } else {
        assert(entries_tree(es@) =~= entries_tree(es@) + entry_if(false, "tabs"@, LuaTree::List(config_tab_trees(f.tabs@))));
    }
    proof {
        lemma_record_tree(es);
    }
    LuaValue::Record(es)
}

fn config_tab_table(t: &FieldTab) -> (r: LuaValue)
    ensures
        tree_of(r) == config_tab_tree(*t),
    decreases t, 2int,
{
    let mut es: Vec<(String, LuaValue)> = Vec::new();
    assert(entries_tree(es@) =~= Seq::empty());
    push_entry(&mut es, "label", LuaValue::Str(t.label.clone()));
    push_opt_str(&mut es, "description", &t.description);
    let items = config_tables(&t.fields);
    proof {
        lemma_list_tree(items);
    }
    push_entry(&mut es, "fields", LuaValue::List(items));
    proof {
        lemma_record_tree(es);
        assert(entries_tree(es@) =~= config_tab_tree(*t)->Record_0);
    }
    LuaValue::Record(es)
}

fn config_tab_tables(ts: &Vec<FieldTab>) -> (r: Vec<LuaValue>)
    ensures
        items_tree(r@) == config_tab_trees(ts@),
    decreases ts, 1int,
{
    let mut items: Vec<LuaValue> = Vec::new();
    let mut i: usize = 0;
    while i < ts.len()
        invariant
            i <= ts.len(),
            items.len() == i,
            forall|k: int| 0 <= k < i ==> tree_of(#[trigger] items@[k]) == config_tab_tree(ts@[k]),
        decreases ts.len() - i,
    {
        let t = config_tab_table(&ts[i]);
        items.push(t);
        i = i + 1;
    }
    assert(items_tree(items@) =~= config_tab_trees(ts@));
    items
}

#[verifier::rlimit(80)]
fn config_tables(fs: &Vec<FieldDefinition>) -> (r: Vec<LuaValue>)
    ensures
        items_tree(r@) == config_trees(fs@),
    decreases fs, 1int,
{
    let mut items: Vec<LuaValue> = Vec::new();
    let mut i: usize = 0;
    while i < fs.len()
        invariant
            i <= fs.len(),
            items.len() == i,
            forall|k: int| 0 <= k < i ==> tree_of(#[trigger] items@[k]) == config_tree(fs@[k]),
        decreases fs.len() - i,
    {
        let t = field_config_to_lua(&fs[i]);
        items.push(t);
        i = i + 1;
    }
    assert(items_tree(items@) =~= config_trees(fs@));
    items
}

fn config_block_table(b: &BlockDefinition) -> (r: LuaValue)
    ensures
        tree_of(r) == config_block_tree(*b),
    decreases b, 2int,
{
    let mut es: Vec<(String, LuaValue)> = Vec::new();
    assert(entries_tree(es@) =~= Seq::empty());
    push_entry(&mut es, "type", LuaValue::Str(b.block_type.clone()));
    push_opt_label(&mut es, "label", &b.label);
    push_opt_str(&mut es, "label_field", &b.label_field);
    push_opt_str(&mut es, "group", &b.group);
    push_opt_str(&mut es, "image_url", &b.image_url);
    let items = config_tables(&b.fields);
    proof {
        lemma_list_tree(items);
    }
    push_entry(&mut es, "fields", LuaValue::List(items));
    proof {
        lemma_record_tree(es);
    }
    LuaValue::Record(es)
}

fn config_block_tables(bs: &Vec<BlockDefinition>) -> (r: Vec<LuaValue>)
    ensures
        items_tree(r@) == config_block_trees(bs@),
    decreases bs, 1int,
{
    let mut items: Vec<LuaValue> = Vec::new();
    let mut i: usize = 0;
    while i < bs.len()
        invariant
            i <= bs.len(),
            items.len() == i,
            forall|k: int| 0 <= k < i ==> tree_of(#[trigger] items@[k]) == config_block_tree(bs@[k]),
        decreases bs.len() - i,
    {
        let t = config_block_table(&bs[i]);
        items.push(t);
        i = i + 1;
    }
    assert(items_tree(items@) =~= config_block_trees(bs@));
    items
}


// ---------------------------------------------------------------------------
// Collections and globals
// ---------------------------------------------------------------------------

/// The labels table, in the round-trip form: each label as configured, when set.
pub open spec fn labels_tree(l: CollectionLabels) -> LuaTree {
    LuaTree::Record(opt_label_entry("singular"@, l.singular) + opt_label_entry("plural"@, l.plural))
}

fn labels_table(l: &CollectionLabels) -> (r: LuaValue)
    ensures
        tree_of(r) == labels_tree(*l),
{
    let mut es: Vec<(String, LuaValue)> = Vec::new();
    assert(entries_tree(es@) =~= Seq::empty());
    push_opt_label(&mut es, "singular", &l.singular);
    push_opt_label(&mut es, "plural", &l.plural);
    proof {
        lemma_record_tree(es);
        assert(entries_tree(es@) =~= opt_label_entry("singular"@, l.singular) + opt_label_entry(
            "plural"@,
            l.plural,
        ));
    }
    LuaValue::Record(es)
}

/// The entries of a collection's hooks table: each lifecycle position that has hooks.
pub open spec fn collection_hooks_entries(h: CollectionHooks) -> Seq<(Seq<char>, LuaTree)> {
    entry_if(h.before_validate.len() > 0, "before_validate"@, str_list_tree(h.before_validate@))
        + entry_if(h.before_change.len() > 0, "before_change"@, str_list_tree(h.before_change@))
        + entry_if(h.after_change.len() > 0, "after_change"@, str_list_tree(h.after_change@))
        + entry_if(h.before_read.len() > 0, "before_read"@, str_list_tree(h.before_read@))
        + entry_if(h.after_read.len() > 0, "after_read"@, str_list_tree(h.after_read@))
        + entry_if(h.before_delete.len() > 0, "before_delete"@, str_list_tree(h.before_delete@))
        + entry_if(h.after_delete.len() > 0, "after_delete"@, str_list_tree(h.after_delete@))
        + entry_if(h.before_broadcast.len() > 0, "before_broadcast"@, str_list_tree(h.before_broadcast@))
}

/// Build the hooks table of a collection or global (see `collection_hooks_entries`).
pub fn collection_hooks_to_lua(h: &CollectionHooks) -> (r: LuaValue)
    ensures
        tree_of(r) == LuaTree::Record(collection_hooks_entries(*h)),
{
    let mut es: Vec<(String, LuaValue)> = Vec::new();
    assert(entries_tree(es@) =~= Seq::empty());
    push_entry_if(&mut es, h.before_validate.len() > 0, "before_validate", str_list_table(&h.before_validate));
    push_entry_if(&mut es, h.before_change.len() > 0, "before_change", str_list_table(&h.before_change));
    push_entry_if(&mut es, h.after_change.len() > 0, "after_change", str_list_table(&h.after_change));
    push_entry_if(&mut es, h.before_read.len() > 0, "before_read", str_list_table(&h.before_read));
    push_entry_if(&mut es, h.after_read.len() > 0, "after_read", str_list_table(&h.after_read));
    push_entry_if(&mut es, h.before_delete.len() > 0, "before_delete", str_list_table(&h.before_delete));
    push_entry_if(&mut es, h.after_delete.len() > 0, "after_delete", str_list_table(&h.after_delete));
    push_entry_if(&mut es, h.before_broadcast.len() > 0, "before_broadcast", str_list_table(&h.before_broadcast));
    proof {
        lemma_record_tree(es);
        assert(entries_tree(es@) =~= collection_hooks_entries(*h));
    }
    LuaValue::Record(es)
}

/// The entries of a collection's access table: read, create, update and delete, each
/// when set.
pub open spec fn collection_access_entries(a: CollectionAccess) -> Seq<(Seq<char>, LuaTree)> {
    opt_str_entry("read"@, a.read) + opt_str_entry("create"@, a.create) + opt_str_entry("update"@, a.update)
        + opt_str_entry("delete"@, a.delete)
}

fn collection_access_table(a: &CollectionAccess) -> (r: LuaValue)
    ensures
        tree_of(r) == LuaTree::Record(collection_access_entries(*a)),
{
    let mut es: Vec<(String, LuaValue)> = Vec::new();
    assert(entries_tree(es@) =~= Seq::empty());
    push_opt_str(&mut es, "read", &a.read);
    push_opt_str(&mut es, "create", &a.create);
    push_opt_str(&mut es, "update", &a.update);
    push_opt_str(&mut es, "delete", &a.delete);
    proof {
        lemma_record_tree(es);
        assert(entries_tree(es@) =~= collection_access_entries(*a));
    }
    LuaValue::Record(es)
}

/// The live setting: `true` when unset, `false` when disabled, else the function.
pub open spec fn live_tree(live: Option<LiveSetting>) -> LuaTree {
    match live {
        None => LuaTree::Bool(true),
        Some(LiveSetting::Disabled) => LuaTree::Bool(false),
        Some(LiveSetting::Function(s)) => LuaTree::Str(s@),
    }
}

fn live_value(live: &Option<LiveSetting>) -> (r: LuaValue)
    ensures
        tree_of(r) == live_tree(*live),
{
    match live {
        None => LuaValue::Bool(true),
        Some(LiveSetting::Disabled) => LuaValue::Bool(false),
        Some(LiveSetting::Function(s)) => LuaValue::Str(s.clone()),
    }
}

/// The entries of a collection's admin table: title field, default sort, hidden flag
/// and searchable fields, each when set.
pub open spec fn collection_admin_entries(a: AdminConfig) -> Seq<(Seq<char>, LuaTree)> {
    opt_str_entry("use_as_title"@, a.use_as_title) + opt_str_entry("default_sort"@, a.default_sort)
        + entry_if(a.hidden, "hidden"@, LuaTree::Bool(true)) + entry_if(
        a.list_searchable_fields.len() > 0,
        "list_searchable_fields"@,
        str_list_tree(a.list_searchable_fields@),
    )
}

fn collection_admin_table(a: &AdminConfig) -> (r: LuaValue)
    ensures
        tree_of(r) == LuaTree::Record(collection_admin_entries(*a)),
{
    let mut es: Vec<(String, LuaValue)> = Vec::new();
    assert(entries_tree(es@) =~= Seq::empty());
    push_opt_str(&mut es, "use_as_title", &a.use_as_title);
    push_opt_str(&mut es, "default_sort", &a.default_sort);
    push_entry_if(&mut es, a.hidden, "hidden", LuaValue::Bool(true));
    push_entry_if(
        &mut es,
        a.list_searchable_fields.len() > 0,
        "list_searchable_fields",
        str_list_table(&a.list_searchable_fields),
    );
    proof {
        lemma_record_tree(es);
        assert(entries_tree(es@) =~= collection_admin_entries(*a));
    }
    LuaValue::Record(es)
}

/// Auth settings are written as `true` when they are the defaults: no strategies, local
/// login allowed, no email verification, password reset on, a 7200-second token.
pub open spec fn default_auth(a: CollectionAuth) -> bool {
    a.strategies.len() == 0 && !a.disable_local && !a.verify_email && a.forgot_password && a.token_expiry
        == 7200
}

/// The auth setting: `true` for the defaults, else a table with the token lifetime and
/// whatever differs from the defaults.
pub open spec fn auth_tree(a: CollectionAuth) -> LuaTree {
    if default_auth(a) {
        LuaTree::Bool(true)
    } else {
        LuaTree::Record(
            seq![("token_expiry"@, LuaTree::UInt(a.token_expiry as nat))] + entry_if(
                a.disable_local,
                "disable_local"@,
                LuaTree::Bool(true),
            ) + entry_if(a.verify_email, "verify_email"@, LuaTree::Bool(true)) + entry_if(
                !a.forgot_password,
                "forgot_password"@,
                LuaTree::Bool(false),
            ) + entry_if(
                a.strategies.len() > 0,
                "strategies"@,
                strategies_tree(a.strategies@),
            ),
        )
    }
}

/// The table of a list of auth strategies: each one's name and authenticate function.
pub open spec fn strategies_tree(ss: Seq<AuthStrategy>) -> LuaTree {
    LuaTree::List(
        ss.map_values(
            |s: AuthStrategy|
                LuaTree::Record(
                    seq![("name"@, LuaTree::Str(s.name@)), ("authenticate"@, LuaTree::Str(s.authenticate@))],
                ),
        ),
    )
}

fn strategies_table(ss: &Vec<AuthStrategy>) -> (r: LuaValue)
    ensures
        tree_of(r) == strategies_tree(ss@),
{
    let ghost want = ss@.map_values(
        |s: AuthStrategy|
            LuaTree::Record(
                seq![("name"@, LuaTree::Str(s.name@)), ("authenticate"@, LuaTree::Str(s.authenticate@))],
            ),
    );
    let mut items: Vec<LuaValue> = Vec::new();
    let mut i: usize = 0;
    while i < ss.len()
        invariant
            i <= ss.len(),
            items.len() == i,
            want == ss@.map_values(
                |s: AuthStrategy|
                    LuaTree::Record(
                        seq![("name"@, LuaTree::Str(s.name@)), ("authenticate"@, LuaTree::Str(s.authenticate@))],
                    ),
            ),
            forall|k: int| 0 <= k < i ==> tree_of(#[trigger] items@[k]) == want[k],
        decreases ss.len() - i,
    {
        let mut es: Vec<(String, LuaValue)> = Vec::new();
        assert(entries_tree(es@) =~= Seq::empty());
        push_entry(&mut es, "name", LuaValue::Str(ss[i].name.clone()));
        push_entry(&mut es, "authenticate", LuaValue::Str(ss[i].authenticate.clone()));
        proof {
            lemma_record_tree(es);
            assert(entries_tree(es@) =~= seq![
                ("name"@, LuaTree::Str(ss@[i as int].name@)),
                ("authenticate"@, LuaTree::Str(ss@[i as int].authenticate@)),
            ]);
        }
        items.push(LuaValue::Record(es));
        i = i + 1;
    }
    proof {
        lemma_list_tree(items);
        assert(items_tree(items@) =~= want);
    }
    LuaValue::List(items)
}

fn auth_value(a: &CollectionAuth) -> (r: LuaValue)
    ensures
        tree_of(r) == auth_tree(*a),
{
    if a.strategies.len() == 0 && !a.disable_local && !a.verify_email && a.forgot_password && a.token_expiry
        == 7200 {
        return LuaValue::Bool(true);
    }
    let mut es: Vec<(String, LuaValue)> = Vec::new();
    assert(entries_tree(es@) =~= Seq::empty());
    push_entry(&mut es, "token_expiry", LuaValue::UInt(a.token_expiry));
    assert(entries_tree(es@) =~= seq![("token_expiry"@, LuaTree::UInt(a.token_expiry as nat))]);
    push_entry_if(&mut es, a.disable_local, "disable_local", LuaValue::Bool(true));
    push_entry_if(&mut es, a.verify_email, "verify_email", LuaValue::Bool(true));
    push_entry_if(&mut es, !a.forgot_password, "forgot_password", LuaValue::Bool(false));
    push_entry_if(&mut es, a.strategies.len() > 0, "strategies", strategies_table(&a.strategies));
    proof {
        lemma_record_tree(es);
    }
    LuaValue::Record(es)
}

/// The name of an image fit.
pub open spec fn fit_name(f: ImageFit) -> Seq<char> {
    match f {
        ImageFit::Cover => "cover"@,
        ImageFit::Contain => "contain"@,
        ImageFit::Inside => "inside"@,
        ImageFit::Fill => "fill"@,
    }
}

fn fit_str(f: ImageFit) -> (r: &'static str)
    ensures
        r@ == fit_name(f),
{
    match f {
        ImageFit::Cover => "cover",
        ImageFit::Contain => "contain",
        ImageFit::Inside => "inside",
        ImageFit::Fill => "fill",
    }
}

/// The table of a named image size.
pub open spec fn image_size_tree(s: ImageSize) -> LuaTree {
    LuaTree::Record(
        seq![
            ("name"@, LuaTree::Str(s.name@)),
            ("width"@, LuaTree::Int(s.width as int)),
            ("height"@, LuaTree::Int(s.height as int)),
            ("fit"@, LuaTree::Str(fit_name(s.fit))),
        ],
    )
}

/// The table of a list of image sizes.
pub open spec fn image_sizes_tree(ss: Seq<ImageSize>) -> LuaTree {
    LuaTree::List(ss.map_values(|s: ImageSize| image_size_tree(s)))
}

fn image_sizes_table(ss: &Vec<ImageSize>) -> (r: LuaValue)
    ensures
        tree_of(r) == image_sizes_tree(ss@),
{
    let ghost want = ss@.map_values(|s: ImageSize| image_size_tree(s));
    let mut items: Vec<LuaValue> = Vec::new();
    let mut i: usize = 0;
    while i < ss.len()
        invariant
            i <= ss.len(),
            items.len() == i,
            want == ss@.map_values(|s: ImageSize| image_size_tree(s)),
            forall|k: int| 0 <= k < i ==> tree_of(#[trigger] items@[k]) == want[k],
        decreases ss.len() - i,
    {
        let mut es: Vec<(String, LuaValue)> = Vec::new();
        assert(entries_tree(es@) =~= Seq::empty());
        push_entry(&mut es, "name", LuaValue::Str(ss[i].name.clone()));
        push_entry(&mut es, "width", LuaValue::Int(ss[i].width as i64));
        push_entry(&mut es, "height", LuaValue::Int(ss[i].height as i64));
        push_entry(&mut es, "fit", LuaValue::Str(String::from_str(fit_str(ss[i].fit))));
        proof {
            lemma_record_tree(es);
            assert(entries_tree(es@) =~= image_size_tree(ss@[i as int])->Record_0);
        }
        items.push(LuaValue::Record(es));
        i = i + 1;
    }
    proof {
        lemma_list_tree(items);
        assert(items_tree(items@) =~= want);
    }
    LuaValue::List(items)
}

/// An entry for the quality of a generated image format, when it is generated.
pub open spec fn quality_entry(k: Seq<char>, o: Option<FormatQuality>) -> Seq<(Seq<char>, LuaTree)> {
    match o {
        Some(q) => seq![(k, LuaTree::Record(seq![("quality"@, LuaTree::Int(q.quality as int))]))],
        None => Seq::empty(),
    }
}

fn push_quality(es: &mut Vec<(String, LuaValue)>, k: &str, o: Option<FormatQuality>)
    ensures
        entries_tree(final(es)@) == entries_tree(old(es)@) + quality_entry(k@, o),
{
    match o {
        Some(q) => {
            let mut qs: Vec<(String, LuaValue)> = Vec::new();
            assert(entries_tree(qs@) =~= Seq::empty());
            push_entry(&mut qs, "quality", LuaValue::Int(q.quality as i64));
            proof {
                lemma_record_tree(qs);
            }
            push_entry(es, k, LuaValue::Record(qs));
        },
        None => {
            assert(entries_tree(es@) =~= entries_tree(es@) + quality_entry(k@, o));
        },
    }
}

/// Upload settings are written as `true` when nothing but the flag is set.
pub open spec fn plain_upload(u: CollectionUpload) -> bool {
    u.mime_types.len() == 0 && u.max_file_size is None && u.image_sizes.len() == 0
        && u.admin_thumbnail is None && u.format_options.webp is None && u.format_options.avif is None
}

/// The upload setting: `true` when nothing else is set, else a table of the MIME types,
/// size limit, image sizes, thumbnail field and extra formats that are set.
pub open spec fn upload_tree(u: CollectionUpload) -> LuaTree {
    if plain_upload(u) {
        LuaTree::Bool(true)
    } else {
        LuaTree::Record(
            entry_if(u.mime_types.len() > 0, "mime_types"@, str_list_tree(u.mime_types@))
                + opt_u64_entry("max_file_size"@, u.max_file_size) + entry_if(
                u.image_sizes.len() > 0,
                "image_sizes"@,
                image_sizes_tree(u.image_sizes@),
            ) + opt_str_entry("admin_thumbnail"@, u.admin_thumbnail) + entry_if(
                u.format_options.webp is Some || u.format_options.avif is Some,
                "format_options"@,
                LuaTree::Record(
                    quality_entry("webp"@, u.format_options.webp) + quality_entry(
                        "avif"@,
                        u.format_options.avif,
                    ),
                ),
            ),
        )
    }
}

fn upload_value(u: &CollectionUpload) -> (r: LuaValue)
    ensures
        tree_of(r) == upload_tree(*u),
{
    if u.mime_types.len() == 0 && u.max_file_size.is_none() && u.image_sizes.len() == 0
        && u.admin_thumbnail.is_none() && u.format_options.webp.is_none()
        && u.format_options.avif.is_none() {
        return LuaValue::Bool(true);
    }
    let mut es: Vec<(String, LuaValue)> = Vec::new();
    assert(entries_tree(es@) =~= Seq::empty());
    push_entry_if(&mut es, u.mime_types.len() > 0, "mime_types", str_list_table(&u.mime_types));
    assert(entries_tree(es@) =~= entry_if(u.mime_types.len() > 0, "mime_types"@, str_list_tree(u.mime_types@)));
    match u.max_file_size {
        Some(m) => push_entry(&mut es, "max_file_size", LuaValue::UInt(m)),
        None => {
            assert(entries_tree(es@) =~= entries_tree(es@) + Seq::<(Seq<char>, LuaTree)>::empty());
        },
    }
    push_entry_if(&mut es, u.image_sizes.len() > 0, "image_sizes", image_sizes_table(&u.image_sizes));
    push_opt_str(&mut es, "admin_thumbnail", &u.admin_thumbnail);
    let mut fo: Vec<(String, LuaValue)> = Vec::new();
    assert(entries_tree(fo@) =~= Seq::empty());
    push_quality(&mut fo, "webp", u.format_options.webp);
    push_quality(&mut fo, "avif", u.format_options.avif);
    proof {
        lemma_record_tree(fo);
        assert(entries_tree(fo@) =~= quality_entry("webp"@, u.format_options.webp) + quality_entry(
            "avif"@,
            u.format_options.avif,
        ));
    }
    let has_formats = u.format_options.webp.is_some() || u.format_options.avif.is_some();
    push_entry_if(&mut es, has_formats, "format_options", LuaValue::Record(fo));
    proof {
        lemma_record_tree(es);
    }
    LuaValue::Record(es)
}

/// The versions setting, when versioning is on: `true` for drafts without a limit,
/// else a table of the drafts flag and the limit when there is one.
pub open spec fn versions_entry(v: Option<VersionsConfig>) -> Seq<(Seq<char>, LuaTree)> {
    match v {
        Some(v) => seq![
            (
                "versions"@,
                if v.drafts && v.max_versions == 0 {
                    LuaTree::Bool(true)
                } else {
                    LuaTree::Record(
                        seq![("drafts"@, LuaTree::Bool(v.drafts))] + entry_if(
                            v.max_versions > 0,
                            "max_versions"@,
                            LuaTree::Int(v.max_versions as int),
                        ),
                    )
                },
            ),
        ],
        None => Seq::empty(),
    }
}

fn push_versions(es: &mut Vec<(String, LuaValue)>, v: Option<VersionsConfig>)
    ensures
        entries_tree(final(es)@) == entries_tree(old(es)@) + versions_entry(v),
{
    match v {
        Some(v) => {
            if v.drafts && v.max_versions == 0 {
                push_entry(es, "versions", LuaValue::Bool(true));
            } else {
                let mut vs: Vec<(String, LuaValue)> = Vec::new();
                assert(entries_tree(vs@) =~= Seq::empty());
                push_entry(&mut vs, "drafts", LuaValue::Bool(v.drafts));
                assert(entries_tree(vs@) =~= seq![("drafts"@, LuaTree::Bool(v.drafts))]);
                push_entry_if(&mut vs, v.max_versions > 0, "max_versions", LuaValue::Int(v.max_versions as i64));
                proof {
                    lemma_record_tree(vs);
                }
                push_entry(es, "versions", LuaValue::Record(vs));
            }
        },
        None => {
            assert(entries_tree(es@) =~= entries_tree(es@) + versions_entry(v));
        },
    }
}

/// The auth entry, when auth is enabled.
pub open spec fn auth_entry(o: Option<CollectionAuth>) -> Seq<(Seq<char>, LuaTree)> {
    match o {
        Some(a) => entry_if(a.enabled, "auth"@, auth_tree(a)),
        None => Seq::empty(),
    }
}

/// The upload entry, when uploads are enabled.
pub open spec fn upload_entry(o: Option<CollectionUpload>) -> Seq<(Seq<char>, LuaTree)> {
    match o {
        Some(u) => entry_if(u.enabled, "upload"@, upload_tree(u)),
        None => Seq::empty(),
    }
}

/// The round-trip table of a collection: labels, timestamps, admin, fields, hooks and
/// access always; auth and upload when enabled; the live setting; versions when on.
pub open spec fn collection_config_tree(def: CollectionDefinition) -> LuaTree {
    LuaTree::Record(
        seq![("labels"@, labels_tree(def.labels))] + seq![("timestamps"@, LuaTree::Bool(def.timestamps))]
            + seq![("admin"@, LuaTree::Record(collection_admin_entries(def.admin)))]
            + seq![("fields"@, LuaTree::List(config_trees(def.fields@)))]
            + seq![("hooks"@, LuaTree::Record(collection_hooks_entries(def.hooks)))]
            + seq![("access"@, LuaTree::Record(collection_access_entries(def.access)))]
            + auth_entry(def.auth) + upload_entry(def.upload) + seq![("live"@, live_tree(def.live))]
            + versions_entry(def.versions),
    )
}

/// Build the round-trip table of a collection (see `collection_config_tree`).
pub fn collection_config_to_lua(def: &CollectionDefinition) -> (r: LuaValue)
    ensures
        tree_of(r) == collection_config_tree(*def),
{
    let mut es: Vec<(String, LuaValue)> = Vec::new();
    assert(entries_tree(es@) =~= Seq::empty());
    push_entry(&mut es, "labels", labels_table(&def.labels));
    push_entry(&mut es, "timestamps", LuaValue::Bool(def.timestamps));
    push_entry(&mut es, "admin", collection_admin_table(&def.admin));
    let fields = config_tables(&def.fields);
    proof {
        lemma_list_tree(fields);
    }
    push_entry(&mut es, "fields", LuaValue::List(fields));
    push_entry(&mut es, "hooks", collection_hooks_to_lua(&def.hooks));
    push_entry(&mut es, "access", collection_access_table(&def.access));
    assert(entries_tree(es@) =~= seq![("labels"@, labels_tree(def.labels))] + seq![
        ("timestamps"@, LuaTree::Bool(def.timestamps)),
    ] + seq![("admin"@, LuaTree::Record(collection_admin_entries(def.admin)))] + seq![
        ("fields"@, LuaTree::List(config_trees(def.fields@))),
    ] + seq![("hooks"@, LuaTree::Record(collection_hooks_entries(def.hooks)))] + seq![
        ("access"@, LuaTree::Record(collection_access_entries(def.access))),
    ]);
    match &def.auth {
        Some(a) => push_entry_if(&mut es, a.enabled, "auth", auth_value(a)),
        None => {
            assert(entries_tree(es@) =~= entries_tree(es@) + Seq::<(Seq<char>, LuaTree)>::empty());
        },
    }
    match &def.upload {
        Some(u) => push_entry_if(&mut es, u.enabled, "upload", upload_value(u)),
        None => {
            assert(entries_tree(es@) =~= entries_tree(es@) + Seq::<(Seq<char>, LuaTree)>::empty());
        },
    }
    push_entry(&mut es, "live", live_value(&def.live));
    push_versions(&mut es, def.versions);
    proof {
        lemma_record_tree(es);
    }
    LuaValue::Record(es)
}

/// The round-trip table of a global: labels, fields, hooks, access and the live setting.
pub open spec fn global_config_tree(def: GlobalDefinition) -> LuaTree {
    LuaTree::Record(
        seq![("labels"@, labels_tree(def.labels))] + seq![("fields"@, LuaTree::List(config_trees(def.fields@)))]
            + seq![("hooks"@, LuaTree::Record(collection_hooks_entries(def.hooks)))]
            + seq![("access"@, LuaTree::Record(collection_access_entries(def.access)))]
            + seq![("live"@, live_tree(def.live))],
    )
}

/// Build the round-trip table of a global (see `global_config_tree`).
pub fn global_config_to_lua(def: &GlobalDefinition) -> (r: LuaValue)
    ensures
        tree_of(r) == global_config_tree(*def),
{
    let mut es: Vec<(String, LuaValue)> = Vec::new();
    assert(entries_tree(es@) =~= Seq::empty());
    push_entry(&mut es, "labels", labels_table(&def.labels));
    let fields = config_tables(&def.fields);
    proof {
        lemma_list_tree(fields);
    }
    push_entry(&mut es, "fields", LuaValue::List(fields));
    push_entry(&mut es, "hooks", collection_hooks_to_lua(&def.hooks));
    push_entry(&mut es, "access", collection_access_table(&def.access));
    push_entry(&mut es, "live", live_value(&def.live));
    proof {
        lemma_record_tree(es);
        assert(entries_tree(es@) =~= global_config_tree(*def)->Record_0);
    }
    LuaValue::Record(es)
}

/// The introspection table of a collection: slug, labels in the default locale, the
/// timestamps flag, whether it has auth, uploads, versions and drafts, and its fields.
pub open spec fn collection_schema_tree(def: CollectionDefinition) -> LuaTree {
    LuaTree::Record(
        seq![
            ("slug"@, LuaTree::Str(def.slug@)),
            ("labels"@, schema_labels_tree(def.labels)),
            ("timestamps"@, LuaTree::Bool(def.timestamps)),
            ("has_auth"@, LuaTree::Bool(is_auth(def))),
            ("has_upload"@, LuaTree::Bool(is_upload(def))),
            ("has_versions"@, LuaTree::Bool(def.versions is Some)),
            ("has_drafts"@, LuaTree::Bool(drafts_on(def))),
            ("fields"@, LuaTree::List(schema_trees(def.fields@))),
        ],
    )
}

/// The introspection table of a collection gives its slug, its timestamps flag, whether
/// it is an enabled auth collection, whether it is an enabled upload collection, whether
/// it has versions and whether those versions have drafts, each under its own key.
pub proof fn lemma_collection_schema_entries(def: CollectionDefinition)
    ensures
        record_gives(collection_schema_tree(def), "slug"@, LuaTree::Str(def.slug@)),
        record_gives(collection_schema_tree(def), "timestamps"@, LuaTree::Bool(def.timestamps)),
        record_gives(
            collection_schema_tree(def),
            "has_auth"@,
            LuaTree::Bool(def.auth matches Some(a) && a.enabled),
        ),
        record_gives(
            collection_schema_tree(def),
            "has_upload"@,
            LuaTree::Bool(def.upload matches Some(u) && u.enabled),
        ),
        record_gives(collection_schema_tree(def), "has_versions"@, LuaTree::Bool(def.versions is Some)),
        record_gives(
            collection_schema_tree(def),
            "has_drafts"@,
            LuaTree::Bool(def.versions matches Some(v) && v.drafts),
        ),
{
    reveal_strlit("slug");
    reveal_strlit("labels");
    reveal_strlit("timestamps");
    reveal_strlit("has_auth");
    reveal_strlit("has_upload");
    reveal_strlit("has_versions");
    reveal_strlit("has_drafts");
    reveal_strlit("fields");
    let es = collection_schema_tree(def)->Record_0;
    let keys = seq![
        "slug"@,
        "labels"@,
        "timestamps"@,
        "has_auth"@,
        "has_upload"@,
        "has_versions"@,
        "has_drafts"@,
        "fields"@,
    ];
    assert(es.len() == 8);
    assert forall|i: int| 0 <= i < 8 implies (#[trigger] es[i]).0 == keys[i] by {}
    assert forall|x: int, y: int| 0 <= x < 8 && 0 <= y < 8 && x != y implies #[trigger] keys[x]
        != #[trigger] keys[y] by {
        assert(keys[0].len() == 4 && keys[1].len() == 6 && keys[2].len() == 10 && keys[3].len() == 8);
        assert(keys[4].len() == 10 && keys[5].len() == 12 && keys[6].len() == 10 && keys[7].len() == 6);
        if keys[x].len() == keys[y].len() {
            if keys[x][0] == keys[y][0] {
                assert(keys[x][4] != keys[y][4]);
            }
        }
    }
    assert(es[0] == ("slug"@, LuaTree::Str(def.slug@)));
    assert(es[2] == ("timestamps"@, LuaTree::Bool(def.timestamps)));
    assert(es[3] == ("has_auth"@, LuaTree::Bool(def.auth matches Some(a) && a.enabled)));
    assert(es[4] == ("has_upload"@, LuaTree::Bool(def.upload matches Some(u) && u.enabled)));
    assert(es[5] == ("has_versions"@, LuaTree::Bool(def.versions is Some)));
    assert(es[6] == ("has_drafts"@, LuaTree::Bool(def.versions matches Some(v) && v.drafts)));
}

/// Build the introspection table of a collection (see `collection_schema_tree`).
pub fn collection_def_to_lua_table(def: &CollectionDefinition) -> (r: LuaValue)
    ensures
        tree_of(r) == collection_schema_tree(*def),
{
    let mut es: Vec<(String, LuaValue)> = Vec::new();
    assert(entries_tree(es@) =~= Seq::empty());
    push_entry(&mut es, "slug", LuaValue::Str(def.slug.clone()));
    push_entry(&mut es, "labels", schema_labels_table(&def.labels));
    push_entry(&mut es, "timestamps", LuaValue::Bool(def.timestamps));
    push_entry(&mut es, "has_auth", LuaValue::Bool(def.is_auth_collection()));
    push_entry(&mut es, "has_upload", LuaValue::Bool(def.is_upload_collection()));
    push_entry(&mut es, "has_versions", LuaValue::Bool(def.has_versions()));
    push_entry(&mut es, "has_drafts", LuaValue::Bool(def.has_drafts()));
    let fields = schema_tables(&def.fields);
    proof {
        lemma_list_tree(fields);
    }
    push_entry(&mut es, "fields", LuaValue::List(fields));
    proof {
        lemma_record_tree(es);
        assert(entries_tree(es@) =~= collection_schema_tree(*def)->Record_0);
    }
    LuaValue::Record(es)
}

/// The labels of the introspection tables: each label that is set, in the default
/// locale.
pub open spec fn schema_labels_tree(l: CollectionLabels) -> LuaTree {
    LuaTree::Record(
        match l.singular {
            Some(s) => seq![("singular"@, LuaTree::Str(default_text(s)))],
            None => Seq::empty(),
        } + match l.plural {
            Some(p) => seq![("plural"@, LuaTree::Str(default_text(p)))],
            None => Seq::empty(),
        },
    )
}

fn schema_labels_table(l: &CollectionLabels) -> (r: LuaValue)
    ensures
        tree_of(r) == schema_labels_tree(*l),
{
    let mut labels: Vec<(String, LuaValue)> = Vec::new();
    assert(entries_tree(labels@) =~= Seq::empty());
    match &l.singular {
        Some(s) => push_entry(&mut labels, "singular", LuaValue::Str(s.resolve_default())),
        None => {
            assert(entries_tree(labels@) =~= entries_tree(labels@) + Seq::<(Seq<char>, LuaTree)>::empty());
        },
    }
    match &l.plural {
        Some(p) => push_entry(&mut labels, "plural", LuaValue::Str(p.resolve_default())),
        None => {
            assert(entries_tree(labels@) =~= entries_tree(labels@) + Seq::<(Seq<char>, LuaTree)>::empty());
        },
    }
    proof {
        lemma_record_tree(labels);
    }
    LuaValue::Record(labels)
}

/// The introspection table of a global: slug, labels in the default locale, and its
/// fields.
pub open spec fn global_schema_tree(def: GlobalDefinition) -> LuaTree {
    LuaTree::Record(
        seq![
            ("slug"@, LuaTree::Str(def.slug@)),
            ("labels"@, schema_labels_tree(def.labels)),
            ("fields"@, LuaTree::List(schema_trees(def.fields@))),
        ],
    )
}

/// Build the introspection table of a global (see `global_schema_tree`).
pub fn global_def_to_lua_table(def: &GlobalDefinition) -> (r: LuaValue)
    ensures
        tree_of(r) == global_schema_tree(*def),
{
    let mut es: Vec<(String, LuaValue)> = Vec::new();
    assert(entries_tree(es@) =~= Seq::empty());
    push_entry(&mut es, "slug", LuaValue::Str(def.slug.clone()));
    push_entry(&mut es, "labels", schema_labels_table(&def.labels));
    let fields = schema_tables(&def.fields);
    proof {
        lemma_list_tree(fields);
    }
    push_entry(&mut es, "fields", LuaValue::List(fields));
    proof {
        lemma_record_tree(es);
        assert(entries_tree(es@) =~= global_schema_tree(*def)->Record_0);
    }
    LuaValue::Record(es)
}

/// An item of the collection and global lists: the slug and the labels.
pub open spec fn schema_list_item_tree(slug: Seq<char>, labels: CollectionLabels) -> LuaTree {
    LuaTree::Record(seq![("slug"@, LuaTree::Str(slug)), ("labels"@, schema_labels_tree(labels))])
}

fn schema_list_item(slug: &String, labels: &CollectionLabels) -> (r: LuaValue)
    ensures
        tree_of(r) == schema_list_item_tree(slug@, *labels),
{
    let mut es: Vec<(String, LuaValue)> = Vec::new();
    assert(entries_tree(es@) =~= Seq::empty());
    push_entry(&mut es, "slug", LuaValue::Str(slug.clone()));
    push_entry(&mut es, "labels", schema_labels_table(labels));
    proof {
        lemma_record_tree(es);
        assert(entries_tree(es@) =~= schema_list_item_tree(slug@, *labels)->Record_0);
    }
    LuaValue::Record(es)
}

/// The list of collections for introspection: one item per collection, in the order
/// given.
pub fn collection_list_to_lua(defs: &Vec<CollectionDefinition>) -> (r: LuaValue)
    ensures
        tree_of(r) == LuaTree::List(
            Seq::new(defs.len() as nat, |i: int| schema_list_item_tree(defs@[i].slug@, defs@[i].labels)),
        ),
{
    let mut items: Vec<LuaValue> = Vec::new();
    let mut i: usize = 0;
    while i < defs.len()
        invariant
            i <= defs.len(),
            items.len() == i,
            forall|k: int| 0 <= k < i ==> tree_of(#[trigger] items@[k]) == schema_list_item_tree(
                defs@[k].slug@,
                defs@[k].labels,
            ),
        decreases defs.len() - i,
    {
        items.push(schema_list_item(&defs[i].slug, &defs[i].labels));
        i = i + 1;
    }
    proof {
        lemma_list_tree(items);
        assert(items_tree(items@) =~= Seq::new(
            defs.len() as nat,
            |i: int| schema_list_item_tree(defs@[i].slug@, defs@[i].labels),
        ));
    }
    LuaValue::List(items)
}

/// The list of globals for introspection: one item per global, in the order given.
pub fn global_list_to_lua(defs: &Vec<GlobalDefinition>) -> (r: LuaValue)
    ensures
        tree_of(r) == LuaTree::List(
            Seq::new(defs.len() as nat, |i: int| schema_list_item_tree(defs@[i].slug@, defs@[i].labels)),
        ),
{
    let mut items: Vec<LuaValue> = Vec::new();
    let mut i: usize = 0;
    while i < defs.len()
        invariant
            i <= defs.len(),
            items.len() == i,
            forall|k: int| 0 <= k < i ==> tree_of(#[trigger] items@[k]) == schema_list_item_tree(
                defs@[k].slug@,
                defs@[k].labels,
            ),
        decreases defs.len() - i,
    {
        items.push(schema_list_item(&defs[i].slug, &defs[i].labels));
        i = i + 1;
    }
    proof {
        lemma_list_tree(items);
        assert(items_tree(items@) =~= Seq::new(
            defs.len() as nat,
            |i: int| schema_list_item_tree(defs@[i].slug@, defs@[i].labels),
        ));
    }
    LuaValue::List(items)
}

} // verus!
