//! Decisions of the document lifecycle that the Lua API and the services make between
//! their database and hook calls: hook nesting, drafts, relationship depth, pagination,
//! access results and field-level access.

use vstd::prelude::*;
use vstd::string::*;
use crate::field::FieldDefinition;
use crate::scaffold::{decimal, u64_to_decimal};
use crate::text::{concat_str, str_eq};

verus! {

// ---------------------------------------------------------------------------
// Hooks, drafts, depth
// ---------------------------------------------------------------------------

/// Hook nesting depth assumed when none is recorded.
pub const DEFAULT_HOOK_DEPTH: u32 = 0;

/// Maximum hook nesting depth assumed when none is configured.
pub const DEFAULT_MAX_HOOK_DEPTH: u32 = 3;

/// Whether hooks run for a write made from inside hooks: they must be asked for and the
/// nesting depth (default 0) must be below the maximum (default 3). The second result
/// says that hooks were asked for but are skipped because the maximum was reached.
pub fn hook_gate(run_hooks: bool, current_depth: Option<u32>, max_depth: Option<u32>) -> (r: (bool, bool))
    ensures
        ({
            let cur = match current_depth {
                Some(d) => d,
                None => DEFAULT_HOOK_DEPTH,
            };
            let max = match max_depth {
                Some(d) => d,
                None => DEFAULT_MAX_HOOK_DEPTH,
            };
            r == (run_hooks && cur < max, run_hooks && cur >= max)
        }),
{
    let cur = match current_depth {
        Some(d) => d,
        None => DEFAULT_HOOK_DEPTH,
    };
    let max = match max_depth {
        Some(d) => d,
        None => DEFAULT_MAX_HOOK_DEPTH,
    };
    (run_hooks && cur < max, run_hooks && cur >= max)
}

/// A write is a draft when a draft is asked for and the collection has drafts.
pub fn is_draft_write(draft: Option<bool>, has_drafts: bool) -> (r: bool)
    ensures
        r == ((draft == Some(true)) && has_drafts),
{
    let d = match draft {
        Some(d) => d,
        None => false,
    };
    d && has_drafts
}

/// The relationship population depth asked for, 0 when none, clamped to 0..=10.
pub fn clamp_depth(depth: Option<i32>) -> (r: i32)
    ensures
        ({
            let d = match depth {
                Some(d) => d,
                None => 0,
            };
            r == if d < 0 {
                0
            } else if d > 10 {
                10
            } else {
                d
            }
        }),
        0 <= r <= 10,
{
    let d = match depth {
        Some(d) => d,
        None => 0,
    };
    if d < 0 {
        0
    } else if d > 10 {
        10
    } else {
        d
    }
}

// ---------------------------------------------------------------------------
// Pagination of `find`
// ---------------------------------------------------------------------------

/// The row offset of a requested page: `(max(page, 1) - 1) * limit`, the limit being the
/// query's or else the default.
pub fn page_to_offset(page: i64, limit: Option<i64>, default_limit: i64) -> (r: i64)
    requires
        ({
            let p: int = if page < 1 {
                1
            } else {
                page as int
            };
            let l: int = match limit {
                Some(l) => l as int,
                None => default_limit as int,
            };
            i64::MIN <= (p - 1) * l <= i64::MAX
        }),
    ensures
        ({
            let p: int = if page < 1 {
                1
            } else {
                page as int
            };
            let l: int = match limit {
                Some(l) => l as int,
                None => default_limit as int,
            };
            r == (p - 1) * l
        }),
{
    let p = if page < 1 {
        1
    } else {
        page
    };
    let l = match limit {
        Some(l) => l,
        None => default_limit,
    };
    (p - 1) * l
}

/// The pagination facts of an offset-paginated result.
#[derive(Debug, Clone, Copy, PartialEq, Eq, Structural)]
pub struct OffsetPagination {
    pub total_docs: i64,
    pub limit: i64,
    pub total_pages: i64,
    pub page: i64,
    pub page_start: i64,
    pub has_next_page: bool,
    pub has_prev_page: bool,
    pub prev_page: Option<i64>,
    pub next_page: Option<i64>,
}

/// Pages of `limit` documents that `total` documents fill (0 for a limit below 1).
pub open spec fn total_pages_of(total: int, limit: int) -> int {
    if limit > 0 {
        (total + limit - 1) / limit
    } else {
        0
    }
}

/// The page of a result: the requested one, else the one the offset falls on (1 for a
/// limit below 1); at least 1.
pub open spec fn page_at(requested: Option<i64>, offset: int, limit: int) -> int {
    let p: int = match requested {
        Some(p) => p as int,
        None => if limit > 0 {
            offset / limit + 1
        } else {
            1
        },
    };
    if p < 1 {
        1
    } else {
        p
    }
}

/// The pagination of a `find` result of `total` documents under a limit and offset
/// (defaults: the configured limit, offset 0), for a requested page if any.
pub fn offset_pagination(
    total: i64,
    limit: Option<i64>,
    default_limit: i64,
    offset: Option<i64>,
    requested_page: Option<i64>,
) -> (r: OffsetPagination)
    requires
        total >= 0,
        match offset {
            Some(o) => 0 <= o < i64::MAX,
            None => true,
        },
        ({
            let l = match limit {
                Some(l) => l,
                None => default_limit,
            };
            total + l - 1 <= i64::MAX
        }),
        match requested_page {
            Some(p) => p < i64::MAX,
            None => true,
        },
    ensures
        ({
            let l: int = match limit {
                Some(l) => l as int,
                None => default_limit as int,
            };
            let o: int = match offset {
                Some(o) => o as int,
                None => 0,
            };
            let tp = total_pages_of(total as int, l);
            let p = page_at(requested_page, o, l);
            &&& r.total_docs == total
            &&& r.limit == l
            &&& r.total_pages == tp
            &&& r.page == p
            &&& r.page_start == o + 1
            &&& r.has_next_page == (p < tp)
            &&& r.has_prev_page == (p > 1)
            &&& r.prev_page == if p > 1 {
                Some((p - 1) as i64)
            } else {
                None
            }
            &&& r.next_page == if p < tp {
                Some((p + 1) as i64)
            } else {
                None
            }
        }),
{
    let l = match limit {
        Some(l) => l,
        None => default_limit,
    };
    let o = match offset {
        Some(o) => o,
        None => 0,
    };
    let total_pages = if l > 0 {
        assert(0 <= total + l - 1);
        (total + (l - 1)) / l
    } else {
        0
    };
    let p = match requested_page {
        Some(p) => p,
        None => if l > 0 {
            o / l + 1
        } else {
            1
        },
    };
    let p = if p < 1 {
        1
    } else {
        p
    };
    proof {
        if l > 0 {
            assert(total_pages <= total + l - 1) by (nonlinear_arith)
                requires
                    l > 0,
                    total + l - 1 >= 0,
                    total_pages as int == (total + l - 1) as int / l as int,
            ;
        }
    }
    OffsetPagination {
        total_docs: total,
        limit: l,
        total_pages,
        page: p,
        page_start: o + 1,
        has_next_page: p < total_pages,
        has_prev_page: p > 1,
        prev_page: if p > 1 {
            Some(p - 1)
        } else {
            None
        },
        next_page: if p < total_pages {
            Some(p + 1)
        } else {
            None
        },
    }
}

/// The column and direction (`true` for descending) that cursors follow: the query's
/// order (a leading `-` for descending), else `created_at` descending for collections
/// with timestamps, else `id` ascending.
pub fn cursor_sort(order_by: Option<&str>, timestamps: bool) -> (r: (String, bool))
    ensures
        match order_by {
            Some(o) => if o@.len() > 0 && o@[0] == '-' {
                r.0@ == o@.skip(1) && r.1
            } else {
                r.0@ == o@ && !r.1
            },
            None => if timestamps {
                r.0@ == "created_at"@ && r.1
            } else {
                r.0@ == "id"@ && !r.1
            },
        },
{
    match order_by {
        Some(o) => {
            let cs = crate::text::chars_of(o);
            if cs.len() > 0 && cs[0] == '-' {
                let rest = crate::text::substring_of(&cs, 1, cs.len());
                assert(cs@.subrange(1, cs@.len() as int) =~= o@.skip(1));
                (rest, true)
            } else {
                (String::from_str(o), false)
            }
        },
        None => if timestamps {
            (String::from_str("created_at"), true)
        } else {
            (String::from_str("id"), false)
        },
    }
}

/// Whether a cursor-paginated page has a next and a previous page. A page fetched
/// backwards (before a cursor) always has a next page and has a previous one when it is
/// full; otherwise there is a next page when the page is full and a previous one when a
/// cursor was given.
pub fn cursor_page_flags(using_before: bool, using_after: bool, docs_len: usize, limit: i64) -> (r: (bool, bool))
    ensures
        ({
            let at_limit = docs_len as int >= limit as int && docs_len > 0;
            r == if using_before {
                (true, at_limit)
            } else {
                (at_limit, using_after)
            }
        }),
{
    let at_limit = (docs_len as i128) >= (limit as i128) && docs_len > 0;
    if using_before {
        (true, at_limit)
    } else {
        (at_limit, using_after || using_before)
    }
}

// ---------------------------------------------------------------------------
// Access
// ---------------------------------------------------------------------------

/// What an access function returned, by the kinds of Lua values it may return.
#[derive(Debug, Clone, Copy, PartialEq, Eq, Structural)]
pub enum AccessReturn {
    Boolean(bool),
    Nil,
    /// A table of filter constraints.
    Table,
    /// Any other value.
    Other,
}

/// The outcome of an access check.
#[derive(Debug, Clone, Copy, PartialEq, Eq, Structural)]
pub enum AccessKind {
    Allowed,
    Denied,
    /// Allowed, restricted by the filter constraints of the returned table.
    Constrained,
}

/// The outcome an access function's return value means: `true` allows, `false` and nil
/// deny, a table constrains, anything else denies. With no access function configured,
/// access is allowed.
pub fn access_kind(configured: bool, ret: AccessReturn) -> (r: AccessKind)
    ensures
        r == if !configured {
            AccessKind::Allowed
        } else {
            match ret {
                AccessReturn::Boolean(true) => AccessKind::Allowed,
                AccessReturn::Table => AccessKind::Constrained,
                _ => AccessKind::Denied,
            }
        },
{
    if !configured {
        return AccessKind::Allowed;
    }
    match ret {
        AccessReturn::Boolean(true) => AccessKind::Allowed,
        AccessReturn::Table => AccessKind::Constrained,
        _ => AccessKind::Denied,
    }
}

/// The access function that guards writing a field in an operation: its create
/// function for "create", its update function for "update", none otherwise.
pub fn field_write_access_ref(field: &FieldDefinition, operation: &str) -> (r: Option<String>)
    ensures
        ({
            let expected = if operation@ == "create"@ {
                field.access.create
            } else if operation@ == "update"@ {
                field.access.update
            } else {
                None
            };
            match r {
                Some(s) => expected matches Some(e) && s@ == e@,
                None => expected is None,
            }
        }),
{
    proof {
        reveal_strlit("create");
        reveal_strlit("update");
        assert("create"@[0] != "update"@[0]);
    }
    if str_eq(operation, "create") {
        match &field.access.create {
            Some(s) => Some(s.clone()),
            None => None,
        }
    } else if str_eq(operation, "update") {
        match &field.access.update {
            Some(s) => Some(s.clone()),
            None => None,
        }
    } else {
        None
    }
}

/// Whether a field-level check leaves the field out: a denial, or a check that failed
/// (`None`). Allowed and constrained results keep it.
pub open spec fn strips(outcome: Option<AccessKind>) -> bool {
    outcome is None || outcome == Some(AccessKind::Denied)
}

/// The fields that field-level access strips, in order: those with an access function
/// (`guarded`) whose check denied or failed. `outcomes[i]` is the check of field `i`
/// (none when it failed); it is not read for unguarded fields.
pub open spec fn stripped_fields(
    fields: Seq<FieldDefinition>,
    guarded: Seq<bool>,
    outcomes: Seq<Option<AccessKind>>,
) -> Seq<Seq<char>>
    decreases fields.len(),
{
    if fields.len() == 0 {
        Seq::empty()
    } else {
        let n = fields.len() - 1;
        let rest = stripped_fields(fields.drop_last(), guarded.take(n), outcomes.take(n));
        if guarded[n] && strips(outcomes[n]) {
            rest.push(fields[n].name@)
        } else {
            rest
        }
    }
}

/// The names of the fields that field-level access strips (see `stripped_fields`).
pub fn denied_field_names(
    fields: &[FieldDefinition],
    guarded: &[bool],
    outcomes: &[Option<AccessKind>],
) -> (r: Vec<String>)
    requires
        guarded@.len() == fields@.len(),
        outcomes@.len() == fields@.len(),
    ensures
        r@.map_values(|s: String| s@) == stripped_fields(fields@, guarded@, outcomes@),
{
    let mut r: Vec<String> = Vec::new();
    let mut i: usize = 0;
    assert(r@.map_values(|s: String| s@) =~= Seq::<Seq<char>>::empty());
    while i < fields.len()
        invariant
            i <= fields.len(),
            guarded@.len() == fields@.len(),
            outcomes@.len() == fields@.len(),
            r@.map_values(|s: String| s@) == stripped_fields(
                fields@.take(i as int),
                guarded@.take(i as int),
                outcomes@.take(i as int),
            ),
        decreases fields.len() - i,
    {
        assert(fields@.take(i + 1).drop_last() =~= fields@.take(i as int));
        assert(guarded@.take(i + 1).take(i as int) =~= guarded@.take(i as int));
        assert(outcomes@.take(i + 1).take(i as int) =~= outcomes@.take(i as int));
        let strip = guarded[i] && match outcomes[i] {
            None => true,
            Some(AccessKind::Denied) => true,
            Some(_) => false,
        };
        if strip {
            let ghost before = r@;
            r.push(fields[i].name.clone());
            assert(r@.map_values(|s: String| s@) =~= before.map_values(|s: String| s@).push(fields@[i as int].name@));
        }
        i = i + 1;
    }
    assert(fields@.take(fields.len() as int) =~= fields@);
    assert(guarded@.take(fields.len() as int) =~= guarded@);
    assert(outcomes@.take(fields.len() as int) =~= outcomes@);
    r
}

// ---------------------------------------------------------------------------
// Services
// ---------------------------------------------------------------------------

/// A password is stored only when one is given and it is not empty.
pub fn should_store_password(password: Option<&str>) -> (r: bool)
    ensures
        r == (password matches Some(p) && p@.len() > 0),
{
    match password {
        Some(p) => !p.is_empty(),
        None => false,
    }
}

/// The main table of a global.
pub fn global_table(slug: &str) -> (r: String)
    ensures
        r@ == "_global_"@ + slug@,
{
    concat_str("_global_", slug)
}

/// The link of an email-verification message.
pub fn verify_email_url(host: &str, admin_port: u16, token: &str) -> (r: String)
    ensures
        r@ == "http://"@ + host@ + ":"@ + decimal(admin_port as nat) + "/admin/verify-email?token="@ + token@,
{
    let a = concat_str("http://", host);
    let b = concat_str(a.as_str(), ":");
    let p = u64_to_decimal(admin_port as u64);
    let c = concat_str(b.as_str(), p.as_str());
    let d = concat_str(c.as_str(), "/admin/verify-email?token=");
    concat_str(d.as_str(), token)
}


/// A character of nanoid's URL-safe alphabet: ASCII letters, digits, `_` and `-`.
pub open spec fn url_safe_char(c: char) -> bool {
    ('a' <= c && c <= 'z') || ('A' <= c && c <= 'Z') || ('0' <= c && c <= '9') || c == '_' || c == '-'
}

/// A random id of `size` characters from nanoid's URL-safe alphabet.
///
/// Calls `nanoid::format` with nanoid's default random source and `alphabet::SAFE`.
/// Claimed: the id has `size` characters, each from that alphabet. Which characters
/// come out is left open (they are random). `format` loops until it has `size`
/// characters, so `size` must be positive; `8 * size` must not overflow.
#[verifier::external_body]
fn nanoid_safe(size: usize) -> (r: String)
    requires
        0 < size <= usize::MAX / 8,
    ensures
        r@.len() == size,
        forall|i: int| 0 <= i < size ==> url_safe_char(#[trigger] r@[i]),
{
    nanoid::format(nanoid::rngs::default, &nanoid::alphabet::SAFE, size)
}

/// A fresh email-verification token (32 URL-safe characters) and the link that carries it.
pub fn new_verification_link(host: &str, admin_port: u16) -> (r: (String, String))
    ensures
        r.0@.len() == 32,
        forall|i: int| 0 <= i < 32 ==> url_safe_char(#[trigger] r.0@[i]),
        r.1@ == "http://"@ + host@ + ":"@ + decimal(admin_port as nat) + "/admin/verify-email?token="@ + r.0@,
{
    let token = nanoid_safe(32);
    let url = verify_email_url(host, admin_port, token.as_str());
    (token, url)
}

/// A fresh id for a version row (21 URL-safe characters).
pub fn new_version_id() -> (r: String)
    ensures
        r@.len() == 21,
        forall|i: int| 0 <= i < 21 ==> url_safe_char(#[trigger] r@[i]),
{
    nanoid_safe(21)
}

// ---------------------------------------------------------------------------
// Reads from inside hooks
// ---------------------------------------------------------------------------

/// Whether a read from inside a hook sees published documents only: the collection
/// has drafts and the read did not ask for drafts (`draft` defaults to false).
pub fn published_only(has_drafts: bool, draft: Option<bool>) -> (r: bool)
    ensures
        r == (has_drafts && draft != Some(true)),
{
    let wants_drafts = match draft {
        Some(d) => d,
        None => false,
    };
    has_drafts && !wants_drafts
}

/// The filter that restricts a read to published documents: `_status` equals
/// `published`.
pub fn published_filter() -> (r: (String, String))
    ensures
        r.0@ == "_status"@,
        r.1@ == "published"@,
{
    (String::from_str("_status"), String::from_str("published"))
}

/// The cursors a find keeps: both as given in cursor mode, none otherwise.
pub fn kept_cursors(
    cursor_mode: bool,
    after: Option<String>,
    before: Option<String>,
) -> (r: (Option<String>, Option<String>))
    ensures
        cursor_mode ==> r == (after, before),
        !cursor_mode ==> r.0 is None && r.1 is None,
{
    if cursor_mode {
        (after, before)
    } else {
        (None, None)
    }
}

/// The operations whose access a hook's CRUD call checks.
#[derive(Debug, Clone, Copy, PartialEq, Eq, Structural)]
pub enum CrudOperation {
    Read,
    Create,
    Update,
    Delete,
}

/// The capitalised name of an operation, as access errors give it.
pub open spec fn operation_title(op: CrudOperation) -> Seq<char> {
    match op {
        CrudOperation::Read => "Read"@,
        CrudOperation::Create => "Create"@,
        CrudOperation::Update => "Update"@,
        CrudOperation::Delete => "Delete"@,
    }
}

/// The error of a CRUD call whose access check denied the operation, such as
/// "Read access denied".
pub fn access_denied_message(op: CrudOperation) -> (r: String)
    ensures
        r@ == operation_title(op) + " access denied"@,
{
    let name = match op {
        CrudOperation::Read => "Read",
        CrudOperation::Create => "Create",
        CrudOperation::Update => "Update",
        CrudOperation::Delete => "Delete",
    };
    concat_str(name, " access denied")
}

/// The error of a bulk update or delete whose access check denied one document:
/// "Update access denied for document <id>".
pub fn document_access_denied_message(op: CrudOperation, id: &str) -> (r: String)
    ensures
        r@ == operation_title(op) + " access denied"@ + " for document "@ + id@,
{
    let head = access_denied_message(op);
    let with_doc = concat_str(head.as_str(), " for document ");
    concat_str(with_doc.as_str(), id)
}

// ---------------------------------------------------------------------------
// Access tables and display conditions
// ---------------------------------------------------------------------------

/// A value of the table an access function returned, under one field name.
pub enum AccessValue {
    Text(String),
    Integer(i64),
    /// A float, by the text its formatting gives.
    Number(String),
    /// A table of operators, each with its operand.
    Operators,
    /// Any other value, which constrains nothing.
    Other,
}

/// A constraint that an access table puts on a read.
pub enum AccessClause {
    /// The field must equal the value.
    Equals { field: String, value: String },
    /// The field is constrained by each entry of its operator table.
    Operators { field: String },
}

/// The view of a constraint: the field, and the value it must equal (none for an
/// operator table).
pub open spec fn clause_view(c: AccessClause) -> (Seq<char>, Option<Seq<char>>) {
    match c {
        AccessClause::Equals { field, value } => (field@, Some(value@)),
        AccessClause::Operators { field } => (field@, None),
    }
}

/// The constraint one entry of an access table gives, if any: strings and numbers
/// give equality on their text, an operator table gives its operators, anything else
/// nothing.
pub open spec fn entry_clause(field: Seq<char>, v: AccessValue) -> Option<(Seq<char>, Option<Seq<char>>)> {
    match v {
        AccessValue::Text(s) => Some((field, Some(s@))),
        AccessValue::Integer(i) => Some((field, Some(crate::versions::signed_decimal(i as int)))),
        AccessValue::Number(t) => Some((field, Some(t@))),
        AccessValue::Operators => Some((field, None)),
        AccessValue::Other => None,
    }
}

/// The constraints of the entries of an access table, in the order of the entries.
pub open spec fn access_clauses(es: Seq<(String, AccessValue)>) -> Seq<(Seq<char>, Option<Seq<char>>)>
    decreases es.len(),
{
    if es.len() == 0 {
        Seq::empty()
    } else {
        let prev = access_clauses(es.drop_last());
        match entry_clause(es.last().0@, es.last().1) {
            Some(c) => prev.push(c),
            None => prev,
        }
    }
}

/// The constraints that a table returned by an access function puts on a read.
pub fn access_table_clauses(entries: &Vec<(String, AccessValue)>) -> (r: Vec<AccessClause>)
    ensures
        r@.map_values(|c: AccessClause| clause_view(c)) == access_clauses(entries@),
{
    let mut r: Vec<AccessClause> = Vec::new();
    let mut i: usize = 0;
    while i < entries.len()
        invariant
            i <= entries.len(),
            r@.map_values(|c: AccessClause| clause_view(c)) == access_clauses(entries@.take(i as int)),
        decreases entries.len() - i,
    {
        assert(entries@.take(i + 1).drop_last() =~= entries@.take(i as int));
        let field = entries[i].0.clone();
        let c = match &entries[i].1 {
            AccessValue::Text(s) => Some(AccessClause::Equals { field, value: s.clone() }),
            AccessValue::Integer(n) => Some(
                AccessClause::Equals { field, value: crate::versions::i64_to_decimal(*n) },
            ),
            AccessValue::Number(t) => Some(AccessClause::Equals { field, value: t.clone() }),
            AccessValue::Operators => Some(AccessClause::Operators { field }),
            AccessValue::Other => None,
        };
        match c {
            Some(c) => {
                r.push(c);
            },
            None => {},
        }
        i = i + 1;
    }
    assert(entries@.take(entries.len() as int) =~= entries@);
    r
}

/// What a display-condition function returned: a boolean, or a table with a
/// `visible` flag. None when the call failed.
#[derive(Debug, Clone, Copy, PartialEq, Eq, Structural)]
pub enum DisplayOutcome {
    Bool(bool),
    Table { visible: bool },
}

/// Whether a field with a server-side display condition is shown: as the condition
/// says, and shown when the condition could not be evaluated.
pub fn display_visible(outcome: Option<DisplayOutcome>) -> (r: bool)
    ensures
        r == match outcome {
            Some(DisplayOutcome::Bool(b)) => b,
            Some(DisplayOutcome::Table { visible }) => visible,
            None => true,
        },
{
    match outcome {
        Some(DisplayOutcome::Bool(b)) => b,
        Some(DisplayOutcome::Table { visible }) => visible,
        None => true,
    }
}

} // verus!
