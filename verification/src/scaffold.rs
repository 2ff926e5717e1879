//! `make` scaffolding: validation of the inputs and the Lua source that each generated
//! file holds. Writing the files is left to the caller.

use vstd::prelude::*;
use vstd::string::*;
use std::path::PathBuf;
use crate::text::{
    all_ascii, ascii_lower, char_alnum, char_is_alphanumeric, chars_of, str_lower,
    str_to_lowercase, title_case, to_title_case,
};

verus! {

#[verifier::external_type_specification]
#[verifier::external_body]
pub struct ExPathBuf(PathBuf);

// ---------------------------------------------------------------------------
// Decimal rendering
// ---------------------------------------------------------------------------

/// The decimal digits of `n`, without sign or leading zeros ("0" for zero).
pub open spec fn decimal(n: nat) -> Seq<char>
    decreases n,
{
    if n < 10 {
        seq![((n as u32) + 48) as char]
    } else {
        decimal(n / 10).push((((n % 10) as u32) + 48) as char)
    }
}

/// Decimal rendering of an unsigned integer.
pub fn u64_to_decimal(n: u64) -> (r: String)
    ensures
        r@ == decimal(n as nat),
    decreases n,
{
    let digit = ((n % 10) as u32 + 48) as u8 as char;
    if n < 10 {
        let mut r = String::new();
        crate::text::push_char(&mut r, digit);
        r
    } else {
        let mut r = u64_to_decimal(n / 10);
        crate::text::push_char(&mut r, digit);
        r
    }
}

// ---------------------------------------------------------------------------
// Slug and name validation
// ---------------------------------------------------------------------------

/// A valid slug: non-empty, made of lower-case ASCII letters, digits and `_`.
pub open spec fn valid_slug(s: Seq<char>) -> bool {
    s.len() > 0 && forall|i: int|
        0 <= i < s.len() ==> {
            let c = #[trigger] s[i];
            ('a' <= c && c <= 'z') || ('0' <= c && c <= '9') || c == '_'
        }
}

/// A valid hook name: non-empty, made of alphanumeric characters and `_`.
pub open spec fn valid_hook_name(s: Seq<char>) -> bool {
    s.len() > 0 && forall|i: int| 0 <= i < s.len() ==> char_alnum(#[trigger] s[i]) || s[i] == '_'
}

/// Errors of the `make` commands.
#[derive(Debug, Clone, PartialEq, Eq)]
pub enum ScaffoldError {
    /// The slug is empty or holds characters other than `a-z`, `0-9`, `_`.
    InvalidSlug(String),
    /// The hook name is empty or holds characters other than alphanumerics and `_`.
    InvalidHookName(String),
    /// The position is not a lifecycle position of the hook type.
    InvalidPosition(String, HookType),
    /// A field hook was asked for without a field name.
    MissingField,
    /// The target file exists and overwriting was not asked for.
    FileExists(String),
}

/// Check that `slug` is a valid slug.
pub fn validate_slug(slug: &str) -> (r: Result<(), ScaffoldError>)
    ensures
        r is Ok <==> valid_slug(slug@),
        r matches Err(e) ==> e == ScaffoldError::InvalidSlug(e->InvalidSlug_0) && e->InvalidSlug_0@
            == slug@,
{
    let cs = chars_of(slug);
    if cs.len() == 0 {
        return Err(ScaffoldError::InvalidSlug(String::from_str(slug)));
    }
    let mut i: usize = 0;
    while i < cs.len()
        invariant
            cs@ == slug@,
            i <= cs.len(),
            forall|j: int|
                0 <= j < i ==> {
                    let c = #[trigger] cs@[j];
                    ('a' <= c && c <= 'z') || ('0' <= c && c <= '9') || c == '_'
                },
        decreases cs.len() - i,
    {
        let c = cs[i];
        if !(('a' <= c && c <= 'z') || ('0' <= c && c <= '9') || c == '_') {
            return Err(ScaffoldError::InvalidSlug(String::from_str(slug)));
        }
        i = i + 1;
    }
    Ok(())
}

/// Check that `name` is a valid hook name.
pub fn is_valid_hook_name(name: &str) -> (r: bool)
    ensures
        r == valid_hook_name(name@),
{
    let cs = chars_of(name);
    if cs.len() == 0 {
        return false;
    }
    let mut i: usize = 0;
    while i < cs.len()
        invariant
            cs@ == name@,
            i <= cs.len(),
            forall|j: int| 0 <= j < i ==> char_alnum(#[trigger] cs@[j]) || cs@[j] == '_',
        decreases cs.len() - i,
    {
        let c = cs[i];
        if !(char_is_alphanumeric(c) || c == '_') {
            return false;
        }
        i = i + 1;
    }
    true
}

// ---------------------------------------------------------------------------
// Hook types
// ---------------------------------------------------------------------------

/// Hook type for the `make hook` command.
#[derive(Debug, Clone, Copy, PartialEq, Eq, Structural)]
pub enum HookType {
    Collection,
    Field,
    Access,
}

/// The hook type named by an already lower-cased string.
pub open spec fn hook_type_named(s: Seq<char>) -> Option<HookType> {
    if s == "collection"@ {
        Some(HookType::Collection)
    } else if s == "field"@ {
        Some(HookType::Field)
    } else if s == "access"@ {
        Some(HookType::Access)
    } else {
        None
    }
}

/// The lifecycle positions that each hook type accepts.
pub open spec fn hook_positions(t: HookType) -> Seq<Seq<char>> {
    match t {
        HookType::Collection => seq![
            "before_validate"@,
            "before_change"@,
            "after_change"@,
            "before_read"@,
            "after_read"@,
            "before_delete"@,
            "after_delete"@,
            "before_broadcast"@,
        ],
        HookType::Field => seq![
            "before_validate"@,
            "before_change"@,
            "after_change"@,
            "after_read"@,
        ],
        HookType::Access => seq!["read"@, "create"@, "update"@, "delete"@],
    }
}

/// The label of each hook type.
pub open spec fn hook_label(t: HookType) -> Seq<char> {
    match t {
        HookType::Collection => "collection"@,
        HookType::Field => "field"@,
        HookType::Access => "access"@,
    }
}

impl HookType {
    /// Parse from string (CLI input), case-insensitively.
    pub fn from_str(s: &str) -> (r: Option<HookType>)
        ensures
            r == hook_type_named(str_lower(s@)),
    {
        let lower = str_to_lowercase(s);
        HookType::from_lowercase(lower.as_str())
    }

    /// The hook type named by an already lower-cased string.
    pub fn from_lowercase(s: &str) -> (r: Option<HookType>)
        ensures
            r == hook_type_named(s@),
    {
        if crate::text::str_eq(s, "collection") {
            Some(HookType::Collection)
        } else if crate::text::str_eq(s, "field") {
            Some(HookType::Field)
        } else if crate::text::str_eq(s, "access") {
            Some(HookType::Access)
        } else {
            None
        }
    }

    /// Valid lifecycle positions for this hook type.
    pub fn valid_positions(&self) -> (r: Vec<&'static str>)
        ensures
            r@.map_values(|p: &str| p@) == hook_positions(*self),
    {
        let v: Vec<&'static str> = match self {
            HookType::Collection => vec![
                "before_validate",
                "before_change",
                "after_change",
                "before_read",
                "after_read",
                "before_delete",
                "after_delete",
                "before_broadcast",
            ],
            HookType::Field => vec!["before_validate", "before_change", "after_change", "after_read"],
            HookType::Access => vec!["read", "create", "update", "delete"],
        };
        assert(v@.map_values(|p: &str| p@) =~= hook_positions(*self));
        v
    }

    /// Human-readable label.
    pub fn label(&self) -> (r: &'static str)
        ensures
            r@ == hook_label(*self),
    {
        match self {
            HookType::Collection => "collection",
            HookType::Field => "field",
            HookType::Access => "access",
        }
    }
}

/// Options for `make hook`. Fully resolved — no prompts.
pub struct MakeHookOptions<'a> {
    pub config_dir: &'a PathBuf,
    pub name: &'a str,
    pub hook_type: HookType,
    pub collection: &'a str,
    pub position: &'a str,
    pub field: Option<&'a str>,
    pub force: bool,
}

/// The first failing check of `make hook`, in the order the command checks them.
pub open spec fn hook_options_error(
    name: Seq<char>,
    hook_type: HookType,
    collection: Seq<char>,
    position: Seq<char>,
    has_field: bool,
) -> Option<ScaffoldError> {
    if !valid_slug(collection) {
        Some(ScaffoldError::InvalidSlug(arbitrary()))
    } else if !valid_hook_name(name) {
        Some(ScaffoldError::InvalidHookName(arbitrary()))
    } else if !hook_positions(hook_type).contains(position) {
        Some(ScaffoldError::InvalidPosition(arbitrary(), hook_type))
    } else if hook_type == HookType::Field && !has_field {
        Some(ScaffoldError::MissingField)
    } else {
        None
    }
}

/// Same variant, ignoring the carried strings.
pub open spec fn same_error_kind(a: ScaffoldError, b: ScaffoldError) -> bool {
    match (a, b) {
        (ScaffoldError::InvalidSlug(_), ScaffoldError::InvalidSlug(_)) => true,
        (ScaffoldError::InvalidHookName(_), ScaffoldError::InvalidHookName(_)) => true,
        (ScaffoldError::InvalidPosition(_, t1), ScaffoldError::InvalidPosition(_, t2)) => t1 == t2,
        (ScaffoldError::MissingField, ScaffoldError::MissingField) => true,
        (ScaffoldError::FileExists(_), ScaffoldError::FileExists(_)) => true,
        _ => false,
    }
}

/// Is `p` one of `positions`?
fn contains_str(positions: &Vec<&'static str>, p: &str) -> (r: bool)
    ensures
        r == positions@.map_values(|x: &str| x@).contains(p@),
{
    let ghost views = positions@.map_values(|x: &str| x@);
    let mut i: usize = 0;
    while i < positions.len()
        invariant
            i <= positions.len(),
            views == positions@.map_values(|x: &str| x@),
            forall|j: int| 0 <= j < i ==> views[j] != p@,
        decreases positions.len() - i,
    {
        if crate::text::str_eq(positions[i], p) {
            assert(views[i as int] == p@);
            return true;
        }
        i = i + 1;
    }
    false
}

/// Validate the inputs of `make hook`: slug, name, position, field.
pub fn validate_hook_options(opts: &MakeHookOptions) -> (r: Result<(), ScaffoldError>)
    ensures
        match hook_options_error(
            opts.name@,
            opts.hook_type,
            opts.collection@,
            opts.position@,
            opts.field is Some,
        ) {
            None => r is Ok,
            Some(e) => r matches Err(got) && same_error_kind(got, e),
        },
        r matches Err(ScaffoldError::InvalidSlug(s)) ==> s@ == opts.collection@,
        r matches Err(ScaffoldError::InvalidHookName(s)) ==> s@ == opts.name@,
        r matches Err(ScaffoldError::InvalidPosition(s, _)) ==> s@ == opts.position@,
{
    validate_slug(opts.collection)?;
    if !is_valid_hook_name(opts.name) {
        return Err(ScaffoldError::InvalidHookName(String::from_str(opts.name)));
    }
    let positions = opts.hook_type.valid_positions();
    if !contains_str(&positions, opts.position) {
        return Err(ScaffoldError::InvalidPosition(String::from_str(opts.position), opts.hook_type));
    }
    if opts.hook_type == HookType::Field && opts.field.is_none() {
        return Err(ScaffoldError::MissingField);
    }
    Ok(())
}

/// The names of `names`, joined with ", ".
pub open spec fn join_comma(names: Seq<Seq<char>>) -> Seq<char>
    decreases names.len(),
{
    if names.len() == 0 {
        Seq::empty()
    } else if names.len() == 1 {
        names[0]
    } else {
        join_comma(names.drop_last()) + ", "@ + names.last()
    }
}

fn join_positions(v: &Vec<&'static str>) -> (r: String)
    ensures
        r@ == join_comma(v@.map_values(|x: &str| x@)),
{
    let ghost views = v@.map_values(|x: &str| x@);
    let mut r = String::new();
    let mut i: usize = 0;
    while i < v.len()
        invariant
            i <= v.len(),
            views == v@.map_values(|x: &str| x@),
            r@ == join_comma(views.take(i as int)),
        decreases v.len() - i,
    {
        assert(views.take(i + 1).drop_last() =~= views.take(i as int));
        if i > 0 {
            r.append(", ");
        }
        r.append(v[i]);
        i = i + 1;
    }
    assert(views.take(v.len() as int) =~= views);
    r
}

/// The text of an error, as the command prints it.
pub open spec fn error_message(e: ScaffoldError) -> Seq<char> {
    match e {
        ScaffoldError::InvalidSlug(s) => "Invalid slug '"@ + s@
            + "' — use lowercase letters, digits and underscores only"@,
        ScaffoldError::InvalidHookName(s) => "Invalid hook name '"@ + s@
            + "' — use alphanumeric characters and underscores only"@,
        ScaffoldError::InvalidPosition(p, t) => "Invalid position '"@ + p@ + "' for "@ + hook_label(
            t,
        ) + " hook — valid: "@ + join_comma(hook_positions(t)),
        ScaffoldError::MissingField => "Field hooks require --field to be specified"@,
        ScaffoldError::FileExists(path) => "File '"@ + path@ + "' already exists — use --force to overwrite"@,
    }
}

impl ScaffoldError {
    /// The text of the error.
    pub fn message(&self) -> (r: String)
        ensures
            r@ == error_message(*self),
    {
        match self {
            ScaffoldError::InvalidSlug(s) => {
                let mut r = String::from_str("Invalid slug '");
                r.append(s.as_str());
                r.append("' — use lowercase letters, digits and underscores only");
                r
            },
            ScaffoldError::InvalidHookName(s) => {
                let mut r = String::from_str("Invalid hook name '");
                r.append(s.as_str());
                r.append("' — use alphanumeric characters and underscores only");
                r
            },
            ScaffoldError::InvalidPosition(p, t) => {
                let mut r = String::from_str("Invalid position '");
                r.append(p.as_str());
                r.append("' for ");
                r.append(t.label());
                r.append(" hook — valid: ");
                let positions = t.valid_positions();
                let joined = join_positions(&positions);
                r.append(joined.as_str());
                r
            },
            ScaffoldError::MissingField => String::from_str(
                "Field hooks require --field to be specified",
            ),
            ScaffoldError::FileExists(path) => {
                let mut r = String::from_str("File '");
                r.append(path.as_str());
                r.append("' already exists — use --force to overwrite");
                r
            },
        }
    }
}

/// Whether writing a generated file must be refused: it exists and `--force` was not given.
pub fn refuse_overwrite(exists: bool, force: bool) -> (r: bool)
    ensures
        r == (exists && !force),
{
    exists && !force
}

// ---------------------------------------------------------------------------
// Generated Lua sources
// ---------------------------------------------------------------------------

/// The Lua source of a new hook file.
pub open spec fn hook_lua(
    t: HookType,
    position: Seq<char>,
    collection: Seq<char>,
    field: Seq<char>,
) -> Seq<char> {
    match t {
        HookType::Collection => "--- "@ + position + " hook for "@ + collection
            + ".\n---@param context crap.HookContext\n---@return crap.HookContext\nreturn function(context)\n    -- TODO: implement\n    return context\nend\n"@,
        HookType::Field => "--- "@ + position + " field hook for "@ + collection + "."@ + field
            + ".\n---@param value any\n---@param context crap.FieldHookContext\n---@return any\nreturn function(value, context)\n    -- TODO: implement\n    return value\nend\n"@,
        HookType::Access => "--- "@ + position + " access control for "@ + collection
            + ".\n---@param context crap.AccessContext\n---@return boolean | table\nreturn function(context)\n    -- TODO: implement\n    return true\nend\n"@,
    }
}

/// The field name shown in a field hook's header ("?" when none was given).
pub open spec fn hook_field_shown(field: Option<&str>) -> Seq<char> {
    match field {
        Some(f) => f@,
        None => "?"@,
    }
}

/// Render the Lua source of a hook file.
pub fn render_hook_lua(opts: &MakeHookOptions) -> (r: String)
    ensures
        r@ == hook_lua(opts.hook_type, opts.position@, opts.collection@, hook_field_shown(opts.field)),
{
    let mut r = String::from_str("--- ");
    r.append(opts.position);
    match opts.hook_type {
        HookType::Collection => {
            r.append(" hook for ");
            r.append(opts.collection);
            r.append(
                ".\n---@param context crap.HookContext\n---@return crap.HookContext\nreturn function(context)\n    -- TODO: implement\n    return context\nend\n",
            );
        },
        HookType::Field => {
            r.append(" field hook for ");
            r.append(opts.collection);
            r.append(".");
            match opts.field {
                Some(f) => r.append(f),
                None => r.append("?"),
            }
            r.append(
                ".\n---@param value any\n---@param context crap.FieldHookContext\n---@return any\nreturn function(value, context)\n    -- TODO: implement\n    return value\nend\n",
            );
        },
        HookType::Access => {
            r.append(" access control for ");
            r.append(opts.collection);
            r.append(
                ".\n---@param context crap.AccessContext\n---@return boolean | table\nreturn function(context)\n    -- TODO: implement\n    return true\nend\n",
            );
        },
    }
    r
}

/// The path of a hook file, relative to the config directory.
pub fn hook_file_path(collection: &str, name: &str) -> (r: String)
    ensures
        r@ == "hooks/"@ + collection@ + "/"@ + name@ + ".lua"@,
{
    let mut r = String::from_str("hooks/");
    r.append(collection);
    r.append("/");
    r.append(name);
    r.append(".lua");
    r
}

/// The hook reference that definitions use to name a hook file.
pub fn hook_ref(collection: &str, name: &str) -> (r: String)
    ensures
        r@ == "hooks."@ + collection@ + "."@ + name@,
{
    let mut r = String::from_str("hooks.");
    r.append(collection);
    r.append(".");
    r.append(name);
    r
}

/// The lines that tell the user how to register a new hook.
pub open spec fn hook_usage(t: HookType, position: Seq<char>, hook_ref: Seq<char>) -> Seq<Seq<char>> {
    match t {
        HookType::Collection => seq![
            "Add to your collection definition:"@,
            "  hooks = {"@,
            "      "@ + position + " = { \""@ + hook_ref + "\" },"@,
            "  },"@,
        ],
        HookType::Field => seq![
            "Add to your field definition:"@,
            "  hooks = {"@,
            "      "@ + position + " = { \""@ + hook_ref + "\" },"@,
            "  },"@,
        ],
        HookType::Access => seq![
            "Add to your collection definition:"@,
            "  access = {"@,
            "      "@ + position + " = \""@ + hook_ref + "\","@,
            "  },"@,
        ],
    }
}

/// Render the registration instructions printed after a hook file is created.
pub fn hook_usage_lines(t: HookType, position: &str, hook_ref: &str) -> (r: Vec<String>)
    ensures
        r@.map_values(|s: String| s@) == hook_usage(t, position@, hook_ref@),
{
    let mut line = String::from_str("      ");
    line.append(position);
    let (head, opener) = match t {
        HookType::Collection => {
            line.append(" = { \"");
            line.append(hook_ref);
            line.append("\" },");
            ("Add to your collection definition:", "  hooks = {")
        },
        HookType::Field => {
            line.append(" = { \"");
            line.append(hook_ref);
            line.append("\" },");
            ("Add to your field definition:", "  hooks = {")
        },
        HookType::Access => {
            line.append(" = \"");
            line.append(hook_ref);
            line.append("\",");
            ("Add to your collection definition:", "  access = {")
        },
    };
    let r = vec![String::from_str(head), String::from_str(opener), line, String::from_str("  },")];
    assert(r@.map_values(|s: String| s@) =~= hook_usage(t, position@, hook_ref@));
    r
}

/// The Lua source of a new global definition file.
pub open spec fn global_lua(slug: Seq<char>) -> Seq<char> {
    "crap.globals.define(\""@ + slug + "\", {\n    labels = {\n        singular = \""@ + title_case(slug)
        + "\",\n    },\n    fields = {\n        {\n            name = \"title\",\n            type = \"text\",\n            required = true,\n        },\n    },\n})\n"@
}

/// Render the Lua source of a global definition file.
pub fn render_global_lua(slug: &str) -> (r: String)
    ensures
        r@ == global_lua(slug@),
{
    let label = to_title_case(slug);
    let mut r = String::from_str("crap.globals.define(\"");
    r.append(slug);
    r.append("\", {\n    labels = {\n        singular = \"");
    r.append(label.as_str());
    r.append(
        "\",\n    },\n    fields = {\n        {\n            name = \"title\",\n            type = \"text\",\n            required = true,\n        },\n    },\n})\n",
    );
    r
}

/// The configuration lines of a new job definition, in order: the handler, then the
/// schedule if given, the queue unless it is "default", the retries if above zero, the
/// timeout unless it is 60, and the labels.
pub open spec fn job_config(
    slug: Seq<char>,
    schedule: Option<Seq<char>>,
    queue: Option<Seq<char>>,
    retries: Option<u32>,
    timeout: Option<u64>,
) -> Seq<Seq<char>> {
    let handler = seq!["    handler = \"jobs."@ + slug + ".run\","@];
    let sched = match schedule {
        Some(s) => seq!["    schedule = \""@ + s + "\","@],
        None => Seq::empty(),
    };
    let q = match queue {
        Some(q) => if q != "default"@ {
            seq!["    queue = \""@ + q + "\","@]
        } else {
            Seq::empty()
        },
        None => Seq::empty(),
    };
    let r = match retries {
        Some(r) => if r > 0 {
            seq!["    retries = "@ + decimal(r as nat) + ","@]
        } else {
            Seq::empty()
        },
        None => Seq::empty(),
    };
    let t = match timeout {
        Some(t) => if t != 60 {
            seq!["    timeout = "@ + decimal(t as nat) + ","@]
        } else {
            Seq::empty()
        },
        None => Seq::empty(),
    };
    handler + sched + q + r + t + seq!["    labels = { singular = \""@ + title_case(slug) + "\" },"@]
}

/// The view of an optional string.
pub open spec fn opt_view(o: Option<&str>) -> Option<Seq<char>> {
    match o {
        Some(s) => Some(s@),
        None => None,
    }
}

/// Build the configuration lines of a job definition.
pub fn job_config_lines(
    slug: &str,
    schedule: Option<&str>,
    queue: Option<&str>,
    retries: Option<u32>,
    timeout: Option<u64>,
) -> (r: Vec<String>)
    ensures
        r@.map_values(|s: String| s@) == job_config(
            slug@,
            opt_view(schedule),
            opt_view(queue),
            retries,
            timeout,
        ),
{
    let ghost expected = job_config(slug@, opt_view(schedule), opt_view(queue), retries, timeout);
    let mut lines: Vec<String> = Vec::new();
    let mut handler = String::from_str("    handler = \"jobs.");
    handler.append(slug);
    handler.append(".run\",");
    lines.push(handler);
    if let Some(s) = schedule {
        let mut l = String::from_str("    schedule = \"");
        l.append(s);
        l.append("\",");
        lines.push(l);
    }
    if let Some(q) = queue {
        if !crate::text::str_eq(q, "default") {
            let mut l = String::from_str("    queue = \"");
            l.append(q);
            l.append("\",");
            lines.push(l);
        }
    }
    if let Some(n) = retries {
        if n > 0 {
            let mut l = String::from_str("    retries = ");
            let d = u64_to_decimal(n as u64);
            l.append(d.as_str());
            l.append(",");
            lines.push(l);
        }
    }
    if let Some(t) = timeout {
        if t != 60 {
            let mut l = String::from_str("    timeout = ");
            let d = u64_to_decimal(t);
            l.append(d.as_str());
            l.append(",");
            lines.push(l);
        }
    }
    let label = to_title_case(slug);
    let mut l = String::from_str("    labels = { singular = \"");
    l.append(label.as_str());
    l.append("\" },");
    lines.push(l);
    assert(lines@.map_values(|s: String| s@) =~= expected);
    lines
}

/// The file name of a new migration: `<timestamp>_<name>.lua`.
pub fn migration_file_name(timestamp: &str, name: &str) -> (r: String)
    ensures
        r@ == timestamp@ + "_"@ + name@ + ".lua"@,
{
    let mut r = String::from_str(timestamp);
    r.append("_");
    r.append(name);
    r.append(".lua");
    r
}


// ---------------------------------------------------------------------------
// Planning the `make` commands
// ---------------------------------------------------------------------------

/// `part` occurs in `s`.
pub open spec fn contains_text(s: Seq<char>, part: Seq<char>) -> bool {
    exists|i: int| 0 <= i && i + part.len() <= s.len() && #[trigger] s.subrange(i, i + part.len()) == part
}

/// Scaffolding a hook for a collection with a valid slug is refused when the hook name is
/// empty or holds a character other than a letter, a digit or `_`, when the position is
/// not one of the hook type's, or when a field hook names no field. With a good name, a
/// bad position is refused with an error whose text holds "Invalid position", and a field
/// hook without a field with one whose text holds "--field". A hook file that exists is
/// refused, unless forced, with an error whose text holds "--force".
pub proof fn lemma_hook_refusals(
    name: Seq<char>,
    hook_type: HookType,
    collection: Seq<char>,
    position: Seq<char>,
    has_field: bool,
)
    requires
        valid_slug(collection),
    ensures
        (!valid_hook_name(name) || !hook_positions(hook_type).contains(position) || (hook_type
            == HookType::Field && !has_field)) ==> hook_options_error(
            name,
            hook_type,
            collection,
            position,
            has_field,
        ) is Some,
        valid_hook_name(name) && !hook_positions(hook_type).contains(position) ==> (hook_options_error(
            name,
            hook_type,
            collection,
            position,
            has_field,
        ) matches Some(e) && forall|got: ScaffoldError|
            same_error_kind(got, e) ==> contains_text(error_message(got), "Invalid position"@)),
        valid_hook_name(name) && hook_positions(hook_type).contains(position) && hook_type
            == HookType::Field && !has_field ==> (hook_options_error(
            name,
            hook_type,
            collection,
            position,
            has_field,
        ) matches Some(e) && forall|got: ScaffoldError|
            same_error_kind(got, e) ==> contains_text(error_message(got), "--field"@)),
        forall|p: String| contains_text(error_message(ScaffoldError::FileExists(p)), "--force"@),
{
    reveal_strlit("Invalid position");
    reveal_strlit("Invalid position '");
    reveal_strlit("--field");
    reveal_strlit("Field hooks require --field to be specified");
    reveal_strlit("--force");
    reveal_strlit("File '");
    reveal_strlit("' already exists — use --force to overwrite");
    assert forall|got: ScaffoldError| (got is InvalidPosition) implies contains_text(
        error_message(got),
        "Invalid position"@,
    ) by {
        let m = error_message(got);
        let part = "Invalid position"@;
        assert(m.subrange(0, 0int + part.len()) =~= part);
    }
    let mf = error_message(ScaffoldError::MissingField);
    let fpart = "--field"@;
    assert(mf.subrange(20, 20int + fpart.len()) =~= fpart);
    assert(contains_text(mf, fpart));
    assert forall|p: String| contains_text(error_message(ScaffoldError::FileExists(p)), "--force"@) by {
        let m = error_message(ScaffoldError::FileExists(p));
        let i: int = 6 + p@.len() as int + 23;
        let part = "--force"@;
        assert(m.subrange(i, i + part.len()) =~= part);
    }
}

/// With a valid collection slug and hook name, the positions `make hook` accepts are
/// exactly: for a field hook (with a field), before_validate, before_change,
/// after_change and after_read; for a collection hook, those and before_read,
/// before_delete, after_delete and before_broadcast; for an access hook, read, create,
/// update and delete.
pub proof fn lemma_hook_positions_accepted(name: Seq<char>, collection: Seq<char>, position: Seq<char>)
    requires
        valid_slug(collection),
        valid_hook_name(name),
    ensures
        hook_options_error(name, HookType::Field, collection, position, true) is None <==> (position
            == "before_validate"@ || position == "before_change"@ || position == "after_change"@
            || position == "after_read"@),
        hook_options_error(name, HookType::Collection, collection, position, false) is None <==> (
        position == "before_validate"@ || position == "before_change"@ || position
            == "after_change"@ || position == "before_read"@ || position == "after_read"@
            || position == "before_delete"@ || position == "after_delete"@ || position
            == "before_broadcast"@),
        hook_options_error(name, HookType::Access, collection, position, false) is None <==> (
        position == "read"@ || position == "create"@ || position == "update"@ || position
            == "delete"@),
{
    let f = hook_positions(HookType::Field);
    let c = hook_positions(HookType::Collection);
    let a = hook_positions(HookType::Access);
    if position == "before_validate"@ || position == "before_change"@ || position == "after_change"@
        || position == "after_read"@ {
        if position == "before_validate"@ {
            assert(f[0] == position);
        } else if position == "before_change"@ {
            assert(f[1] == position);
        } else if position == "after_change"@ {
            assert(f[2] == position);
        } else {
            assert(f[3] == position);
        }
    }
    if f.contains(position) {
        let i = choose|i: int| 0 <= i < f.len() && f[i] == position;
        assert(i == 0 || i == 1 || i == 2 || i == 3);
    }
    if c.contains(position) {
        let i = choose|i: int| 0 <= i < c.len() && c[i] == position;
        assert(0 <= i < 8);
    }
    if position == "before_validate"@ {
        assert(c[0] == position);
    } else if position == "before_change"@ {
        assert(c[1] == position);
    } else if position == "after_change"@ {
        assert(c[2] == position);
    } else if position == "before_read"@ {
        assert(c[3] == position);
    } else if position == "after_read"@ {
        assert(c[4] == position);
    } else if position == "before_delete"@ {
        assert(c[5] == position);
    } else if position == "after_delete"@ {
        assert(c[6] == position);
    } else if position == "before_broadcast"@ {
        assert(c[7] == position);
    }
    if a.contains(position) {
        let i = choose|i: int| 0 <= i < a.len() && a[i] == position;
        assert(0 <= i < 4);
    }
    if position == "read"@ {
        assert(a[0] == position);
    } else if position == "create"@ {
        assert(a[1] == position);
    } else if position == "update"@ {
        assert(a[2] == position);
    } else if position == "delete"@ {
        assert(a[3] == position);
    }
}

/// The source of a new hook file starts with a comment that names the position, and
/// names the collection (and, for a field hook, `collection.field`); the registration
/// lines printed after it name the hook reference and the position.
pub proof fn lemma_hook_sources_name_their_target(
    t: HookType,
    position: Seq<char>,
    collection: Seq<char>,
    field: Seq<char>,
    hook_ref: Seq<char>,
)
    ensures
        ("--- "@ + position).is_prefix_of(hook_lua(t, position, collection, field)),
        contains_text(hook_lua(t, position, collection, field), collection),
        t == HookType::Field ==> contains_text(
            hook_lua(t, position, collection, field),
            collection + "."@ + field,
        ),
        hook_usage(t, position, hook_ref).len() == 4,
        contains_text(hook_usage(t, position, hook_ref)[2], position),
        contains_text(hook_usage(t, position, hook_ref)[2], hook_ref),
{
    reveal_strlit("--- ");
    reveal_strlit(" hook for ");
    reveal_strlit(" field hook for ");
    reveal_strlit(" access control for ");
    reveal_strlit("      ");
    reveal_strlit(" = { \"");
    reveal_strlit(" = \"");
    let src = hook_lua(t, position, collection, field);
    let head = "--- "@ + position;
    assert(src.subrange(0, head.len() as int) =~= head);
    let mid: Seq<char> = match t {
        HookType::Collection => " hook for "@,
        HookType::Field => " field hook for "@,
        HookType::Access => " access control for "@,
    };
    let at: int = head.len() as int + mid.len() as int;
    assert(src.subrange(at, at + collection.len()) =~= collection);
    if t == HookType::Field {
        let cf = collection + "."@ + field;
        assert(src.subrange(at, at + cf.len()) =~= cf);
    }
    let line = hook_usage(t, position, hook_ref)[2];
    assert(line.subrange(6, 6 + position.len() as int) =~= position);
    let q: int = match t {
        HookType::Access => 6 + position.len() as int + 4,
        _ => 6 + position.len() as int + 6,
    };
    assert(line.subrange(q, q + hook_ref.len()) =~= hook_ref);
}

/// What `make hook` writes and prints: the file path relative to the config directory,
/// its Lua source, the hook reference and the registration lines.
pub struct HookPlan {
    pub file: String,
    pub lua: String,
    pub hook_ref: String,
    pub usage: Vec<String>,
}

/// Decide `make hook`: check the options, then refuse an existing target (shown as
/// `target`) unless forced, else give what to write and print.
pub fn plan_hook(opts: &MakeHookOptions, target: &str, target_exists: bool) -> (r: Result<
    HookPlan,
    ScaffoldError,
>)
    ensures
        match hook_options_error(
            opts.name@,
            opts.hook_type,
            opts.collection@,
            opts.position@,
            opts.field is Some,
        ) {
            Some(e) => r matches Err(got) && same_error_kind(got, e),
            None => if target_exists && !opts.force {
                r matches Err(ScaffoldError::FileExists(p)) && p@ == target@
            } else {
                r matches Ok(plan) && plan.file@ == "hooks/"@ + opts.collection@ + "/"@ + opts.name@
                    + ".lua"@ && plan.lua@ == hook_lua(
                    opts.hook_type,
                    opts.position@,
                    opts.collection@,
                    hook_field_shown(opts.field),
                ) && plan.hook_ref@ == "hooks."@ + opts.collection@ + "."@ + opts.name@
                    && plan.usage@.map_values(|s: String| s@) == hook_usage(
                    opts.hook_type,
                    opts.position@,
                    plan.hook_ref@,
                )
            },
        },
        r matches Err(ScaffoldError::InvalidSlug(s)) ==> s@ == opts.collection@,
        r matches Err(ScaffoldError::InvalidHookName(s)) ==> s@ == opts.name@,
        r matches Err(ScaffoldError::InvalidPosition(s, _)) ==> s@ == opts.position@,
{
    validate_hook_options(opts)?;
    if refuse_overwrite(target_exists, opts.force) {
        return Err(ScaffoldError::FileExists(String::from_str(target)));
    }
    let file = hook_file_path(opts.collection, opts.name);
    let lua = render_hook_lua(opts);
    let hook_ref = hook_ref(opts.collection, opts.name);
    let usage = hook_usage_lines(opts.hook_type, opts.position, hook_ref.as_str());
    Ok(HookPlan { file, lua, hook_ref, usage })
}

/// Decide `make global`: check the slug, then refuse an existing target unless forced,
/// else give the Lua source to write.
pub fn plan_global(slug: &str, target: &str, target_exists: bool, force: bool) -> (r: Result<
    String,
    ScaffoldError,
>)
    ensures
        !valid_slug(slug@) ==> (r matches Err(ScaffoldError::InvalidSlug(s)) && s@ == slug@),
        valid_slug(slug@) && target_exists && !force ==> (r matches Err(
            ScaffoldError::FileExists(p),
        ) && p@ == target@),
        valid_slug(slug@) && !(target_exists && !force) ==> (r matches Ok(lua) && lua@
            == global_lua(slug@)),
{
    validate_slug(slug)?;
    if refuse_overwrite(target_exists, force) {
        return Err(ScaffoldError::FileExists(String::from_str(target)));
    }
    Ok(render_global_lua(slug))
}

/// Lines joined with "\n".
pub open spec fn join_lines(lines: Seq<Seq<char>>) -> Seq<char>
    decreases lines.len(),
{
    if lines.len() == 0 {
        Seq::empty()
    } else if lines.len() == 1 {
        lines[0]
    } else {
        join_lines(lines.drop_last()) + "\n"@ + lines.last()
    }
}

fn join_with_newlines(v: &Vec<String>) -> (r: String)
    ensures
        r@ == join_lines(v@.map_values(|s: String| s@)),
{
    let ghost views = v@.map_values(|s: String| s@);
    let mut r = String::new();
    let mut i: usize = 0;
    while i < v.len()
        invariant
            i <= v.len(),
            views == v@.map_values(|s: String| s@),
            r@ == join_lines(views.take(i as int)),
        decreases v.len() - i,
    {
        assert(views.take(i + 1).drop_last() =~= views.take(i as int));
        if i > 0 {
            r.append("\n");
        }
        r.append(v[i].as_str());
        i = i + 1;
    }
    assert(views.take(v.len() as int) =~= views);
    r
}

/// The Lua source of a new job file.
pub open spec fn job_lua(slug: Seq<char>, config: Seq<Seq<char>>) -> Seq<char> {
    "crap.jobs.define(\""@ + slug + "\", {\n"@ + join_lines(config)
        + "\n})\n\nlocal M = {}\n\n---@param ctx crap.JobHandlerContext\n---@return table?\nfunction M.run(ctx)\n    -- ctx.data = input data from queue() or {} for cron\n    -- ctx.job  = { slug, attempt, max_attempts }\n    -- Full CRUD access: crap.collections.find(), .create(), etc.\n\n    -- TODO: implement\n    return nil\nend\n\nreturn M\n"@
}

/// Decide `make job`: check the slug, then refuse an existing target unless forced,
/// else give the Lua source to write.
pub fn plan_job(
    slug: &str,
    schedule: Option<&str>,
    queue: Option<&str>,
    retries: Option<u32>,
    timeout: Option<u64>,
    target: &str,
    target_exists: bool,
    force: bool,
) -> (r: Result<String, ScaffoldError>)
    ensures
        !valid_slug(slug@) ==> (r matches Err(ScaffoldError::InvalidSlug(s)) && s@ == slug@),
        valid_slug(slug@) && target_exists && !force ==> (r matches Err(
            ScaffoldError::FileExists(p),
        ) && p@ == target@),
        valid_slug(slug@) && !(target_exists && !force) ==> (r matches Ok(lua) && lua@ == job_lua(
            slug@,
            job_config(slug@, opt_view(schedule), opt_view(queue), retries, timeout),
        )),
{
    validate_slug(slug)?;
    if refuse_overwrite(target_exists, force) {
        return Err(ScaffoldError::FileExists(String::from_str(target)));
    }
    let lines = job_config_lines(slug, schedule, queue, retries, timeout);
    let body = join_with_newlines(&lines);
    let mut r = String::from_str("crap.jobs.define(\"");
    r.append(slug);
    r.append("\", {\n");
    r.append(body.as_str());
    r.append(
        "\n})\n\nlocal M = {}\n\n---@param ctx crap.JobHandlerContext\n---@return table?\nfunction M.run(ctx)\n    -- ctx.data = input data from queue() or {} for cron\n    -- ctx.job  = { slug, attempt, max_attempts }\n    -- Full CRUD access: crap.collections.find(), .create(), etc.\n\n    -- TODO: implement\n    return nil\nend\n\nreturn M\n",
    );
    Ok(r)
}

/// The lines printed after a job file is created.
pub open spec fn job_usage(slug: Seq<char>, scheduled: bool) -> Seq<Seq<char>> {
    let head = seq!["Handler ref: jobs."@ + slug + ".run"@, ""@];
    if scheduled {
        head + seq!["This job has a cron schedule and will run automatically."@]
    } else {
        head + seq![
            "Queue from hooks:"@,
            "  crap.jobs.queue(\""@ + slug + "\", { key = \"value\" })"@,
            ""@,
            "Or trigger from CLI:"@,
            "  crap-cms jobs trigger <config> "@ + slug,
        ]
    }
}

/// Render the lines printed after a job file is created.
pub fn job_usage_lines(slug: &str, scheduled: bool) -> (r: Vec<String>)
    ensures
        r@.map_values(|s: String| s@) == job_usage(slug@, scheduled),
{
    let mut handler = String::from_str("Handler ref: jobs.");
    handler.append(slug);
    handler.append(".run");
    let mut r: Vec<String> = Vec::new();
    r.push(handler);
    r.push(String::new());
    if scheduled {
        r.push(String::from_str("This job has a cron schedule and will run automatically."));
    } else {
        r.push(String::from_str("Queue from hooks:"));
        let mut q = String::from_str("  crap.jobs.queue(\"");
        q.append(slug);
        q.append("\", { key = \"value\" })");
        r.push(q);
        r.push(String::new());
        r.push(String::from_str("Or trigger from CLI:"));
        let mut t = String::from_str("  crap-cms jobs trigger <config> ");
        t.append(slug);
        r.push(t);
    }
    proof {
        reveal_strlit("");
        let got = r@.map_values(|s: String| s@);
        let want = job_usage(slug@, scheduled);
        assert(got.len() == want.len());
        assert(got[0] == want[0]);
        assert(got[1] == want[1]);
        assert(got[2] == want[2]);
        if !scheduled {
            assert(got[3] == want[3]);
            assert(got[4] == want[4]);
            assert(got[5] == want[5]);
            assert(got[6] == want[6]);
        }
    }
    assert(r@.map_values(|s: String| s@) =~= job_usage(slug@, scheduled));
    r
}

/// The Lua source of a new migration file.
pub open spec fn migration_lua() -> Seq<char> {
    "local M = {}\n\nfunction M.up()\n    -- TODO: implement migration\n    -- crap.* API available (find, create, update, delete)\nend\n\nfunction M.down()\n    -- TODO: implement rollback (best-effort)\nend\n\nreturn M\n"@
}

/// Render the Lua source of a new migration file.
pub fn render_migration_lua() -> (r: String)
    ensures
        r@ == migration_lua(),
{
    String::from_str(
        "local M = {}\n\nfunction M.up()\n    -- TODO: implement migration\n    -- crap.* API available (find, create, update, delete)\nend\n\nfunction M.down()\n    -- TODO: implement rollback (best-effort)\nend\n\nreturn M\n",
    )
}

} // verus!
