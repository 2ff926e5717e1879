use std::path::PathBuf;

use crap_cms::scaffold::{
    hook_file_path, job_config_lines, job_usage_lines, migration_file_name, plan_global, plan_hook,
    plan_job, render_migration_lua, u64_to_decimal, validate_slug, HookType, MakeHookOptions,
    ScaffoldError,
};
use crap_cms::text::to_title_case;

fn make_hook_opts<'a>(
    config_dir: &'a PathBuf,
    name: &'a str,
    hook_type: HookType,
    collection: &'a str,
    position: &'a str,
    field: Option<&'a str>,
    force: bool,
) -> MakeHookOptions<'a> {
    MakeHookOptions { config_dir, name, hook_type, collection, position, field, force }
}

fn config_dir() -> PathBuf {
    PathBuf::from("config")
}

fn target(dir: &PathBuf, opts: &MakeHookOptions) -> String {
    dir.join(hook_file_path(opts.collection, opts.name)).display().to_string()
}

#[test]
fn test_make_hook_collection() {
    let dir = config_dir();
    let opts = make_hook_opts(&dir, "auto_slug", HookType::Collection, "posts", "before_change", None, false);
    let plan = plan_hook(&opts, &target(&dir, &opts), false).unwrap();
    assert_eq!(plan.file, "hooks/posts/auto_slug.lua");
    let content = plan.lua;
    assert!(content.contains("before_change hook for posts"));
    assert!(content.contains("crap.HookContext"));
    assert!(content.contains("return function(context)"));
}

#[test]
fn test_make_hook_field() {
    let dir = config_dir();
    let opts = make_hook_opts(&dir, "normalize", HookType::Field, "posts", "before_validate", Some("title"), false);
    let plan = plan_hook(&opts, &target(&dir, &opts), false).unwrap();
    assert_eq!(plan.file, "hooks/posts/normalize.lua");
    let content = plan.lua;
    assert!(content.contains("before_validate field hook for posts.title"));
    assert!(content.contains("crap.FieldHookContext"));
    assert!(content.contains("return function(value, context)"));
}

#[test]
fn test_make_hook_access() {
    let dir = config_dir();
    let opts = make_hook_opts(&dir, "admin_only", HookType::Access, "posts", "read", None, false);
    let plan = plan_hook(&opts, &target(&dir, &opts), false).unwrap();
    assert_eq!(plan.file, "hooks/posts/admin_only.lua");
    let content = plan.lua;
    assert!(content.contains("read access control for posts"));
    assert!(content.contains("crap.AccessContext"));
    assert!(content.contains("return true"));
}

#[test]
fn test_make_hook_refuses_overwrite() {
    let dir = config_dir();
    let opts = make_hook_opts(&dir, "auto_slug", HookType::Collection, "posts", "before_change", None, false);
    let path = target(&dir, &opts);
    assert!(plan_hook(&opts, &path, false).is_ok());
    let result = plan_hook(&opts, &path, true);
    assert!(result.is_err());
    let err = result.err().unwrap();
    assert!(err.message().contains("--force"));
    assert_eq!(err, ScaffoldError::FileExists(path));
}

#[test]
fn test_make_hook_force_overwrite() {
    let dir = config_dir();
    let opts = make_hook_opts(&dir, "auto_slug", HookType::Collection, "posts", "before_change", None, false);
    let path = target(&dir, &opts);
    assert!(plan_hook(&opts, &path, false).is_ok());
    let opts_force = make_hook_opts(&dir, "auto_slug", HookType::Collection, "posts", "before_change", None, true);
    assert!(plan_hook(&opts_force, &path, true).is_ok());
}

#[test]
fn test_make_hook_invalid_position() {
    let dir = config_dir();
    let opts = make_hook_opts(&dir, "bad", HookType::Collection, "posts", "invalid_position", None, false);
    let result = plan_hook(&opts, &target(&dir, &opts), false);
    assert!(result.is_err());
    assert!(result.err().unwrap().message().contains("Invalid position"));
}

#[test]
fn test_make_hook_invalid_name() {
    let dir = config_dir();
    let opts = make_hook_opts(&dir, "", HookType::Collection, "posts", "before_change", None, false);
    assert!(plan_hook(&opts, &target(&dir, &opts), false).is_err());
    let opts2 = make_hook_opts(&dir, "bad-name", HookType::Collection, "posts", "before_change", None, false);
    assert!(plan_hook(&opts2, &target(&dir, &opts2), false).is_err());
}

#[test]
fn test_make_hook_field_requires_field_name() {
    let dir = config_dir();
    let opts = make_hook_opts(&dir, "hook", HookType::Field, "posts", "before_validate", None, false);
    let result = plan_hook(&opts, &target(&dir, &opts), false);
    assert!(result.is_err());
    assert!(result.err().unwrap().message().contains("--field"));
}

#[test]
fn test_make_global() {
    let content = plan_global("site_settings", "config/globals/site_settings.lua", false, false).unwrap();
    assert!(content.contains("crap.globals.define(\"site_settings\""));
    assert!(content.contains("singular = \"Site Settings\""));
}

// --- own checks ---

#[test]
fn make_hook_invalid_position_message_lists_valid_positions() {
    let dir = config_dir();
    let opts = make_hook_opts(&dir, "x", HookType::Access, "posts", "write", None, false);
    let err = plan_hook(&opts, "t", false).err().unwrap();
    assert_eq!(
        err.message(),
        "Invalid position 'write' for access hook — valid: read, create, update, delete"
    );
}

#[test]
fn make_hook_invalid_slug_comes_first() {
    let dir = config_dir();
    let opts = make_hook_opts(&dir, "bad-name", HookType::Collection, "Posts", "nowhere", None, false);
    let err = plan_hook(&opts, "t", true).err().unwrap();
    assert_eq!(err, ScaffoldError::InvalidSlug("Posts".to_string()));
    assert_eq!(
        err.message(),
        "Invalid slug 'Posts' — use lowercase letters, digits and underscores only"
    );
}

#[test]
fn make_hook_usage_lines_for_access_hooks() {
    let dir = config_dir();
    let opts = make_hook_opts(&dir, "admin_only", HookType::Access, "posts", "read", None, false);
    let plan = plan_hook(&opts, "t", false).unwrap();
    assert_eq!(plan.hook_ref, "hooks.posts.admin_only");
    assert_eq!(
        plan.usage,
        vec![
            "Add to your collection definition:".to_string(),
            "  access = {".to_string(),
            "      read = \"hooks.posts.admin_only\",".to_string(),
            "  },".to_string(),
        ]
    );
}

#[test]
fn hook_type_parsing_and_positions() {
    assert_eq!(HookType::from_str("field"), Some(HookType::Field));
    assert_eq!(HookType::from_str("Access"), Some(HookType::Access));
    assert_eq!(HookType::from_str("other"), None);
    assert_eq!(HookType::Access.valid_positions(), vec!["read", "create", "update", "delete"]);
    assert_eq!(HookType::Collection.label(), "collection");
}

#[test]
fn validate_slug_accepts_and_rejects() {
    assert!(validate_slug("site_settings2").is_ok());
    assert_eq!(validate_slug(""), Err(ScaffoldError::InvalidSlug(String::new())));
    assert!(validate_slug("Bad").is_err());
    assert!(validate_slug("with-dash").is_err());
}

#[test]
fn make_global_refuses_existing_file() {
    let err = plan_global("site", "config/globals/site.lua", true, false).err().unwrap();
    assert_eq!(
        err.message(),
        "File 'config/globals/site.lua' already exists — use --force to overwrite"
    );
    assert!(plan_global("site", "config/globals/site.lua", true, true).is_ok());
    assert!(plan_global("Site", "x", false, false).is_err());
}

#[test]
fn make_job_config_lines_skip_defaults() {
    let lines = job_config_lines("send_mail", None, Some("default"), Some(0), Some(60));
    assert_eq!(
        lines,
        vec![
            "    handler = \"jobs.send_mail.run\",".to_string(),
            "    labels = { singular = \"Send Mail\" },".to_string(),
        ]
    );
    let lines = job_config_lines("send_mail", Some("0 * * * *"), Some("mail"), Some(3), Some(120));
    assert_eq!(lines[1], "    schedule = \"0 * * * *\",");
    assert_eq!(lines[2], "    queue = \"mail\",");
    assert_eq!(lines[3], "    retries = 3,");
    assert_eq!(lines[4], "    timeout = 120,");
}

#[test]
fn make_job_lua_source() {
    let lua = plan_job("cleanup", None, None, None, None, "t", false, false).unwrap();
    assert!(lua.starts_with(
        "crap.jobs.define(\"cleanup\", {\n    handler = \"jobs.cleanup.run\",\n    labels = { singular = \"Cleanup\" },\n})\n"
    ));
    assert!(lua.contains("function M.run(ctx)"));
    assert!(lua.ends_with("return M\n"));
    assert!(plan_job("cleanup", None, None, None, None, "t", true, false).is_err());
}

#[test]
fn make_job_usage_depends_on_schedule() {
    let scheduled = job_usage_lines("tick", true);
    assert_eq!(scheduled[0], "Handler ref: jobs.tick.run");
    assert_eq!(scheduled[2], "This job has a cron schedule and will run automatically.");
    let queued = job_usage_lines("tick", false);
    assert_eq!(queued.len(), 7);
    assert_eq!(queued[3], "  crap.jobs.queue(\"tick\", { key = \"value\" })");
    assert_eq!(queued[6], "  crap-cms jobs trigger <config> tick");
}

#[test]
fn migration_names_and_source() {
    assert_eq!(migration_file_name("20260101120000", "add_posts"), "20260101120000_add_posts.lua");
    let lua = render_migration_lua();
    assert!(lua.contains("function M.up()"));
    assert!(lua.contains("function M.down()"));
}

#[test]
fn decimal_rendering_and_title_case() {
    assert_eq!(u64_to_decimal(0), "0");
    assert_eq!(u64_to_decimal(1234567890), "1234567890");
    assert_eq!(to_title_case("site_settings"), "Site Settings");
}
