use std::io::Write;
use std::path::Path;

use tempfile::Builder;
use wyvern::commands::ExampleRecord;
use wyvern::examples::collect_examples;
use wyvern::expand::relpath_from_ui_root;
use wyvern::share_resolve::{find_workspace_root, infer_wizard_root, resolve_wyvern_share_with};
use wyvern::wizard::{finish_wizard_lint, run_wizard_command, PackageLint, WizardCmdError, WizardCmdResult, WizardLintStageError};
use wyvern::json::JsonValue;
use wyvern::wizard_paths::{
    normalize_path, package_rel_path, page_field_error, page_string_field, resolve_wizard_paths, script_path,
    wizard_json_has_workflow_post, wizard_json_page, wizard_json_parse_error,
};

fn text(p: &Path) -> String {
    p.to_string_lossy().into_owned()
}

fn strings(items: &[&str]) -> Vec<String> {
    items.iter().map(|s| s.to_string()).collect()
}

/// Builds `single-page/{wizard.json, pages/only.html}` under a temporary
/// directory, infers the wizard root from the page by walking its parents,
/// and checks the root and the page's path relative to it.
fn wizard_root_walk() {
    let tmp = tempfile::tempdir().expect("tmp");
    let root = Builder::new().prefix("single-page").rand_bytes(0).tempdir_in(tmp.path()).expect("mkdir");
    let pages = Builder::new().prefix("pages").rand_bytes(0).tempdir_in(root.path()).expect("mkdir");
    let mut wizard = Builder::new()
        .prefix("wizard")
        .suffix(".json")
        .rand_bytes(0)
        .tempfile_in(root.path())
        .expect("wizard.json");
    wizard.as_file_mut().write_all(b"{}").expect("wizard.json");
    let mut html_file = Builder::new()
        .prefix("only")
        .suffix(".html")
        .rand_bytes(0)
        .tempfile_in(pages.path())
        .expect("html");
    html_file.as_file_mut().write_all(b"<p>x</p>").expect("html");
    let html = html_file.path();
    let start = html.parent().expect("parent");
    let ancestors: Vec<String> = start.ancestors().map(text).collect();
    let is_root: Vec<bool> = start
        .ancestors()
        .map(|dir| dir.join("wizard.json").is_file() || dir.join("pages").is_dir())
        .collect();
    let inferred = infer_wizard_root(&text(start), &ancestors, &is_root);
    assert_eq!(inferred, text(root.path()));
    assert_eq!(relpath_from_ui_root(&text(html), &inferred), "pages/only.html");
}

#[test]
fn expand_wizard_root_walk_unit() {
    wizard_root_walk();
}

#[test]
fn mod_wizard_root_walk_unit() {
    wizard_root_walk();
}

#[test]
fn infer_wizard_root_falls_back_to_start() {
    let ancestors = strings(&["/a/b/c", "/a/b", "/a", "/"]);
    let r = infer_wizard_root("/a/b/c", &ancestors, &[false, false, false, false].to_vec());
    assert_eq!(r, "/a/b/c");
    let r = infer_wizard_root("/a/b/c", &ancestors, &[false, true, true, false].to_vec());
    assert_eq!(r, "/a/b");
}

#[test]
fn find_workspace_root_takes_nearest_marked_ancestor() {
    let ancestors = strings(&["/w/crates/x", "/w/crates", "/w", "/"]);
    assert_eq!(
        find_workspace_root(&ancestors, &vec![false, false, true, true]),
        Some("/w".to_string())
    );
    assert_eq!(find_workspace_root(&ancestors, &vec![false; 4]), None);
    assert_eq!(find_workspace_root(&vec![], &vec![]), None);
}

#[test]
fn share_resolution_priority() {
    assert_eq!(
        resolve_wyvern_share_with(Some("/env/share"), Some("/ws/share"), true, Some("/cache")),
        "/env/share"
    );
    assert_eq!(resolve_wyvern_share_with(None, Some("/ws/share"), true, Some("/cache")), "/ws/share");
    assert_eq!(resolve_wyvern_share_with(None, None, true, Some("/cache")), "/cache");
    assert_eq!(resolve_wyvern_share_with(None, None, false, Some("/cache")), "share/wyvern");
    assert_eq!(resolve_wyvern_share_with(None, None, true, None), "share/wyvern");
}

fn lint_paths(p: &str) -> Result<(String, String), WizardLintStageError> {
    let input = Path::new(p);
    let is_dir = input.is_dir();
    let has_json = is_dir && input.join("wizard.json").is_file();
    resolve_wizard_paths(p, is_dir, has_json, input.is_file())
}

#[test]
fn lint_missing_path_is_io_stage_error() {
    let args = strings(&["lint", "/no/such/wizard-pkg"]);
    let packages = match run_wizard_command(&args).expect("lint") {
        WizardCmdResult::Lint(packages) => packages,
        other => panic!("expected Lint, got {other:?}"),
    };
    let results: Vec<_> = packages
        .iter()
        .map(|p| lint_paths(p).map(|_| PackageLint { findings: vec![], pages: 0 }))
        .collect();
    let err = finish_wizard_lint(results).expect_err("io");
    match err {
        WizardCmdError::Stage(stage) => {
            assert!(matches!(stage, WizardLintStageError::Io { .. }), "{stage:?}");
            assert!(stage.message().contains("not found"), "{}", stage.message());
            assert_eq!(stage.exit_code(), 1);
            assert_eq!(stage.subcode(), "wizard_lint_io");
        }
        other => panic!("expected Stage, got {other:?}"),
    }
}

#[test]
fn lint_directory_without_wizard_json_is_io_error() {
    let tmp = tempfile::tempdir().expect("tmp");
    let dir = text(tmp.path());
    let err = lint_paths(&dir).expect_err("no wizard.json");
    match err {
        WizardLintStageError::Io { path, message } => {
            assert_eq!(path, text(&tmp.path().join("wizard.json")));
            assert_eq!(message, format!("error: '{dir}' is a directory but contains no wizard.json"));
        }
        other => panic!("expected Io, got {other:?}"),
    }
    let mut wizard = Builder::new().prefix("wizard").suffix(".json").rand_bytes(0).tempfile_in(tmp.path()).expect("wizard.json");
    wizard.as_file_mut().write_all(b"{}").expect("write");
    let (json, root) = lint_paths(&dir).expect("dir with wizard.json");
    assert_eq!(json, text(&tmp.path().join("wizard.json")));
    assert_eq!(root, dir);
    let (json, root) = lint_paths(&json).expect("wizard.json path");
    assert_eq!(json, text(&tmp.path().join("wizard.json")));
    assert_eq!(root, dir);
}

#[test]
fn normalize_path_folds_parent_dirs() {
    assert_eq!(normalize_path("/w/pages/../js/app.js"), "/w/js/app.js");
    assert_eq!(normalize_path("pages/a/../../b.js"), "b.js");
    assert_eq!(normalize_path("../x/./y.js"), "../x/y.js");
    assert_eq!(normalize_path("/.."), "/..");
    assert_eq!(normalize_path("a/../../b"), "../b");
}

fn example(name: &str, readme: &str) -> ExampleRecord {
    ExampleRecord { name: s(name), description: format!("{name} example"), readme: s(readme) }
}

fn s(v: &str) -> String {
    v.to_string()
}

#[test]
fn examples_are_deduplicated_and_sorted_ignoring_case() {
    let found = vec![
        example("Turbo flow", "examples/README.md"),
        example("path picker", "examples/path-picker/README.md"),
        example("Again", "examples/README.md"),
        example("Path Picker", "examples/other/README.md"),
        example("alpha", "examples/alpha/README.md"),
    ];
    let listed = collect_examples(&found);
    let names: Vec<&str> = listed.iter().map(|e| e.name.as_str()).collect();
    assert_eq!(names, ["alpha", "path picker", "Path Picker", "Turbo flow"]);
    assert_eq!(listed[1].readme, "examples/path-picker/README.md");
    assert_eq!(listed[2].readme, "examples/other/README.md");
    assert!(collect_examples(&vec![]).is_empty());
}

#[test]
fn script_paths_resolve_within_package() {
    let abs = script_path("/w/pages", "../js/app.js");
    assert_eq!(abs, "/w/js/app.js");
    assert_eq!(package_rel_path("/w", &abs), Some(s("js/app.js")));
    assert_eq!(package_rel_path("/w", "/elsewhere/app.js"), None);
    assert_eq!(script_path("/w/pages", "./nav.js"), "/w/pages/nav.js");
}

#[test]
fn workflow_post_must_be_a_non_empty_string() {
    let doc = |post: JsonValue| {
        JsonValue::Object(vec![(s("workflow"), JsonValue::Object(vec![(s("post"), post)]))])
    };
    assert!(wizard_json_has_workflow_post(&doc(JsonValue::Str(s("scripts/post.py")))));
    assert!(!wizard_json_has_workflow_post(&doc(JsonValue::Str(s("")))));
    assert!(!wizard_json_has_workflow_post(&doc(JsonValue::Bool(true))));
    assert!(!wizard_json_has_workflow_post(&JsonValue::Object(vec![(s("page"), JsonValue::Null)])));
}

#[test]
fn wizard_json_field_checks() {
    let detail = serde_json::from_str::<serde_json::Value>("{").expect_err("parse").to_string();
    let err = wizard_json_parse_error("wizard.json", &detail);
    assert!(matches!(err, WizardLintStageError::Parse { .. }), "{err:?}");

    let no_page = JsonValue::Object(vec![(s("title"), JsonValue::Str(s("t")))]);
    match wizard_json_page(&no_page, "wizard.json") {
        Err(WizardLintStageError::Validation { field, message, .. }) => {
            assert_eq!(field, "page");
            assert_eq!(message, "error: 'wizard.json': missing 'page' field in wizard.json");
        }
        other => panic!("expected Validation, got {other:?}"),
    }
    let doc = JsonValue::Object(vec![(
        s("page"),
        JsonValue::Object(vec![(s("id"), JsonValue::Str(s("start"))), (s("html"), JsonValue::Bool(true))]),
    )]);
    let page = wizard_json_page(&doc, "wizard.json").expect("page");
    assert_eq!(page_string_field(page, "wizard.json", "id").expect("id"), "start");
    match page_string_field(page, "wizard.json", "html") {
        Err(WizardLintStageError::Validation { field, message, .. }) => {
            assert_eq!(field, "page.html");
            assert_eq!(message, "error: 'wizard.json': wizard.json page.html must be a string");
        }
        other => panic!("expected Validation, got {other:?}"),
    }
    match page_field_error("wizard.json", "id", "wizard page field must be a non-empty string") {
        WizardLintStageError::Validation { field, message, .. } => {
            assert_eq!(field, "page.id");
            assert!(message.contains("wizard page field must be a non-empty string"), "{message}");
        }
        other => panic!("expected Validation, got {other:?}"),
    }
}
