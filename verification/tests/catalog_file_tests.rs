use std::io::{Read, Write};
use std::path::Path;

use tempfile::{Builder, NamedTempFile};
use wyvern::catalog::{build_skill_record, resolve_static_command_path, CommandFileType};
use wyvern::cli::default_ui_root_with;
use wyvern::ids::{ExtensionId, MatchToken};
use wyvern::loader::ExtensionRegistry;
use wyvern::matching::PathRequiresProbe;
use wyvern::registry::{ExpandSpec, ExtensionDef, MatchSpec, SkillSource};
use wyvern::viewer::{resolve_viewer_bin_with, ViewerProbe, ViewerSpawnError};

fn s(v: &str) -> String {
    v.to_string()
}

fn from_file_registry(path: &str) -> ExtensionRegistry {
    let def = ExtensionDef {
        id: ExtensionId::try_from(s("from-file")).expect("id"),
        match_spec: MatchSpec {
            positional_suffix: None,
            filename: None,
            argv_prefix: Some(vec![MatchToken::try_from(s("from-file")).expect("token")]),
            arg_suffix: None,
        },
        extends: None,
        description: None,
        examples: vec![],
        preexec: None,
        expand: Some(ExpandSpec {
            command: None,
            command_from_file: Some(s(path)),
            command_type: None,
            host: None,
        }),
        source: SkillSource::Shipped,
    };
    ExtensionRegistry::from_entries(vec![def]).expect("parse")
}

/// What the listing learns from the static `command_from_file` of the only
/// entry: the path is resolved, then the file is read and its `type` taken.
fn command_file_type(registry: &ExtensionRegistry, file: &NamedTempFile) -> CommandFileType {
    let tmpl = registry.extensions()[0]
        .expand
        .as_ref()
        .and_then(|e| e.command_from_file.clone())
        .expect("command_from_file");
    match resolve_static_command_path(&tmpl, "share/wyvern") {
        Some(path) if Path::new(&path).is_file() => {
            let mut text = String::new();
            let read = file.reopen().and_then(|mut f| f.read_to_string(&mut text));
            match read.map_err(|e| e.to_string()).and_then(|_| {
                serde_json::from_str::<serde_json::Value>(&text).map_err(|e| e.to_string())
            }) {
                Ok(value) => CommandFileType::Found(value.get("type").and_then(|t| t.as_str()).map(s)),
                Err(_) => CommandFileType::Unreadable,
            }
        }
        _ => CommandFileType::NotStatic,
    }
}

fn listing_type(body: &str) -> String {
    let mut file = Builder::new().suffix(".json").tempfile().expect("tempfile");
    file.write_all(body.as_bytes()).expect("write");
    let registry = from_file_registry(&file.path().to_string_lossy());
    let files = command_file_type(&registry, &file);
    let record = build_skill_record(&registry.extensions()[0], &PathRequiresProbe { found: vec![] }, &files);
    record.expands_to
}

#[test]
fn expands_to_reads_type_from_command_json_file() {
    assert_eq!(listing_type(r#"{"type":"report","title":"t","page":"pages/view.xhtml"}"#), "report");
}

#[test]
fn expands_to_unknown_when_command_file_unreadable() {
    let ty = listing_type("not-json");
    assert_eq!(ty, "unknown");
    assert_ne!(ty, "wizard");
}

#[test]
fn default_ui_root_prefers_env_override() {
    let tmp = tempfile::tempdir().expect("tempdir");
    let custom = Builder::new().prefix("custom-ui").rand_bytes(0).tempdir_in(tmp.path()).expect("mkdir");
    let custom_text = custom.path().to_str().expect("utf8").to_string();
    let root = default_ui_root_with(Some(&custom_text), &vec![], &vec![]);
    assert_eq!(root, Some(custom_text));
}

#[test]
fn non_executable_bin_override_errors() {
    let probe = ViewerProbe {
        sibling: None,
        cargo_bin_exe: None,
        wyvern_viewer_bin: Some((s("/tmp/x/not-exec-viewer"), false, true)),
        on_path: None,
    };
    let err = resolve_viewer_bin_with(&probe).expect_err("not executable");
    match err {
        ViewerSpawnError::NotFound { hint } => {
            assert!(hint.contains("not executable") || hint.contains("not an executable"), "hint={hint}");
        }
        other => panic!("expected NotFound, got {other:?}"),
    }
}
