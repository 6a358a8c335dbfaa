use std::io::{Read, Write};
use std::path::Path;

use tempfile::{Builder, NamedTempFile};

use wyvern::allowlist::Allowlist;
use wyvern::catalog::CommandFileType;
use wyvern::chain::{next_wizard_command, next_wizard_of, resolve_next_wizard, NextWizardSpec};
use wyvern::cli::{input_source, usage_message, InputSource};
use wyvern::emit::emit_parse_error;
use wyvern::errors::{ExtensionError, LoadError, UsageErrorKind};
use wyvern::json::JsonValue;
use wyvern::json_text::{command_file_value, command_type_from_text, load_command_text, wizard_json_value};
use wyvern::wizard::WizardLintStageError;
use wyvern::workflow::WorkflowError;

fn s(v: &str) -> String {
    v.to_string()
}

fn args(items: &[&str]) -> Vec<String> {
    items.iter().map(|a| s(a)).collect()
}

fn object(members: Vec<(&str, JsonValue)>) -> JsonValue {
    JsonValue::Object(members.into_iter().map(|(k, v)| (s(k), v)).collect())
}

fn jstr(v: &str) -> JsonValue {
    JsonValue::Str(s(v))
}

fn text(p: &Path) -> String {
    p.to_string_lossy().into_owned()
}

fn canonical(p: &str) -> Option<String> {
    Path::new(p).canonicalize().ok().map(|c| text(&c))
}

/// A file named `name` in `dir` holding `body`.
fn file_in(dir: &Path, name: &str, body: &str) -> NamedTempFile {
    let (stem, suffix) = name.split_at(name.find('.').unwrap_or(name.len()));
    let mut f = Builder::new().prefix(stem).suffix(suffix).rand_bytes(0).tempfile_in(dir).expect("file");
    f.as_file_mut().write_all(body.as_bytes()).expect("write");
    f
}

fn read_back(f: &NamedTempFile) -> String {
    let mut out = String::new();
    f.reopen().expect("reopen").read_to_string(&mut out).expect("read");
    out
}

/// Loads CLI input the way the binary does: the source from argv, the text
/// of that source (`stdin`, or `file` for a `.json` path), then the
/// library's parse.
fn load(argv: &[&str], stdin: &str, file: &str) -> Result<JsonValue, LoadError> {
    let source = input_source(&args(argv))?;
    let body = match &source {
        InputSource::Stdin => s(stdin),
        InputSource::Inline(t) => t.clone(),
        InputSource::JsonFile(_) => s(file),
    };
    load_command_text(&source, &body)
}

fn member<'a>(v: &'a JsonValue, key: &str) -> Option<&'a JsonValue> {
    v.get(key)
}

#[test]
fn input_inline_json_loads() {
    let value = load(&[r#"{"type":"chrome","title":"Hi"}"#], "", "").expect("inline JSON");
    assert_eq!(member(&value, "type"), Some(&jstr("chrome")));
    assert_eq!(member(&value, "title"), Some(&jstr("Hi")));
}

#[test]
fn input_json_file_loads() {
    let dir = tempfile::tempdir().unwrap();
    let f = file_in(dir.path(), "cmd.json", r#"{"type":"chrome","title":"FromFile"}"#);
    let value = load(&[f.path().to_str().unwrap()], "", &read_back(&f)).expect("json file");
    assert_eq!(member(&value, "type"), Some(&jstr("chrome")));
    assert_eq!(member(&value, "title"), Some(&jstr("FromFile")));
}

#[test]
fn input_stdin_loads_json() {
    let value = load(&[], r#"{"type":"chrome","title":"Stdin"}"#, "").expect("stdin JSON");
    assert_eq!(member(&value, "type"), Some(&jstr("chrome")));
    assert_eq!(member(&value, "title"), Some(&jstr("Stdin")));
}

#[test]
fn input_inline_parse_error() {
    let err = load(&["{not-json"], "", "").expect_err("bad inline");
    assert!(matches!(err, LoadError::Parse { .. }));
}

#[test]
fn input_parse_error_with_quotes_emits_valid_json() {
    let err = load(&[r#"{ "bad": }"#], "", "").expect_err("parse");
    let out = emit_parse_error(&err).expect("emit");
    let value: serde_json::Value = serde_json::from_str(&out).expect("valid JSON stderr");
    assert_eq!(value["error"], "parse");
    assert!(value["message"].is_string());
}

#[test]
fn load_command_text_blank_stdin_is_usage() {
    let err = load_command_text(&InputSource::Stdin, " \n\t").expect_err("blank");
    match err {
        LoadError::Usage { kind, message } => {
            assert_eq!(kind, UsageErrorKind::Generic);
            assert_eq!(message, usage_message());
        }
        other => panic!("expected usage, got {other:?}"),
    }
}

#[test]
fn load_command_text_blank_inline_is_a_parse_failure() {
    let err = load_command_text(&InputSource::Inline(s(" ")), " ").expect_err("blank inline");
    assert!(matches!(err, LoadError::Parse { .. }));
}

#[test]
fn load_command_text_carries_the_parser_message() {
    let err = load_command_text(&InputSource::Inline(s("[1,")), "[1,").expect_err("truncated");
    let expected = serde_json::from_str::<serde_json::Value>("[1,").unwrap_err().to_string();
    match err {
        LoadError::Parse { message } => assert_eq!(message, expected),
        other => panic!("expected parse, got {other:?}"),
    }
}

#[test]
fn load_command_text_converts_every_kind_of_value() {
    let v = load_command_text(&InputSource::Stdin, r#"{"a":[1,2.5,true,null,"x"],"b":{}}"#).expect("ok");
    let expected = object(vec![
        (
            "a",
            JsonValue::Array(vec![
                JsonValue::Number(s("1")),
                JsonValue::Number(s("2.5")),
                JsonValue::Bool(true),
                JsonValue::Null,
                jstr("x"),
            ]),
        ),
        ("b", JsonValue::Object(vec![])),
    ]);
    assert_eq!(v, expected);
}

#[test]
fn command_type_from_text_reads_the_type_member() {
    match command_type_from_text(r#"{"type":"wizard","page":{}}"#) {
        CommandFileType::Found(Some(t)) => assert_eq!(t, "wizard"),
        other => panic!("unexpected {other:?}"),
    }
    assert!(matches!(command_type_from_text(r#"{"title":"x"}"#), CommandFileType::Found(None)));
    assert!(matches!(command_type_from_text(r#"{"type":3}"#), CommandFileType::Found(None)));
    assert!(matches!(command_type_from_text("not json"), CommandFileType::Unreadable));
}

#[test]
fn command_file_value_names_the_file_on_bad_json() {
    let v = command_file_value("cmd.json", r#"{"type":"chrome"}"#).expect("ok");
    assert_eq!(member(&v, "type"), Some(&jstr("chrome")));
    let parser = serde_json::from_str::<serde_json::Value>("{oops").unwrap_err().to_string();
    match command_file_value("cmd.json", "{oops").expect_err("bad") {
        ExtensionError::Io { message } => {
            assert_eq!(message, format!("command_from_file 'cmd.json' is not JSON: {parser}"));
        }
        other => panic!("expected Io, got {other:?}"),
    }
}

#[test]
fn wizard_json_value_reports_invalid_json() {
    let v = wizard_json_value("w/wizard.json", r#"{"type":"wizard"}"#).expect("ok");
    assert_eq!(member(&v, "type"), Some(&jstr("wizard")));
    let parser = serde_json::from_str::<serde_json::Value>("{").unwrap_err().to_string();
    match wizard_json_value("w/wizard.json", "{").expect_err("bad") {
        WizardLintStageError::Parse { path, message } => {
            assert_eq!(path, "w/wizard.json");
            assert_eq!(message, format!("error: 'w/wizard.json': invalid JSON: {parser}"));
        }
        other => panic!("expected parse, got {other:?}"),
    }
}

#[test]
fn resolve_absent_next_wizard_is_none() {
    let finish = object(vec![("button", jstr("finish"))]);
    assert!(next_wizard_of(&finish).expect("ok").is_none());
}

#[test]
fn next_wizard_null_is_none() {
    let finish = object(vec![("button", jstr("finish")), ("next_wizard", JsonValue::Null)]);
    assert!(next_wizard_of(&finish).expect("ok").is_none());
}

fn resolve_cause(finish: &JsonValue) -> (String, String) {
    match next_wizard_of(finish).expect_err("invalid") {
        WorkflowError::Resolve { path, cause } => (path, cause),
        other => panic!("expected resolve, got {other:?}"),
    }
}

#[test]
fn next_wizard_shape_failures() {
    let hop = |v: JsonValue| object(vec![("next_wizard", v)]);
    assert_eq!(
        resolve_cause(&hop(jstr("a.json"))),
        (s(""), s("next_wizard is invalid: expected an object"))
    );
    assert_eq!(
        resolve_cause(&hop(object(vec![("input", object(vec![]))]))),
        (s(""), s("next_wizard is invalid: missing field `path`"))
    );
    assert_eq!(
        resolve_cause(&hop(object(vec![("path", JsonValue::Bool(true))]))),
        (s(""), s("next_wizard is invalid: `path` must be a string"))
    );
    assert_eq!(
        resolve_cause(&hop(object(vec![("path", jstr("w.json")), ("ui_root", JsonValue::Number(s("1")))]))),
        (s(""), s("next_wizard is invalid: `ui_root` must be a string"))
    );
}

#[test]
fn next_wizard_reads_path_ui_root_and_input() {
    let finish = object(vec![(
        "next_wizard",
        object(vec![
            ("path", jstr("{wyvern_share}/w/wizard.json")),
            ("ui_root", jstr("ui")),
            ("input", object(vec![("k", jstr("v"))])),
        ]),
    )]);
    let hop = next_wizard_of(&finish).expect("ok").expect("some");
    assert_eq!(hop.path, "{wyvern_share}/w/wizard.json");
    assert_eq!(hop.ui_root.as_deref(), Some("ui"));
    assert_eq!(hop.input, object(vec![("k", jstr("v"))]));
    let bare = object(vec![("next_wizard", object(vec![("path", jstr("w.json")), ("ui_root", JsonValue::Null)]))]);
    let hop = next_wizard_of(&bare).expect("ok").expect("some");
    assert_eq!(hop.ui_root, None);
    assert_eq!(hop.input, JsonValue::Null);
}

#[test]
fn next_wizard_command_failures_name_the_path() {
    let read = Err(LoadError::Io { field: s("file"), message: s("no such file") });
    match next_wizard_command("w.json", read).expect_err("io") {
        WorkflowError::Resolve { path, cause } => {
            assert_eq!(path, "w.json");
            assert_eq!(cause, "no such file");
        }
        other => panic!("unexpected {other:?}"),
    }
    let parser = serde_json::from_str::<serde_json::Value>("nope").unwrap_err().to_string();
    match next_wizard_command("w.json", Ok(s("nope"))).expect_err("parse") {
        WorkflowError::Resolve { path, cause } => {
            assert_eq!(path, "w.json");
            assert_eq!(cause, format!("wizard.json is not JSON: {parser}"));
        }
        other => panic!("unexpected {other:?}"),
    }
    let v = next_wizard_command("w.json", Ok(s(r#"{"type":"wizard"}"#))).expect("ok");
    assert_eq!(member(&v, "type"), Some(&jstr("wizard")));
}

/// Runs the hop the way the binary does: resolve the path through the
/// allowlist, read it (`body` is what the read gives), walk its
/// directories, resolve `ui_root`.
fn run_hop(
    allow: &Allowlist,
    hop: NextWizardSpec,
    body: &str,
) -> Result<wyvern::chain::NextInvocation, WorkflowError> {
    let roots: Vec<String> = [&allow.share_root, &allow.cwd, &allow.wizard_dir]
        .iter()
        .filter_map(|r| canonical(r))
        .collect();
    let tries = allow.resolve_tries(&hop.path);
    let canon: Vec<Option<String>> = tries.iter().map(|t| canonical(t)).collect();
    let wizard_path = allow.resolve_allowed(&hop.path, &roots, &canon)?;
    let body: Result<String, LoadError> = Ok(s(body));
    let start = Path::new(&wizard_path).parent().expect("parent").to_path_buf();
    let ancestors: Vec<String> = start.ancestors().map(text).collect();
    let is_root: Vec<bool> = start
        .ancestors()
        .map(|d| d.join("wizard.json").is_file() || d.join("pages").is_dir())
        .collect();
    let ui_canon: Vec<Option<String>> = match &hop.ui_root {
        Some(u) => allow.resolve_tries(u).iter().map(|t| canonical(t)).collect(),
        None => Vec::new(),
    };
    resolve_next_wizard(allow, hop, body, &text(&start), &ancestors, &is_root, &roots, &ui_canon)
}

#[test]
fn resolve_next_wizard_carries_typed_input() {
    let tmp = tempfile::tempdir().expect("tmp");
    let body = r#"{"type":"wizard","page":{"id":"a","title":"T","html":"a.html"}}"#;
    let f = file_in(tmp.path(), "wizard.json", body);
    let wizard = f.path().to_path_buf();
    let root = text(tmp.path());
    let allow = Allowlist { share_root: root.clone(), cwd: root.clone(), wizard_dir: root };
    let finish = object(vec![
        ("button", jstr("finish")),
        (
            "next_wizard",
            object(vec![("path", jstr(&text(&wizard))), ("input", object(vec![("from", jstr("a"))]))]),
        ),
    ]);
    let hop = next_wizard_of(&finish).expect("ok").expect("some");
    let next = run_hop(&allow, hop, &read_back(&f)).expect("ok");
    assert_eq!(next.input, object(vec![("from", jstr("a"))]));
    assert_eq!(member(&next.command, "type"), Some(&jstr("wizard")));
    assert_eq!(next.ui_root, next.wizard_dir);
    assert_eq!(Some(next.wizard_dir), canonical(&text(tmp.path())));
}

#[test]
fn resolve_next_wizard_reports_bad_json_before_ui_root() {
    let tmp = tempfile::tempdir().expect("tmp");
    let f = file_in(tmp.path(), "wizard.json", "{broken");
    let wizard = f.path().to_path_buf();
    let root = text(tmp.path());
    let allow = Allowlist { share_root: root.clone(), cwd: root.clone(), wizard_dir: root };
    let hop = NextWizardSpec {
        path: text(&wizard),
        ui_root: Some(s("../../../../outside")),
        input: JsonValue::Null,
    };
    match run_hop(&allow, hop, &read_back(&f)).expect_err("bad json") {
        WorkflowError::Resolve { path, cause } => {
            assert_eq!(path, text(&wizard));
            assert!(cause.starts_with("wizard.json is not JSON: "), "{cause}");
        }
        other => panic!("unexpected {other:?}"),
    }
}

#[test]
fn resolve_next_wizard_denies_an_escaping_ui_root() {
    let tmp = tempfile::tempdir().expect("tmp");
    let f = file_in(tmp.path(), "wizard.json", r#"{"type":"wizard"}"#);
    let wizard = f.path().to_path_buf();
    let root = text(tmp.path());
    let allow = Allowlist { share_root: root.clone(), cwd: root.clone(), wizard_dir: root };
    let hop = NextWizardSpec {
        path: text(&wizard),
        ui_root: Some(s("../../../../../../etc")),
        input: JsonValue::Null,
    };
    assert!(matches!(
        run_hop(&allow, hop, &read_back(&f)).expect_err("escape"),
        WorkflowError::PathDenied { .. }
    ));
}
