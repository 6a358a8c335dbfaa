use wyvern::cli::{parse_cli_flags, FlagValue};
use wyvern::cli::{input_file_open_error, input_text, MAX_CLI_INPUT_BYTES};
use wyvern::expand::FileRead;
use wyvern::preexec::{output_parent_error, tmpdir_create_error};
use wyvern::allowlist::Allowlist;
use wyvern::cli::{
    check_input_len, check_stdin_text, cli_step, default_ui_root_with, input_source,
    invalid_bind_error, invalid_viewer_error, ui_root_candidates, usage_message, CliStep,
    InputSource,
};
use wyvern::errors::{BuiltinDomain, ExtensionError, LoadError, PreexecFailureKind, UsageErrorKind};
use wyvern::json::{deep_merge, JsonValue};
use wyvern::matching::PathRequiresProbe;
use wyvern::page_walk::{PageRole, PageWalk};
use wyvern::preexec::{
    append_tail, capture_timeout_error, check_captured_len, first_rendered_html, nonzero_error,
    parse_preexec_timeout_secs, preexec_fail_message, preexec_output_targets, spawn_error,
    wait_timeout_error, ScriptError, DEFAULT_PREEXEC_TIMEOUT_SECS,
};
use wyvern::text::u64_to_decimal;
use wyvern::wizard::{
    finish_wizard_lint, run_wizard_command, PackageLint, WizardCmdError, WizardCmdResult,
    WizardLintStageError,
};
use wyvern::workflow::{
    emit_workflow_error, map_script_error, merge_wizard_config, parse_config_patch,
    script_exit_result, workflow_script_argv, WorkflowError,
};

fn s(v: &str) -> String {
    v.to_string()
}

fn args(items: &[&str]) -> Vec<String> {
    items.iter().map(|a| s(a)).collect()
}

fn num(n: &str) -> JsonValue {
    JsonValue::Number(s(n))
}

fn object(members: Vec<(&str, JsonValue)>) -> JsonValue {
    JsonValue::Object(members.into_iter().map(|(k, v)| (s(k), v)).collect())
}

/// The same value with object members sorted by name (JSON objects are
/// compared without regard to member order).
fn sorted(v: &JsonValue) -> JsonValue {
    match v {
        JsonValue::Null => JsonValue::Null,
        JsonValue::Bool(b) => JsonValue::Bool(*b),
        JsonValue::Number(n) => JsonValue::Number(n.clone()),
        JsonValue::Str(t) => JsonValue::Str(t.clone()),
        JsonValue::Array(items) => JsonValue::Array(items.iter().map(sorted).collect()),
        JsonValue::Object(members) => {
            let mut out: Vec<(String, JsonValue)> =
                members.iter().map(|(k, v)| (k.clone(), sorted(v))).collect();
            out.sort_by(|a, b| a.0.cmp(&b.0));
            JsonValue::Object(out)
        }
    }
}

#[test]
fn merge_deep_objects_replace_arrays() {
    let base = object(vec![
        ("a", object(vec![("x", num("1")), ("y", num("2"))])),
        ("keep", JsonValue::Bool(true)),
        ("list", JsonValue::Array(vec![num("1")])),
    ]);
    let input = object(vec![
        ("a", object(vec![("y", num("9")), ("z", num("3"))])),
        ("list", JsonValue::Array(vec![num("2"), num("3")])),
    ]);
    let patch = object(vec![("extra", JsonValue::Bool(false))]);
    let merged = merge_wizard_config(base, input, Some(patch)).expect("merge");
    let expected = object(vec![
        ("a", object(vec![("x", num("1")), ("y", num("9")), ("z", num("3"))])),
        ("keep", JsonValue::Bool(true)),
        ("list", JsonValue::Array(vec![num("2"), num("3")])),
        ("extra", JsonValue::Bool(false)),
    ]);
    assert_eq!(sorted(&merged), sorted(&expected));
}

#[test]
fn merge_rejects_non_object_input() {
    let err = merge_wizard_config(object(vec![]), JsonValue::Array(vec![]), None).expect_err("input");
    assert!(matches!(err, WorkflowError::Merge { .. }));
}

#[test]
fn merge_rejects_non_object_patch() {
    let err = merge_wizard_config(object(vec![]), object(vec![]), Some(num("1"))).expect_err("patch");
    match err {
        WorkflowError::Merge { cause } => assert_eq!(cause, "config_patch must be a JSON object"),
        other => panic!("expected Merge, got {other:?}"),
    }
}

#[test]
fn deep_merge_overlay_scalar_replaces_object() {
    let base = object(vec![("a", object(vec![("x", num("1"))]))]);
    let overlay = object(vec![("a", num("5"))]);
    let merged = deep_merge(base, &overlay);
    assert_eq!(sorted(&merged), sorted(&object(vec![("a", num("5"))])));
}

#[test]
fn parse_config_patch_requires_object() {
    let err = parse_config_patch(Ok(JsonValue::Array(vec![]))).expect_err("array");
    assert!(matches!(err, WorkflowError::InvalidStdout { .. }));
    let patch = parse_config_patch(Ok(object(vec![(
        "config_patch",
        object(vec![("k", num("1"))]),
    )])))
    .expect("ok");
    assert_eq!(patch, object(vec![("k", num("1"))]));
}

#[test]
fn parse_config_patch_messages() {
    let err = parse_config_patch(Err(s("expected value at line 1"))).expect_err("text");
    assert_eq!(err.cause(), "pre stdout is not JSON: expected value at line 1");
    let err = parse_config_patch(Ok(object(vec![("config_patch", num("1"))]))).expect_err("num");
    assert_eq!(err.cause(), "config_patch must be a JSON object");
    let err = parse_config_patch(Ok(object(vec![
        ("config_patch", object(vec![])),
        ("other", num("1")),
    ])))
    .expect_err("two");
    assert_eq!(err.cause(), "pre stdout must be an object with only config_patch");
}

struct TempRoots {
    _top: tempfile::TempDir,
    share: tempfile::TempDir,
    cwd: tempfile::TempDir,
    wizard: tempfile::TempDir,
}

fn temp_roots() -> TempRoots {
    let top = tempfile::tempdir().expect("tmp");
    let dir = |name: &str| {
        tempfile::Builder::new()
            .prefix(name)
            .tempdir_in(top.path())
            .expect("dir")
    };
    let share = dir("share");
    let cwd = dir("cwd");
    let wizard = dir("wizard");
    TempRoots { _top: top, share, cwd, wizard }
}

fn text(p: &std::path::Path) -> String {
    p.to_string_lossy().into_owned()
}

fn allowlist(roots: &TempRoots) -> Allowlist {
    Allowlist {
        share_root: text(roots.share.path()),
        cwd: text(roots.cwd.path()),
        wizard_dir: text(roots.wizard.path()),
    }
}

fn resolve(allow: &Allowlist, raw: &str) -> Result<String, WorkflowError> {
    let roots: Vec<String> = [&allow.share_root, &allow.cwd, &allow.wizard_dir]
        .iter()
        .filter_map(|p| std::path::Path::new(p.as_str()).canonicalize().ok())
        .map(|p| text(&p))
        .collect();
    let tries = allow.resolve_tries(raw);
    let canonical: Vec<Option<String>> = tries
        .iter()
        .map(|t| std::path::Path::new(t.as_str()).canonicalize().ok().map(|p| text(&p)))
        .collect();
    allow.resolve_allowed(raw, &roots, &canonical)
}

#[test]
fn resolve_allowed_rejects_escape() {
    let roots = temp_roots();
    let allow = allowlist(&roots);
    let err = resolve(&allow, "../../../../etc/passwd").expect_err("escape");
    assert!(matches!(err, WorkflowError::PathDenied { .. }), "{err:?}");
}

#[test]
fn resolve_allowed_accepts_share_script_under_root() {
    let roots = temp_roots();
    let allow = allowlist(&roots);
    let script = tempfile::Builder::new()
        .prefix("pre")
        .suffix(".sh")
        .tempfile_in(roots.share.path())
        .expect("script");
    let name = text(script.path().file_name().expect("name").as_ref());
    let path = resolve(&allow, &format!("{{wyvern_share}}/{name}")).expect("allowed");
    let share = roots.share.path().canonicalize().expect("share");
    assert!(std::path::Path::new(&path).starts_with(&share), "{path}");
    let missing = resolve(&allow, "nothing-here.sh").expect_err("missing");
    match missing {
        WorkflowError::Resolve { path, cause } => {
            assert_eq!(path, "nothing-here.sh");
            assert!(cause.starts_with("path does not exist: "), "{cause}");
        }
        other => panic!("expected Resolve, got {other:?}"),
    }
}

#[test]
fn allowlist_expands_every_share_reference() {
    let allow = Allowlist {
        share_root: s("/opt/share"),
        cwd: s("/work"),
        wizard_dir: s("/work/wiz"),
    };
    assert_eq!(
        allow.expand("{wyvern_share}/a/{wyvern_share}"),
        "/opt/share/a//opt/share"
    );
    assert_eq!(allow.resolve_tries("{wyvern_share}/x.py"), vec!["/opt/share/x.py"]);
    assert_eq!(
        allow.resolve_tries("x.py"),
        vec!["/opt/share/x.py", "/work/x.py", "/work/wiz/x.py"]
    );
}

#[test]
fn workflow_error_texts() {
    let err = WorkflowError::NonZero { status: -3, stderr_tail: s("boom") };
    assert_eq!(err.message(), "workflow script exited with status -3: boom");
    assert_eq!(err.cause(), "boom");
    assert_eq!(err.subcode(), "nonzero");
    let quiet = WorkflowError::NonZero { status: 2, stderr_tail: s("") };
    assert_eq!(quiet.message(), "workflow script exited with status 2");
    assert_eq!(quiet.cause(), "script exit was not 0");
    let depth = WorkflowError::ChainDepth { max: 16 };
    assert_eq!(depth.message(), "next_wizard chain exceeded maximum depth of 16");
    assert_eq!(depth.cause(), "17th hop requested; max is 16");
    assert_eq!(depth.recovery(), vec!["Keep chains \u{2264} 16"]);
    let json = emit_workflow_error(&depth).expect("emit");
    let value: serde_json::Value = serde_json::from_str(&json).expect("json");
    assert_eq!(value["code"], "WORKFLOW_ERROR");
    assert_eq!(value["subcode"], "chain_depth");
    assert_eq!(value["message"], "next_wizard chain exceeded maximum depth of 16");
}

#[test]
fn script_errors_map_to_workflow_errors() {
    let e = map_script_error(ScriptError::SpawnNotFound { cmd: s("python3"), source: s("nope") });
    assert!(matches!(e, WorkflowError::MissingPython3));
    let e = map_script_error(ScriptError::SpawnNotFound { cmd: s("/x/pre.sh"), source: s("nope") });
    assert!(matches!(e, WorkflowError::Resolve { ref path, ref cause } if path == "/x/pre.sh" && cause == "nope"));
    let e = map_script_error(ScriptError::Timeout {
        cmd: s("pre"),
        timeout_secs: 30,
        stderr_tail: s("late"),
    });
    assert!(matches!(e, WorkflowError::Timeout { ref stderr_tail } if stderr_tail == "late"));
    let e = map_script_error(ScriptError::Thread { message: s("no thread") });
    assert!(matches!(e, WorkflowError::Resolve { ref path, ref cause } if path.is_empty() && cause == "no thread"));
    let timeout = ScriptError::Timeout { cmd: s("pre"), timeout_secs: 30, stderr_tail: s("") };
    assert_eq!(timeout.message(), "pre timed out after 30s");
    assert!(script_exit_result(true, Some(0), s("")).is_ok());
    let err = script_exit_result(false, None, s("tail")).expect_err("signal");
    assert!(matches!(err, WorkflowError::NonZero { status: 1, .. }));
}

#[test]
fn workflow_argv_runs_python_scripts_under_python3() {
    let with = PathRequiresProbe { found: vec![s("python3")] };
    let without = PathRequiresProbe { found: vec![] };
    assert_eq!(
        workflow_script_argv("/s/pre.py", true, &with).expect("argv"),
        vec!["python3", "/s/pre.py", "--dry-run"]
    );
    assert!(matches!(
        workflow_script_argv("/s/pre.py", false, &without),
        Err(WorkflowError::MissingPython3)
    ));
    assert_eq!(workflow_script_argv("/s/pre.sh", false, &without).expect("argv"), vec!["/s/pre.sh"]);
}

#[test]
fn preexec_timeout_zero_is_rejected() {
    let err = parse_preexec_timeout_secs(Some("0")).expect_err("zero");
    assert!(
        matches!(err, ExtensionError::Preexec { ref message, .. } if message.contains("at least 1")),
        "{err:?}"
    );
    assert_eq!(
        parse_preexec_timeout_secs(None).expect("default"),
        DEFAULT_PREEXEC_TIMEOUT_SECS
    );
}

#[test]
fn preexec_timeout_values() {
    assert_eq!(parse_preexec_timeout_secs(Some("45")).expect("45"), 45);
    assert_eq!(parse_preexec_timeout_secs(Some("+7")).expect("+7"), 7);
    assert_eq!(
        parse_preexec_timeout_secs(Some("18446744073709551615")).expect("max"),
        u64::MAX
    );
    for bad in ["abc", "", "+", "-1", " 5", "18446744073709551616"] {
        match parse_preexec_timeout_secs(Some(bad)).expect_err(bad) {
            ExtensionError::Preexec { kind: None, message } => assert_eq!(
                message,
                format!("WYVERN_PREEXEC_TIMEOUT_SECS={bad} is not a positive integer")
            ),
            other => panic!("expected Preexec, got {other:?}"),
        }
    }
}

#[test]
fn spawn_error_maps_not_found_vs_other() {
    let not_found = spawn_error("missing-bin", true, "nope");
    assert!(
        matches!(
            not_found,
            ExtensionError::Preexec {
                kind: Some(PreexecFailureKind::SpawnNotFound { ref cmd }),
                ..
            } if cmd == "missing-bin"
        ),
        "{not_found:?}"
    );
    let denied = spawn_error("locked-bin", false, "denied");
    assert!(
        matches!(denied, ExtensionError::Preexec { kind: None, .. }),
        "{denied:?}"
    );
}

#[test]
fn preexec_failure_messages() {
    assert_eq!(preexec_fail_message("csv", "exit status: 1", ""), "'csv' exited with exit status: 1");
    assert_eq!(
        preexec_fail_message("csv", "exit status: 1", "bad row"),
        "'csv' exited with exit status: 1: bad row"
    );
    match nonzero_error("csv", None, "signal: 9", s("killed")) {
        ExtensionError::Preexec {
            kind: Some(PreexecFailureKind::NonZeroExit { code, stderr_tail }),
            message,
        } => {
            assert_eq!(code, 1);
            assert_eq!(stderr_tail, "killed");
            assert_eq!(message, "'csv' exited with signal: 9: killed");
        }
        other => panic!("expected NonZeroExit, got {other:?}"),
    }
    match wait_timeout_error("slow", 30) {
        ExtensionError::Preexec { message, .. } => assert_eq!(message, "slow timed out after 30s"),
        other => panic!("{other:?}"),
    }
    match capture_timeout_error("slow", 5, "partial") {
        ExtensionError::Preexec { message, .. } => {
            assert_eq!(message, "'slow' exited with timed out after 5s: partial")
        }
        other => panic!("{other:?}"),
    }
    assert!(check_captured_len("dd", 1048576).is_ok());
    match check_captured_len("dd", 1048577).expect_err("cap") {
        ExtensionError::Preexec { message, .. } => {
            assert_eq!(message, "dd stdout exceeded 1048576 bytes");
            assert!(message.contains("exceeded"));
        }
        other => panic!("{other:?}"),
    }
}

#[test]
fn stderr_tail_keeps_last_bytes_across_chunks() {
    let mut chunked = Vec::new();
    append_tail(&mut chunked, b"abcdef", 4);
    append_tail(&mut chunked, b"gh", 4);
    let mut whole = Vec::new();
    append_tail(&mut whole, b"abcdefgh", 4);
    assert_eq!(chunked, b"efgh".to_vec());
    assert_eq!(chunked, whole);
    let mut short = b"ab".to_vec();
    append_tail(&mut short, b"c", 4);
    assert_eq!(short, b"abc".to_vec());
}

#[test]
fn first_rendered_html_picks_lexicographic_first() {
    let names = args(&["zzz.html", "readme.txt", "foo.html", "Bar.HTML"]);
    assert_eq!(first_rendered_html("/t/pages", &names).expect("html"), "Bar.HTML");
    let names = args(&["zzz.html", "foo.html"]);
    assert_eq!(first_rendered_html("/t/pages", &names).expect("html"), "foo.html");
    match first_rendered_html("/t/pages", &args(&["a.txt"])).expect_err("none") {
        ExtensionError::Template { message, .. } => {
            assert_eq!(message, "{rendered_basename} found no *.html under /t/pages")
        }
        other => panic!("{other:?}"),
    }
}

#[test]
fn output_targets_follow_output_flag() {
    let a = args(&["--root", "r", "--output", "{tmpdir}/pages/a.html", "--output"]);
    assert_eq!(preexec_output_targets(&a), vec!["{tmpdir}/pages/a.html"]);
    let b = args(&["--output", "--output", "x"]);
    assert_eq!(preexec_output_targets(&b), vec!["--output", "x"]);
}

fn walk_cli(a: &[String]) -> Result<(Option<String>, Option<String>, Option<String>, Vec<String>), LoadError> {
    let v = a.to_vec();
    let mut i = 0;
    let (mut bind, mut ui_root, mut viewer, mut positionals) = (None, None, None, Vec::new());
    loop {
        match cli_step(&v, i)? {
            CliStep::Bind { value, next } => {
                bind = Some(value);
                i = next;
            }
            CliStep::UiRoot { value, next } => {
                ui_root = Some(value);
                i = next;
            }
            CliStep::Viewer { value, next } => {
                viewer = Some(value);
                i = next;
            }
            CliStep::AllowNonLoopback { next } => i = next,
            CliStep::Positional { value, next } => {
                positionals.push(value);
                i = next;
            }
            CliStep::Done => return Ok((bind, ui_root, viewer, positionals)),
        }
    }
}

#[test]
fn parse_ui_root_and_bind() {
    let (bind, ui_root, _, positionals) = walk_cli(&args(&[
        "--ui-root",
        "./custom-ui",
        "--bind",
        "127.0.0.1:0",
        r#"{"type":"message"}"#,
    ]))
    .expect("parse");
    assert_eq!(ui_root.as_deref(), Some("./custom-ui"));
    assert_eq!(bind.as_deref(), Some("127.0.0.1:0"));
    assert_eq!(positionals.len(), 1);
}

#[test]
fn parse_rejects_unknown_flag() {
    let err = walk_cli(&args(&["--nope"])).expect_err("flag");
    assert!(matches!(err, LoadError::Usage { .. }));
}

#[test]
fn parse_bind_rejects_invalid_with_recovery_hint() {
    let err = invalid_bind_error("not-an-addr", "invalid socket address syntax");
    let LoadError::Usage { message, .. } = err else {
        panic!("expected Usage");
    };
    assert!(message.contains("invalid --bind"), "{message}");
    assert!(message.contains("Recovery:"), "{message}");
    assert!(message.contains("--allow-non-loopback"), "{message}");
}

#[test]
fn cli_steps_cover_each_flag_form() {
    let (bind, _, viewer, positionals) =
        walk_cli(&args(&["--bind=0.0.0.0:9", "--allow-non-loopback", "--viewer=none", "-V"]))
            .expect("parse");
    assert_eq!(bind.as_deref(), Some("0.0.0.0:9"));
    assert_eq!(viewer.as_deref(), Some("none"));
    assert_eq!(positionals, vec!["-V"]);
    match walk_cli(&args(&["x.json", "--viewer"])).expect_err("missing") {
        LoadError::Usage { kind: UsageErrorKind::MissingFlagValue { flag }, message } => {
            assert_eq!(flag, "--viewer");
            assert!(message.starts_with("missing value for --viewer\nUsage: wyvern"), "{message}");
        }
        other => panic!("{other:?}"),
    }
    match invalid_viewer_error("tv") {
        LoadError::Usage { kind: UsageErrorKind::InvalidViewer { value }, message } => {
            assert_eq!(value, "tv");
            assert!(message.starts_with(
                "invalid --viewer 'tv' (expected embedded|none|system|chrome|safari|edge|firefox)\n"
            ));
        }
        other => panic!("{other:?}"),
    }
    assert!(usage_message().ends_with("or pipe JSON on stdin."));
}

#[test]
fn default_ui_root_falls_back_to_ui_when_nothing_found() {
    let tmp = tempfile::tempdir().expect("tempdir");
    let cwd = tmp.path().to_string_lossy().into_owned();
    let candidates = ui_root_candidates(Some(&cwd), None);
    let is_dir: Vec<bool> = candidates.iter().map(|c| std::path::Path::new(c).is_dir()).collect();
    let root = default_ui_root_with(None, &candidates, &is_dir).unwrap_or_else(|| s("ui"));
    assert_eq!(root, "ui");
}

#[test]
fn ui_root_prefers_override_then_first_directory() {
    let candidates = ui_root_candidates(Some("/w"), Some("/e"));
    assert_eq!(
        candidates,
        vec!["/w/ui", "/w/share/wyvern/ui", "/e/share/wyvern/ui", "/e/ui"]
    );
    let is_dir = vec![false, false, true, true];
    assert_eq!(default_ui_root_with(None, &candidates, &is_dir).as_deref(), Some("/e/share/wyvern/ui"));
    assert_eq!(default_ui_root_with(Some("/custom"), &candidates, &is_dir).as_deref(), Some("/custom"));
}

#[test]
fn input_two_positional_args_is_usage() {
    let err = input_source(&args(&["a", "b"])).expect_err("two args");
    assert!(matches!(err, LoadError::Usage { .. }));
}

#[test]
fn input_unknown_flag_is_usage() {
    let err = input_source(&args(&["--unknown-flag"])).expect_err("flag");
    assert!(matches!(err, LoadError::Usage { .. }));
}

#[test]
fn input_two_file_paths_is_usage() {
    let err = input_source(&args(&["file.json", "other.json"])).expect_err("two files");
    assert!(matches!(err, LoadError::Usage { .. }));
}

#[test]
fn input_no_args_empty_stdin_is_usage() {
    assert!(matches!(input_source(&vec![]).expect("stdin"), InputSource::Stdin));
    let err = check_stdin_text("").expect_err("empty stdin");
    assert!(matches!(err, LoadError::Usage { .. }));
}

#[test]
fn input_stdin_rejects_oversize() {
    let huge = format!(r#"{{"type":"chrome","title":"{}"}}"#, "x".repeat(1024 * 1024));
    let err = check_input_len("stdin", "stdin", huge.len()).expect_err("oversize stdin");
    match err {
        LoadError::Io { field, message } => {
            assert_eq!(field, "stdin");
            assert!(message.contains("exceeds maximum"), "{message}");
        }
        other => panic!("expected Io, got {other:?}"),
    }
}

#[test]
fn input_source_tells_json_files_from_inline_text() {
    match input_source(&args(&["cmd.JSON"])).expect("file") {
        InputSource::JsonFile(p) => assert_eq!(p, "cmd.JSON"),
        _ => panic!("expected a .json file"),
    }
    match input_source(&args(&[r#"{"type":"message"}"#])).expect("inline") {
        InputSource::Inline(t) => assert_eq!(t, r#"{"type":"message"}"#),
        _ => panic!("expected inline JSON"),
    }
    assert!(check_stdin_text("  {}  ").is_ok());
}

#[test]
fn unknown_wizard_subcommand_is_usage_error() {
    let err = run_wizard_command(&["dump".into()]).expect_err("should err");
    match err {
        WizardCmdError::Usage { kind, message } => {
            assert!(
                matches!(
                    kind,
                    UsageErrorKind::UnknownSubcommand { domain, ref token }
                        if domain == BuiltinDomain::Wizard && token == "dump"
                ),
                "{kind:?}"
            );
            assert!(message.contains("unknown wizard subcommand"), "{message}");
        }
        other => panic!("expected Usage, got {other:?}"),
    }
}

#[test]
fn wizard_lint_no_args_is_generic_usage_error() {
    let err = run_wizard_command(&["lint".into()]).expect_err("should err");
    match err {
        WizardCmdError::Usage { kind, message } => {
            assert_eq!(kind, UsageErrorKind::Generic);
            assert!(message.contains("requires at least one"), "{message}");
        }
        other => panic!("expected Usage, got {other:?}"),
    }
}

#[test]
fn wizard_lint_summaries() {
    let clean = finish_wizard_lint(vec![Ok(PackageLint { findings: vec![], pages: 1 })]).expect("clean");
    match clean {
        WizardCmdResult::Clean(t) => assert_eq!(t, "Checked 1 page \u{2014} no findings.\n"),
        _ => panic!("expected clean"),
    }
    let two = finish_wizard_lint(vec![
        Ok(PackageLint { findings: vec![], pages: 2 }),
        Ok(PackageLint { findings: vec![], pages: 3 }),
    ])
    .expect("clean");
    match two {
        WizardCmdResult::Clean(t) => {
            assert_eq!(t, "Checked 2 package(s), 5 pages total \u{2014} no findings.\n")
        }
        _ => panic!("expected clean"),
    }
    let failed = finish_wizard_lint(vec![
        Ok(PackageLint { findings: vec![s("x")], pages: 1 }),
        Err(WizardLintStageError::Io { path: s("w/wizard.json"), message: s("missing") }),
    ])
    .expect_err("stage");
    assert!(matches!(failed, WizardCmdError::Stage(WizardLintStageError::Io { .. })));
}

#[test]
fn page_walk_reads_each_page_once() {
    let mut walk = PageWalk::start("start", "pages/start.html");
    let first = walk.next_page().expect("entry");
    assert_eq!(first.html, "pages/start.html");
    assert_eq!(first.role, PageRole::Entry);
    walk.enqueue("two", "pages/two.html", "start");
    walk.enqueue("again", "pages/start.html", "start");
    walk.enqueue("two-b", "pages/two.html", "start");
    let second = walk.next_page().expect("two");
    assert_eq!(second.id, "two");
    assert_eq!(second.role, PageRole::Inner);
    assert!(walk.next_page().is_none());
    assert_eq!(walk.visited().clone(), vec!["pages/start.html", "pages/two.html"]);
    assert_eq!(walk.edges().clone(), vec![(s("start"), s("two"))]);
}

#[test]
fn decimal_text_of_numbers() {
    assert_eq!(u64_to_decimal(120), "120");
    assert_eq!(u64_to_decimal(0), "0");
}

use wyvern::viewer::{resolve_viewer_bin_with, ViewerProbe, ViewerSpawnError};
use wyvern::workflow::{finish_pre, WorkflowRunner};

#[test]
fn resolve_prefers_wyvern_viewer_bin_override() {
    let probe = ViewerProbe {
        sibling: None,
        cargo_bin_exe: None,
        wyvern_viewer_bin: Some((s("/tmp/x/wyvern-viewer"), true, true)),
        on_path: None,
    };
    assert_eq!(resolve_viewer_bin_with(&probe).expect("override"), "/tmp/x/wyvern-viewer");
}

#[test]
fn resolve_errors_when_override_missing() {
    let probe = ViewerProbe {
        sibling: None,
        cargo_bin_exe: None,
        wyvern_viewer_bin: Some((s("/tmp/x/no-such-viewer"), false, false)),
        on_path: None,
    };
    let err = resolve_viewer_bin_with(&probe).expect_err("missing");
    assert!(matches!(err, ViewerSpawnError::NotFound { .. }));
    assert_eq!(
        err.message(),
        "wyvern-viewer not found; WYVERN_VIEWER_BIN='/tmp/x/no-such-viewer' is not an executable file; install wyvern-viewer or fix the path"
    );
}

#[test]
fn resolve_prefers_sibling_before_path() {
    let probe = ViewerProbe {
        sibling: Some(s("/tmp/x/wyvern-viewer")),
        cargo_bin_exe: None,
        wyvern_viewer_bin: None,
        on_path: Some(s("/tmp/x/other-viewer")),
    };
    assert_eq!(resolve_viewer_bin_with(&probe).expect("sibling"), "/tmp/x/wyvern-viewer");
}

#[test]
fn non_executable_override_names_the_problem() {
    let probe = ViewerProbe {
        sibling: None,
        cargo_bin_exe: Some((s("/c/wyvern-viewer"), false)),
        wyvern_viewer_bin: Some((s("/tmp/x/not-exec"), false, true)),
        on_path: Some(s("/p/wyvern-viewer")),
    };
    match resolve_viewer_bin_with(&probe).expect_err("not executable") {
        ViewerSpawnError::NotFound { hint } => assert!(hint.contains("not executable"), "{hint}"),
        other => panic!("{other:?}"),
    }
    let none = ViewerProbe { sibling: None, cargo_bin_exe: None, wyvern_viewer_bin: None, on_path: None };
    assert!(matches!(resolve_viewer_bin_with(&none), Err(ViewerSpawnError::NotFound { .. })));
}

#[test]
fn workflow_runner_plans_python_hook_with_env() {
    let roots = temp_roots();
    let allow = allowlist(&roots);
    let script = tempfile::Builder::new()
        .prefix("pre")
        .suffix(".py")
        .tempfile_in(roots.share.path())
        .expect("script");
    let name = text(script.path().file_name().expect("name").as_ref());
    let raw = format!("{{wyvern_share}}/{name}");
    let croots: Vec<String> = [&allow.share_root, &allow.cwd, &allow.wizard_dir]
        .iter()
        .filter_map(|p| std::path::Path::new(p.as_str()).canonicalize().ok())
        .map(|p| text(&p))
        .collect();
    let tries = allow.resolve_tries(&raw);
    let canonical: Vec<Option<String>> = tries
        .iter()
        .map(|t| std::path::Path::new(t.as_str()).canonicalize().ok().map(|p| text(&p)))
        .collect();
    let cwd = allow.cwd.clone();
    let share = allow.share_root.clone();
    let runner = WorkflowRunner { allowlist: allow, timeout_secs: 30 };
    let with = PathRequiresProbe { found: vec![s("python3")] };
    let plan = runner
        .plan_script(&raw, &croots, &canonical, true, true, &with, None, "/bin/wyvern")
        .expect("plan");
    assert_eq!(plan.program, "python3");
    assert_eq!(plan.args.len(), 2);
    assert!(plan.args[0].ends_with(".py"));
    assert_eq!(plan.args[1], "--dry-run");
    assert_eq!(plan.cwd, cwd);
    assert_eq!(
        plan.env,
        vec![
            (s("WYVERN_SHARE"), share),
            (s("WYVERN_REPO_ROOT"), cwd.clone()),
            (s("WYVERN_BIN"), s("/bin/wyvern")),
        ]
    );
    assert_eq!(plan.timeout_secs, 30);
    let without = PathRequiresProbe { found: vec![] };
    let err = runner
        .plan_script(&raw, &croots, &canonical, false, true, &without, Some("/repo"), "/bin/wyvern")
        .expect_err("python3");
    assert!(matches!(err, WorkflowError::MissingPython3));
}

#[test]
fn finish_pre_merges_patch_or_fails() {
    let config = object(vec![("a", num("1")), ("b", object(vec![("c", num("2"))]))]);
    let stdout = Ok(object(vec![("config_patch", object(vec![("b", object(vec![("d", num("3"))]))]))]));
    let merged = finish_pre(config, true, Some(0), s(""), stdout).expect("merged");
    let expected = object(vec![
        ("a", num("1")),
        ("b", object(vec![("c", num("2")), ("d", num("3"))])),
    ]);
    assert_eq!(sorted(&merged), sorted(&expected));
    let failed = finish_pre(object(vec![]), false, Some(3), s("bad"), Ok(object(vec![])))
        .expect_err("nonzero");
    assert!(matches!(failed, WorkflowError::NonZero { status: 3, .. }));
    let shape = finish_pre(object(vec![]), true, Some(0), s(""), Ok(JsonValue::Null)).expect_err("shape");
    assert_eq!(shape.cause(), "pre stdout must be one JSON object");
}

#[test]
fn tmpdir_and_output_parent_failures_are_io_errors() {
    let e = tmpdir_create_error("Permission denied (os error 13)");
    assert!(matches!(e, ExtensionError::Io { ref message }
        if message == "could not create extension temp dir: Permission denied (os error 13)"));
    let e = output_parent_error("/ro/out", "Read-only file system (os error 30)");
    assert!(matches!(e, ExtensionError::Io { ref message }
        if message == "could not create preexec output parent '/ro/out': Read-only file system (os error 30)"));
}

#[test]
fn cli_input_read_failures() {
    let failed = input_text("stdin", "stdin", FileRead::Failed(s("broken pipe")));
    assert!(matches!(failed, Err(LoadError::Io { ref field, ref message })
        if field == "stdin" && message == "could not read stdin: broken pipe"));
    let big = input_text("file", "cmd.json", FileRead::Read { len: MAX_CLI_INPUT_BYTES + 1, text: Ok(s("{}")) });
    assert!(matches!(big, Err(LoadError::Io { ref field, ref message })
        if field == "file" && message == "cmd.json exceeds maximum of 1048576 bytes"));
    let bad = input_text("stdin", "stdin", FileRead::Read { len: 1, text: Err(s("invalid utf-8")) });
    assert!(matches!(bad, Err(LoadError::Io { ref message, .. }) if message == "stdin is not valid UTF-8: invalid utf-8"));
    assert_eq!(input_text("stdin", "stdin", FileRead::Read { len: 2, text: Ok(s("{}")) }).expect("ok"), "{}");
    let open = input_file_open_error("/no/such.json", "No such file or directory (os error 2)");
    assert!(matches!(open, LoadError::Io { ref field, ref message }
        if field == "file" && message == "could not read path '/no/such.json': No such file or directory (os error 2)"));
}

#[test]
fn json_file_needs_a_json_extension() {
    assert!(matches!(input_source(&args(&["cmd.JSON"])), Ok(InputSource::JsonFile(ref p)) if p == "cmd.JSON"));
    assert!(matches!(input_source(&args(&[".json"])), Ok(InputSource::Inline(ref t)) if t == ".json"));
    assert!(matches!(input_source(&args(&["dir.json/cmd"])), Ok(InputSource::Inline(_))));
}

#[test]
fn cli_flags_collect_values_and_positionals() {
    let flags = parse_cli_flags(&args(&[
        "--ui-root",
        "./custom-ui",
        "--bind",
        "127.0.0.1:0",
        r#"{"type":"message"}"#,
    ]));
    assert_eq!(flags.ui_root.as_deref(), Some("./custom-ui"));
    assert_eq!(flags.bind.as_deref(), Some("127.0.0.1:0"));
    assert_eq!(flags.positionals, args(&[r#"{"type":"message"}"#]));
    assert!(flags.failure.is_none());

    let flags = parse_cli_flags(&args(&["--viewer=none", "--bind", "bad", "--viewer", "system", "-V", "--allow-non-loopback"]));
    assert_eq!(flags.values.len(), 3);
    assert!(matches!(&flags.values[1], FlagValue::Bind(v) if v == "bad"));
    assert_eq!(flags.viewer.as_deref(), Some("system"));
    assert!(flags.allow_non_loopback);
    assert_eq!(flags.positionals, args(&["-V"]));

    let flags = parse_cli_flags(&args(&["--bind", "x", "--nope", "later"]));
    assert_eq!(flags.values.len(), 1);
    assert!(flags.positionals.is_empty());
    assert!(matches!(flags.failure, Some(LoadError::Usage { ref message, .. }) if message.starts_with("unknown flag '--nope'")));
}
