use wyvern::catalog::{build_skill_record, format_skill_card, skill_help_command, CommandFileType};
use wyvern::commands::{
    format_extensions_list, run_browsers_command, run_extensions_command, CommandError,
    ExtensionsOutput,
};
use wyvern::diagnostics::{classify_near_miss, emit_near_miss, skill_example_from, skill_example_line};
use wyvern::errors::{BuiltinDomain, ExtensionError, UsageErrorKind};
use wyvern::expand::{build_match_context, expand_command_host, expand_preexec_args, CommandSource};
use wyvern::ids::{BinaryName, ExtensionId, MatchToken};
use wyvern::json::JsonValue;
use wyvern::loader::ExtensionRegistry;
use wyvern::matching::{ExtensionMatch, PathRequiresProbe};
use wyvern::registry::{ExpandSpec, ExtensionDef, HostExpandSpec, MatchSpec, PreexecSpec, SkillSource};
use wyvern::skill_args::declared_skill_args;

fn s(v: &str) -> String {
    v.to_string()
}

fn tok(v: &str) -> MatchToken {
    MatchToken::try_from(s(v)).expect("token")
}

fn suffix(v: &str) -> MatchSpec {
    MatchSpec {
        positional_suffix: Some(tok(v)),
        filename: None,
        argv_prefix: None,
        arg_suffix: None,
    }
}

fn prefix(words: &[&str]) -> MatchSpec {
    MatchSpec {
        positional_suffix: None,
        filename: None,
        argv_prefix: Some(words.iter().map(|w| tok(w)).collect()),
        arg_suffix: None,
    }
}

fn prefix_suffix(words: &[&str], sfx: &str) -> MatchSpec {
    MatchSpec {
        positional_suffix: None,
        filename: None,
        argv_prefix: Some(words.iter().map(|w| tok(w)).collect()),
        arg_suffix: Some(tok(sfx)),
    }
}

fn obj(pairs: &[(&str, &str)]) -> JsonValue {
    JsonValue::Object(
        pairs
            .iter()
            .map(|(k, v)| (s(k), JsonValue::Str(s(v))))
            .collect(),
    )
}

fn command(pairs: &[(&str, &str)]) -> Option<ExpandSpec> {
    Some(ExpandSpec {
        command: Some(obj(pairs)),
        command_from_file: None,
        command_type: None,
        host: None,
    })
}

fn preexec(cmd: &str, args: &[&str], requires: &[&str]) -> Option<PreexecSpec> {
    Some(PreexecSpec {
        cmd: s(cmd),
        args: args.iter().map(|a| s(a)).collect(),
        requires: requires
            .iter()
            .map(|r| BinaryName::try_from(s(r)).expect("binary"))
            .collect(),
        stdout: None,
    })
}

fn def(
    id: &str,
    match_spec: MatchSpec,
    pre: Option<PreexecSpec>,
    expand: Option<ExpandSpec>,
) -> ExtensionDef {
    ExtensionDef {
        id: ExtensionId::try_from(s(id)).expect("id"),
        match_spec,
        extends: None,
        description: None,
        examples: vec![],
        preexec: pre,
        expand,
        source: SkillSource::Shipped,
    }
}

fn registry(defs: Vec<ExtensionDef>) -> ExtensionRegistry {
    ExtensionRegistry::from_entries(defs).expect("parse")
}

fn argv(items: &[&str]) -> Vec<String> {
    items.iter().map(|a| s(a)).collect()
}

fn absent() -> PathRequiresProbe {
    PathRequiresProbe { found: vec![] }
}

fn content(src: &CommandSource, key: &str) -> String {
    match src {
        CommandSource::Inline(v) => v.get_str(key).expect("string member").clone(),
        CommandSource::FromFile(_) => panic!("expected inline command"),
    }
}

fn compose_root_repeat() -> ExtensionRegistry {
    registry(vec![def(
        "compose-render",
        prefix(&["compose", "render"]),
        preexec("true", &["--root", "{arg:root}", "{arg:var-file:repeat}"], &[]),
        command(&[("type", "markdown"), ("content", "{arg:root}")]),
    )])
}

fn check_arg_repeat_splices_tokens() {
    let registry = compose_root_repeat();
    let argv = argv(&[
        "compose",
        "render",
        "--root",
        "test-root",
        "--var-file",
        "a.j2",
        "--var-file",
        "b.j2",
    ]);
    let matched = registry.match_argv_with(&argv, &absent()).expect("match");
    let ctx = build_match_context(&matched, "share/wyvern");
    let pre = matched.extension().preexec.as_ref().expect("preexec");
    let (cmd, args) = expand_preexec_args(pre, matched.extension(), &ctx).expect("preexec");
    assert_eq!(cmd, "true");
    assert_eq!(
        args,
        vec!["--root", "test-root", "--var-file", "a.j2", "--var-file", "b.j2"]
    );
}

#[test]
fn expand_arg_repeat_splices_tokens() {
    check_arg_repeat_splices_tokens();
}

#[test]
fn mod_arg_repeat_splices_tokens() {
    check_arg_repeat_splices_tokens();
}

fn check_missing_required_arg_errors() {
    let registry = registry(vec![def(
        "needs-root",
        prefix(&["compose", "render"]),
        None,
        command(&[("type", "markdown"), ("content", "{arg:root}")]),
    )]);
    let argv = argv(&["compose", "render"]);
    let matched = registry.match_argv_with(&argv, &absent()).expect("match");
    let ctx = build_match_context(&matched, "share/wyvern");
    let err = expand_command_host(matched.extension(), &ctx).expect_err("missing");
    assert!(
        matches!(err, ExtensionError::MissingArgs { ref missing, ref example, .. } if missing.iter().any(|m| m == "--root") && !example.is_empty()),
        "{err:?}"
    );
}

#[test]
fn expand_missing_required_arg_errors() {
    check_missing_required_arg_errors();
}

#[test]
fn mod_missing_required_arg_errors() {
    check_missing_required_arg_errors();
}

fn check_missing_flag_value_populates_example() {
    let mut d = def(
        "needs-root",
        prefix(&["compose", "render"]),
        None,
        command(&[("type", "markdown"), ("content", "{arg:root}")]),
    );
    d.examples = vec![s("wyvern compose render --root DIR")];
    let registry = registry(vec![d]);
    let argv = argv(&["compose", "render", "--root"]);
    let matched = registry.match_argv_with(&argv, &absent()).expect("match");
    let ctx = build_match_context(&matched, "share/wyvern");
    let err = expand_command_host(matched.extension(), &ctx).expect_err("missing value");
    match err {
        ExtensionError::MissingArgs {
            missing,
            example,
            extension_id,
            ..
        } => {
            assert!(missing.iter().any(|m| m == "--root"), "{missing:?}");
            assert!(
                !example.is_empty() && example.contains("compose render"),
                "{example}"
            );
            assert_eq!(extension_id.as_str(), "needs-root");
        }
        other => panic!("expected MissingArgs, got {other:?}"),
    }
}

#[test]
fn expand_missing_flag_value_populates_example() {
    check_missing_flag_value_populates_example();
}

#[test]
fn mod_missing_flag_value_populates_example() {
    check_missing_flag_value_populates_example();
}

fn check_path_parts_expand() {
    let registry = registry(vec![def(
        "parts",
        suffix(".md"),
        None,
        command(&[
            ("type", "markdown"),
            ("content", "{path}|{basename}|{stem}|{parent_dir}"),
        ]),
    )]);
    let argv = argv(&["docs/readme.md"]);
    let matched = registry.match_argv_with(&argv, &absent()).expect("match");
    let ctx = build_match_context(&matched, "share/wyvern");
    let (cmd, _) = expand_command_host(matched.extension(), &ctx).expect("expand");
    assert_eq!(content(&cmd, "content"), "docs/readme.md|readme.md|readme|docs");
}

#[test]
fn expand_path_parts_expand() {
    check_path_parts_expand();
}

#[test]
fn mod_path_parts_expand() {
    check_path_parts_expand();
}

fn check_arg_equals_form_parses() {
    let registry = registry(vec![def(
        "compose-render",
        prefix(&["compose", "render"]),
        None,
        command(&[("type", "markdown"), ("content", "{arg:root}")]),
    )]);
    let argv = argv(&["compose", "render", "--root=test-root"]);
    let matched = registry.match_argv_with(&argv, &absent()).expect("match");
    let ctx = build_match_context(&matched, "share/wyvern");
    let (cmd, _) = expand_command_host(matched.extension(), &ctx).expect("expand");
    assert_eq!(content(&cmd, "content"), "test-root");
}

#[test]
fn expand_arg_equals_form_parses() {
    check_arg_equals_form_parses();
}

#[test]
fn mod_arg_equals_form_parses() {
    check_arg_equals_form_parses();
}

fn check_arg_repeat_zero_occurrences_splices_empty() {
    let registry = compose_root_repeat();
    let argv = argv(&["compose", "render", "--root", "test-root"]);
    let matched = registry.match_argv_with(&argv, &absent()).expect("match");
    let ctx = build_match_context(&matched, "share/wyvern");
    let pre = matched.extension().preexec.as_ref().expect("preexec");
    let (_, args) = expand_preexec_args(pre, matched.extension(), &ctx).expect("preexec");
    assert_eq!(args, vec!["--root", "test-root"]);
}

#[test]
fn expand_arg_repeat_zero_occurrences_splices_empty() {
    check_arg_repeat_zero_occurrences_splices_empty();
}

#[test]
fn mod_arg_repeat_zero_occurrences_splices_empty() {
    check_arg_repeat_zero_occurrences_splices_empty();
}

fn check_path_var_on_prefix_only_is_error() {
    let registry = registry(vec![def(
        "compose-render",
        prefix(&["compose", "render"]),
        None,
        command(&[("type", "markdown"), ("file", "{path}")]),
    )]);
    let argv = argv(&["compose", "render"]);
    let matched = registry.match_argv_with(&argv, &absent()).expect("match");
    let ctx = build_match_context(&matched, "share/wyvern");
    let err = expand_command_host(matched.extension(), &ctx).expect_err("path");
    assert!(matches!(err, ExtensionError::PathVarWithoutPath { .. }));
}

#[test]
fn expand_path_var_on_prefix_only_is_error() {
    check_path_var_on_prefix_only_is_error();
}

#[test]
fn mod_path_var_on_prefix_only_is_error() {
    check_path_var_on_prefix_only_is_error();
}

fn check_rendered_basename_substitutes_foo_html() {
    let registry = registry(vec![def(
        "rendered",
        suffix(".md"),
        None,
        command(&[("type", "markdown"), ("content", "{rendered_basename}")]),
    )]);
    let argv = argv(&["doc.md"]);
    let matched = registry.match_argv_with(&argv, &absent()).expect("match");
    let mut ctx = build_match_context(&matched, "share/wyvern");
    ctx.rendered_basename = Some(s("foo.html"));
    let (cmd, _) = expand_command_host(matched.extension(), &ctx).expect("expand");
    assert_eq!(content(&cmd, "content"), "foo.html");
    assert!(content(&cmd, "content").contains("foo.html"));
}

#[test]
fn expand_rendered_basename_substitutes_foo_html() {
    check_rendered_basename_substitutes_foo_html();
}

#[test]
fn mod_rendered_basename_substitutes_foo_html() {
    check_rendered_basename_substitutes_foo_html();
}

#[test]
fn registry_accepts_missing_description_and_examples() {
    let registry = registry(vec![def(
        "plain",
        suffix(".md"),
        None,
        command(&[("type", "markdown"), ("file", "{path}")]),
    )]);
    let record = build_skill_record(&registry.extensions()[0], &absent(), &CommandFileType::NotStatic);
    assert!(record.description.is_none());
    assert!(record.extends.is_none());
    assert_eq!(record.examples.len(), 1);
    assert_eq!(record.source, SkillSource::Shipped);
    assert_eq!(
        skill_help_command(&registry.extensions()[0]),
        "wyvern extensions show plain"
    );
}

#[test]
fn declared_skill_args_skips_empty_template_names() {
    let registry = registry(vec![def(
        "empty-arg",
        suffix(".md"),
        preexec("true", &["{arg:}", "{arg:  }", "{arg:root}"], &[]),
        command(&[("type", "markdown"), ("file", "{path}")]),
    )]);
    let args = declared_skill_args(&registry.extensions()[0]);
    assert_eq!(args.len(), 1, "{args:?}");
    assert_eq!(args[0].name.as_str(), "root");
}

#[test]
fn expands_to_uses_command_type_hint_without_magic_filename() {
    let d = def(
        "hinted",
        prefix(&["hinted"]),
        None,
        Some(ExpandSpec {
            command: None,
            command_from_file: Some(s("{tmpdir}/custom-out.json")),
            command_type: Some(s("report")),
            host: None,
        }),
    );
    let registry = registry(vec![d]);
    let record = build_skill_record(&registry.extensions()[0], &absent(), &CommandFileType::NotStatic);
    assert_eq!(record.expands_to, "report");
}

#[test]
fn expands_to_report_command_json_template_is_report() {
    let d = def(
        "report-from-file",
        prefix_suffix(&["report-xhtml"], ".json"),
        None,
        Some(ExpandSpec {
            command: None,
            command_from_file: Some(s("{tmpdir}/report-command.json")),
            command_type: None,
            host: None,
        }),
    );
    let registry = registry(vec![d]);
    let record = build_skill_record(&registry.extensions()[0], &absent(), &CommandFileType::NotStatic);
    assert_eq!(record.expands_to, "report");
}

#[test]
fn skipped_requires_lists_all_skipped_extensions() {
    let registry = registry(vec![
        def(
            "one-csv",
            suffix(".csv"),
            preexec("python3", &[], &["python3"]),
            command(&[("type", "markdown"), ("file", "{path}")]),
        ),
        def(
            "two-csv",
            suffix(".csv"),
            preexec("ruby", &[], &["ruby"]),
            command(&[("type", "markdown"), ("file", "{path}")]),
        ),
    ]);
    let argv = argv(&["sample.csv"]);
    let outcome = registry.match_with_diagnostics_with(&argv, &absent());
    assert_eq!(outcome.skipped.len(), 2, "{:?}", outcome.skipped);
    let kind = classify_near_miss(&registry, &argv, &outcome.skipped).expect("skipped");
    let files: Vec<CommandFileType> = registry.extensions().iter().map(|_| CommandFileType::NotStatic).collect();
    let json = emit_near_miss(&kind, &registry, &absent(), &files).expect("emit");
    let expected = skill_example_line(&registry, &absent(), &files, "one-csv").expect("example");
    let record = build_skill_record(&registry.extensions()[0], &absent(), &CommandFileType::NotStatic);
    assert_eq!(expected, skill_example_from(&record, &format_skill_card(&record)));
    assert!(json.contains(&format!("Example (one-csv): {expected}")), "{json}");
    assert_eq!(skill_example_line(&registry, &absent(), &files, "no-such-id"), None);
    assert!(json.contains("one-csv"), "{json}");
    assert!(json.contains("two-csv"), "{json}");
    assert!(json.contains("python3"), "{json}");
    assert!(json.contains("ruby"), "{json}");
    assert!(json.contains("Example (one-csv):"), "{json}");
    assert!(json.contains("Example (two-csv):"), "{json}");
}

#[test]
fn match_with_diagnostics_records_skipped_requires() {
    let registry = registry(vec![def(
        "needs-tool",
        suffix(".csv"),
        preexec("python3", &[], &["python3"]),
        command(&[("type", "markdown"), ("content", "x")]),
    )]);
    let argv = argv(&["sample.csv"]);
    let outcome = registry.match_with_diagnostics_with(&argv, &absent());
    assert!(outcome.matched.is_none());
    assert_eq!(outcome.skipped.len(), 1);
    assert_eq!(outcome.skipped[0].id.as_str(), "needs-tool");
    let missing: Vec<&str> = outcome.skipped[0].missing.iter().map(|b| b.as_str()).collect();
    assert_eq!(missing, ["python3"]);
    assert!(registry.match_argv_with(&argv, &absent()).is_none());
}

#[test]
fn requires_absent_skips_match() {
    let registry = registry(vec![def(
        "needs-tool",
        prefix(&["compose", "render"]),
        preexec("sc-compose", &[], &["sc-compose"]),
        command(&[("type", "markdown"), ("content", "x")]),
    )]);
    let argv = argv(&["compose", "render", "--root", "r"]);
    assert!(registry.match_argv_with(&argv, &absent()).is_none());
    let names: Vec<&str> = registry.extensions()[0]
        .required_binaries()
        .iter()
        .map(|b| b.as_str())
        .collect();
    assert_eq!(names, ["sc-compose"]);
}

#[test]
fn extends_reuses_parent_expand() {
    let parent = def(
        "parent",
        suffix(".csv"),
        None,
        command(&[("type", "markdown"), ("file", "{path}")]),
    );
    let mut child = def("child", prefix_suffix(&["md"], ".csv"), None, None);
    child.extends = Some(ExtensionId::try_from(s("parent")).expect("id"));
    let registry = registry(vec![parent, child]);
    let child = registry
        .extensions()
        .iter()
        .find(|e| e.id.as_str() == "child")
        .expect("child");
    assert!(child.expand.is_some());
    let argv = argv(&["md", "report.csv"]);
    let matched = registry.match_argv_with(&argv, &absent()).expect("match");
    assert!(matches!(matched, ExtensionMatch::PrefixSuffix { .. }));
    assert_eq!(matched.path(), Some("report.csv"));
}

#[test]
fn inherit_from_requires_only_keeps_parent_cmd() {
    let parent = def(
        "parent",
        suffix(".csv"),
        preexec("python3", &["--parent-flag"], &["python3"]),
        command(&[("type", "markdown"), ("file", "{path}")]),
    );
    let mut child = def("child", prefix_suffix(&["md"], ".csv"), None, None);
    child.extends = Some(ExtensionId::try_from(s("parent")).expect("id"));
    child.preexec = Some(PreexecSpec {
        cmd: String::new(),
        args: vec![],
        requires: vec![BinaryName::try_from(s("python3")).expect("bin")],
        stdout: None,
    });
    let registry = registry(vec![parent, child]);
    let child = registry
        .extensions()
        .iter()
        .find(|e| e.id.as_str() == "child")
        .expect("child");
    let pre = child.preexec.as_ref().expect("inherited preexec");
    assert_eq!(pre.cmd, "python3");
    assert_eq!(pre.args, vec!["--parent-flag"]);
    assert_eq!(pre.requires.len(), 1);
    assert_eq!(pre.requires[0].as_str(), "python3");
}

#[test]
fn unknown_browsers_subcommand_is_discriminated() {
    let err = run_browsers_command(&["nope".into()]).expect_err("usage");
    match err {
        CommandError::Usage { kind, message } => {
            assert!(matches!(
                kind,
                UsageErrorKind::UnknownSubcommand { ref domain, ref token }
                    if *domain == BuiltinDomain::Browsers && token == "nope"
            ));
            assert!(message.contains("unknown browsers subcommand"), "{message}");
        }
        other => panic!("expected Usage, got {other:?}"),
    }
}

fn list_registry() -> Result<ExtensionRegistry, ExtensionError> {
    ExtensionRegistry::from_entries(vec![def(
        "compose-render",
        prefix(&["compose", "render"]),
        preexec("sc-compose", &[], &["sc-compose"]),
        command(&[("type", "markdown"), ("content", "x")]),
    )])
}

#[test]
fn show_without_id_is_missing_extension_id() {
    let loaded = list_registry();
    let files = vec![CommandFileType::NotStatic];
    let err = run_extensions_command(&["show".into()], &loaded, &absent(), &files).expect_err("usage");
    match err {
        CommandError::Usage { kind, message } => {
            assert_eq!(kind, UsageErrorKind::MissingExtensionId);
            assert!(
                message.contains("extensions show requires an extension id"),
                "{message}"
            );
        }
        other => panic!("expected Usage, got {other:?}"),
    }
}

#[test]
fn unknown_extensions_subcommand_is_discriminated() {
    let loaded = list_registry();
    let files = vec![CommandFileType::NotStatic];
    let err = run_extensions_command(&["dump".into()], &loaded, &absent(), &files).expect_err("usage");
    match err {
        CommandError::Usage { kind, message } => {
            assert!(matches!(
                kind,
                UsageErrorKind::UnknownSubcommand { domain, ref token }
                    if domain == BuiltinDomain::Extensions && token == "dump"
            ));
            assert!(message.contains("unknown extensions subcommand"), "{message}");
        }
        other => panic!("expected Usage, got {other:?}"),
    }
}

#[test]
fn list_prints_requires_availability() {
    let registry = list_registry().expect("parse");
    let files = vec![CommandFileType::NotStatic];
    let text = format_extensions_list(&registry, &absent(), &files);
    assert!(text.contains("compose-render"), "{text}");
    assert!(text.contains("prefix: compose render"), "{text}");
    assert!(text.contains("sc-compose"), "{text}");
    assert!(text.contains("[available]") || text.contains("[missing]"), "{text}");
}

#[test]
fn list_unknown_flag_is_validation_error() {
    let loaded = list_registry();
    let files = vec![CommandFileType::NotStatic];
    let err = run_extensions_command(&["list".into(), "--foo".into()], &loaded, &absent(), &files)
        .expect_err("flag");
    match err {
        CommandError::Stage { stderr, exit_code } => {
            assert_eq!(exit_code, 4);
            let value: serde_json::Value = serde_json::from_str(&stderr).expect("json");
            assert_eq!(value["code"], "VALIDATION_ERROR");
            assert!(
                value["message"].as_str().unwrap_or("").contains("--foo"),
                "{stderr}"
            );
        }
        other => panic!("expected Stage, got {other:?}"),
    }
}

#[test]
fn host_ui_root_expands_tmpdir() {
    let d = def(
        "tmp-host",
        suffix(".md"),
        None,
        Some(ExpandSpec {
            command: Some(obj(&[("type", "markdown"), ("file", "{path}")])),
            command_from_file: None,
            command_type: None,
            host: Some(HostExpandSpec { ui_root: Some(s("{tmpdir}")) }),
        }),
    );
    let registry = registry(vec![d]);
    let argv = argv(&["doc.md"]);
    let matched = registry.match_argv_with(&argv, &absent()).expect("match");
    let mut ctx = build_match_context(&matched, "share/wyvern");
    assert!(expand_command_host(matched.extension(), &ctx).is_err());
    ctx.tmpdir = Some(s("/tmp/wyvern-x"));
    let (_, host) = expand_command_host(matched.extension(), &ctx).expect("expand");
    assert_eq!(host.ui_root.as_deref(), Some("/tmp/wyvern-x"));
}

#[test]
fn list_shows_records_as_text_by_default() {
    let loaded = list_registry();
    let files = vec![CommandFileType::NotStatic];
    match run_extensions_command(&["list".into()], &loaded, &absent(), &files).expect("list") {
        ExtensionsOutput::Text(t) => assert!(t.contains("compose-render"), "{t}"),
        _ => panic!("expected text"),
    }
}

#[test]
fn match_argv_uses_path_lookup_result() {
    let registry = registry(vec![def(
        "needs-tool",
        suffix(".csv"),
        preexec("python3", &[], &["python3"]),
        command(&[("type", "markdown"), ("content", "x")]),
    )]);
    let argv = argv(&["sample.csv"]);
    let found = PathRequiresProbe { found: vec!["python3".to_string()] };
    let matched = registry.match_argv(&argv, &found).expect("match");
    assert_eq!(matched.extension().id.as_str(), "needs-tool");
    let outcome = registry.match_with_diagnostics(&argv, &absent());
    assert!(outcome.matched.is_none());
    assert_eq!(outcome.skipped.len(), 1);
}

// The three tests below classify argv that no registry entry can claim, so an
// empty registry gives the same outcome as the shipped one.

#[test]
fn unknown_txt_is_parse_error_not_json() {
    let registry = registry(vec![]);
    let argv = argv(&["notes.txt"]);
    let outcome = registry.match_with_diagnostics_with(&argv, &absent());
    let kind = classify_near_miss(&registry, &argv, &outcome.skipped).expect("near-miss");
    assert!(matches!(kind, wyvern::diagnostics::NearMissKind::UnknownInput { .. }));
    let json = emit_near_miss(&kind, &registry, &absent(), &vec![]).expect("emit");
    assert!(json.contains("PARSE_ERROR"), "{json}");
    assert!(json.contains("unknown input"), "{json}");
    assert!(!json.contains("not valid JSON"), "{json}");
    assert_eq!(kind.exit_code(), 2);
}

#[test]
fn inline_json_is_not_a_near_miss() {
    let registry = registry(vec![]);
    let argv = argv(&[r#"{"type":"message"}"#]);
    assert!(classify_near_miss(&registry, &argv, &vec![]).is_none());
}

#[test]
fn json_file_falls_through() {
    let registry = registry(vec![]);
    let argv = argv(&["cmd.json"]);
    assert!(classify_near_miss(&registry, &argv, &vec![]).is_none());
}

#[test]
fn help_prefers_prefix_entry_over_suffix_entry() {
    let registry = registry(vec![
        def("md-suffix", suffix(".md"), None, command(&[("type", "markdown"), ("file", "{path}")])),
        def("x-prefix", prefix(&["x.md"]), None, command(&[("type", "markdown"), ("content", "x")])),
    ]);
    let tie = argv(&["x.md", "--help"]);
    let chosen = wyvern::matching::match_extension_help(&registry, &tie).expect("help");
    assert_eq!(chosen.id.as_str(), "x-prefix");
    let file = argv(&["doc.md", "-h"]);
    let chosen = wyvern::matching::match_extension_help(&registry, &file).expect("help");
    assert_eq!(chosen.id.as_str(), "md-suffix");
    let other = argv(&["doc.md", "other"]);
    assert!(wyvern::matching::match_extension_help(&registry, &other).is_none());
}
