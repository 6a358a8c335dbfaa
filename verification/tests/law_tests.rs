use wyvern::emit::{emit_extension_error, emit_usage_error};
use wyvern::errors::{ExtensionError, LoadError, UsageErrorKind};
use wyvern::expand::{build_match_context, expand_command_host, CommandSource};
use wyvern::ids::{BinaryName, ExtensionId, MatchToken};
use wyvern::invocation::{next_expand_action, ExpandAction};
use wyvern::json::JsonValue;
use wyvern::loader::ExtensionRegistry;
use wyvern::matching::{match_extension_help, PathRequiresProbe};
use wyvern::registry::{ExpandSpec, ExtensionDef, MatchSpec, PreexecSpec, SkillSource, StdoutCapture};
use wyvern::template::{collect_template_vars, parse_template, TemplatePart};

fn s(v: &str) -> String {
    v.to_string()
}

fn tok(v: &str) -> MatchToken {
    MatchToken::try_from(s(v)).expect("token")
}

fn suffix(v: &str) -> MatchSpec {
    MatchSpec { positional_suffix: Some(tok(v)), filename: None, argv_prefix: None, arg_suffix: None }
}

fn md_expand(field: &str, value: &str) -> Option<ExpandSpec> {
    Some(ExpandSpec {
        command: Some(JsonValue::Object(vec![
            (s("type"), JsonValue::Str(s("markdown"))),
            (s(field), JsonValue::Str(s(value))),
        ])),
        command_from_file: None,
        command_type: None,
        host: None,
    })
}

fn def(id: &str, m: MatchSpec) -> ExtensionDef {
    ExtensionDef {
        id: ExtensionId::try_from(s(id)).expect("id"),
        match_spec: m,
        extends: None,
        description: None,
        examples: vec![],
        preexec: None,
        expand: md_expand("file", "{path}"),
        source: SkillSource::Shipped,
    }
}

fn ids(r: &ExtensionRegistry) -> Vec<String> {
    r.extensions().iter().map(|e| e.id.as_str().to_string()).collect()
}

#[test]
fn project_override_replaces_same_id_in_place() {
    let defaults = vec![def("markdown-suffix", suffix(".md")), def("html-suffix", suffix(".html"))];
    let project = vec![def("markdown-suffix", suffix(".markdown"))];
    let registry = ExtensionRegistry::from_sources(defaults, project).expect("load");
    assert_eq!(ids(&registry), vec!["markdown-suffix", "html-suffix"]);
    let md = &registry.extensions()[0];
    assert_eq!(md.source, SkillSource::Project);
    assert_eq!(
        md.match_spec.positional_suffix.as_ref().map(|t| t.as_str()),
        Some(".markdown")
    );
    assert_eq!(registry.extensions()[1].source, SkillSource::Shipped);
}

#[test]
fn project_entry_with_new_id_is_appended() {
    let defaults = vec![def("markdown-suffix", suffix(".md"))];
    let project = vec![def("txt-suffix", suffix(".txt"))];
    let registry = ExtensionRegistry::from_sources(defaults, project).expect("load");
    assert_eq!(ids(&registry), vec!["markdown-suffix", "txt-suffix"]);
}

#[test]
fn unknown_parent_fails_resolution() {
    let mut child = def("child", suffix(".csv"));
    child.extends = Some(ExtensionId::try_from(s("nobody")).expect("id"));
    let err = ExtensionRegistry::from_entries(vec![child]).expect_err("unknown parent");
    assert!(matches!(err, ExtensionError::InvalidRegistry { .. }));
    assert_eq!(err.exit_code(), 2);
}

#[test]
fn self_extends_fails_resolution() {
    let mut me = def("me", suffix(".csv"));
    me.extends = Some(ExtensionId::try_from(s("me")).expect("id"));
    let err = ExtensionRegistry::from_entries(vec![me]).expect_err("cycle");
    assert!(matches!(err, ExtensionError::InvalidRegistry { .. }));
}

#[test]
fn first_match_wins() {
    let registry = ExtensionRegistry::from_entries(vec![
        def("first-md", suffix(".md")),
        def("second-md", suffix(".md")),
    ])
    .expect("registry");
    let argv = vec![s("notes.md")];
    let probe = PathRequiresProbe { found: vec![] };
    let matched = registry.match_argv_with(&argv, &probe).expect("match");
    assert_eq!(matched.extension().id.as_str(), "first-md");
    assert_eq!(matched.path(), Some("notes.md"));
}

#[test]
fn skipped_entries_are_missing_a_binary_and_later_entries_still_match() {
    let mut needs = def("needs-tool", suffix(".csv"));
    needs.preexec = Some(PreexecSpec {
        cmd: s("csvtool"),
        args: vec![],
        requires: vec![BinaryName::try_from(s("csvtool")).expect("bin")],
        stdout: None,
    });
    let registry = ExtensionRegistry::from_entries(vec![needs, def("plain-csv", suffix(".csv"))]).expect("registry");
    let argv = vec![s("data.csv")];
    let absent = PathRequiresProbe { found: vec![] };
    let outcome = registry.match_with_diagnostics_with(&argv, &absent);
    assert_eq!(outcome.matched.expect("fallthrough").extension().id.as_str(), "plain-csv");
    assert_eq!(outcome.skipped.len(), 1);
    assert_eq!(outcome.skipped[0].missing[0].as_str(), "csvtool");
    let present = PathRequiresProbe { found: vec![s("csvtool")] };
    let outcome = registry.match_with_diagnostics_with(&argv, &present);
    assert_eq!(outcome.matched.expect("match").extension().id.as_str(), "needs-tool");
    assert!(outcome.skipped.is_empty());
}

#[test]
fn help_claims_match_without_requires() {
    let mut needs = def("needs-tool", suffix(".csv"));
    needs.preexec = Some(PreexecSpec {
        cmd: s("csvtool"),
        args: vec![],
        requires: vec![BinaryName::try_from(s("csvtool")).expect("bin")],
        stdout: None,
    });
    let registry = ExtensionRegistry::from_entries(vec![needs]).expect("registry");
    let argv = vec![s("data.csv"), s("--help")];
    assert_eq!(match_extension_help(&registry, &argv).expect("help").id.as_str(), "needs-tool");
}

fn render(parts: &[TemplatePart]) -> String {
    parts
        .iter()
        .map(|p| match p {
            TemplatePart::Lit(t) => t.clone(),
            TemplatePart::Var(v) => format!("{{{v}}}"),
        })
        .collect()
}

#[test]
fn template_parse_then_render_gives_template_back() {
    for t in ["plain", "{path}", "a{arg:root}b{stem}", "{x}{y}", ""] {
        let parts = parse_template(t).expect("parse");
        assert_eq!(render(&parts), t);
    }
    assert!(matches!(
        parse_template("oops {path"),
        Err(ExtensionError::Template { .. })
    ));
    assert_eq!(collect_template_vars("{a} {b} {a}"), vec!["a", "b", "a"]);
}

#[test]
fn failures_exit_with_their_envelope_code() {
    let io = ExtensionError::Io { message: s("x") };
    let out = emit_extension_error(&io).expect("emit");
    let value: serde_json::Value = serde_json::from_str(&out).expect("json");
    assert_eq!(value["code"], "IO_ERROR");
    assert_eq!(io.exit_code(), 3);
    let usage = LoadError::Usage { kind: UsageErrorKind::Generic, message: s("say \"hi\"") };
    let out = emit_usage_error(&usage).expect("emit");
    let value: serde_json::Value = serde_json::from_str(&out).expect("json");
    assert_eq!(value["code"], "PARSE_ERROR");
    assert_eq!(value["message"], "say \"hi\"");
    assert_eq!(usage.exit_code(), 2);
}

#[test]
fn expansion_steps_run_tmpdir_then_preexec_then_command() {
    let mut ext = def("rendered", suffix(".md"));
    ext.preexec = Some(PreexecSpec {
        cmd: s("render"),
        args: vec![s("--output"), s("{tmpdir}/pages/a.html"), s("{path}")],
        requires: vec![],
        stdout: Some(StdoutCapture::Markdown),
    });
    ext.expand = md_expand("content", "{rendered_basename}");
    let registry = ExtensionRegistry::from_entries(vec![ext]).expect("registry");
    let argv = vec![s("doc.md")];
    let probe = PathRequiresProbe { found: vec![] };
    let matched = registry.match_argv_with(&argv, &probe).expect("match");
    let ext = matched.extension();
    let mut ctx = build_match_context(&matched, "/share");
    assert!(matches!(next_expand_action(ext, &ctx, false).expect("step"), ExpandAction::CreateTmpdir));
    ctx.tmpdir = Some(s("/tmp/w1"));
    match next_expand_action(ext, &ctx, false).expect("step") {
        ExpandAction::RunPreexec { cmd, args, output_targets, capture } => {
            assert_eq!(cmd, "render");
            assert_eq!(args, vec!["--output", "/tmp/w1/pages/a.html", "doc.md"]);
            assert_eq!(output_targets, vec!["/tmp/w1/pages/a.html"]);
            assert_eq!(capture, Some(StdoutCapture::Markdown));
        }
        other => panic!("expected preexec, got {other:?}"),
    }
    match next_expand_action(ext, &ctx, true).expect("step") {
        ExpandAction::FindRenderedPage { tmpdir } => assert_eq!(tmpdir, "/tmp/w1"),
        other => panic!("expected page lookup, got {other:?}"),
    }
    ctx.rendered_basename = Some(s("a.html"));
    match next_expand_action(ext, &ctx, true).expect("step") {
        ExpandAction::Done { command: CommandSource::Inline(v), .. } => {
            assert_eq!(v.get_str("content").map(String::as_str), Some("a.html"));
        }
        other => panic!("expected done, got {other:?}"),
    }
    let (cmd, _) = expand_command_host(ext, &ctx).expect("expand");
    assert!(matches!(cmd, CommandSource::Inline(_)));
}
