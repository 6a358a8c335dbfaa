use wyvern::catalog::{resolve_static_command_path, CommandFileType};
use wyvern::commands::{
    browsers_usage_message, examples_usage_message, extensions_usage_message,
    run_examples_command, run_extensions_command, ExampleRecord, ExamplesOutput,
    ExtensionsOutput,
};
use wyvern::ids::{ArgName, BinaryName, ExtensionId, MatchToken};
use wyvern::json::JsonValue;
use wyvern::loader::ExtensionRegistry;
use wyvern::matching::{ends_with_suffix, is_help_only_tokens, PathRequiresProbe};
use wyvern::registry::{ExpandSpec, ExtensionDef, MatchSpec, SkillSource};
use wyvern::wizard::{run_wizard_command, wizard_usage_message, WizardCmdResult};
use wyvern::workflow::{check_chain_depth, WorkflowError, NEXT_WIZARD_MAX_DEPTH};

fn s(v: &str) -> String {
    v.to_string()
}

fn markdown_suffix_def() -> ExtensionDef {
    ExtensionDef {
        id: ExtensionId::try_from(s("markdown-suffix")).expect("id"),
        match_spec: MatchSpec {
            positional_suffix: Some(MatchToken::try_from(s(".md")).expect("token")),
            filename: None,
            argv_prefix: None,
            arg_suffix: None,
        },
        extends: None,
        description: Some(s("Render a Markdown file")),
        examples: vec![],
        preexec: None,
        expand: Some(ExpandSpec {
            command: Some(JsonValue::Object(vec![
                (s("type"), JsonValue::Str(s("markdown"))),
                (s("file"), JsonValue::Str(s("{path}"))),
            ])),
            command_from_file: None,
            command_type: None,
            host: None,
        }),
        source: SkillSource::Shipped,
    }
}

#[test]
fn browsers_help_mentions_list_and_refresh() {
    let text = browsers_usage_message();
    assert!(text.contains("list"), "{text}");
    assert!(text.contains("refresh"), "{text}");
}

#[test]
fn examples_help_mentions_list_and_frontmatter() {
    let text = examples_usage_message();
    assert!(text.contains("list"), "{text}");
    assert!(text.contains("name:"), "{text}");
    assert!(text.contains("description:"), "{text}");
}

#[test]
fn bare_examples_defaults_to_list() {
    let discovered = Ok(vec![ExampleRecord {
        name: s("Hello"),
        description: s("A first dialog"),
        readme: s("examples/hello/README.md"),
    }]);
    let out = run_examples_command(&[], &discovered).expect("list");
    let text = match out {
        ExamplesOutput::Text(t) => t,
        ExamplesOutput::Records(_) => panic!("expected text"),
    };
    assert!(text.contains("README:") || text.is_empty(), "{text}");
}

#[test]
fn resolve_static_command_path_trims_windows_separators() {
    let unix = resolve_static_command_path("{wyvern_share}/extensions.json", "share/wyvern");
    let windows = resolve_static_command_path("{wyvern_share}\\extensions.json", "share/wyvern");
    assert!(unix.is_some(), "unix share path should resolve");
    assert_eq!(unix, windows);
}

#[test]
fn extensions_help_mentions_list_and_show() {
    let text = extensions_usage_message();
    assert!(text.contains("list"), "{text}");
    assert!(text.contains("show"), "{text}");
    assert!(
        text.contains(".wyvern/extensions.json") && text.contains("trusted preexec"),
        "{text}"
    );
}

#[test]
fn bare_extensions_defaults_to_list() {
    let registry = ExtensionRegistry::from_entries(vec![markdown_suffix_def()]);
    let probe = PathRequiresProbe { found: vec![] };
    let files = vec![CommandFileType::NotStatic];
    let out = run_extensions_command(&[], &registry, &probe, &files).expect("list");
    let text = match out {
        ExtensionsOutput::Text(t) => t,
        _ => panic!("expected text"),
    };
    assert!(text.contains("markdown-suffix"), "{text}");
}

#[test]
fn arg_name_rejects_empty() {
    assert!(ArgName::new("").is_none());
    assert!(ArgName::new("   ").is_none());
    assert!(ArgName::try_from(String::from("   ")).is_err());
    assert_eq!(ArgName::new("root").expect("valid").as_str(), "root");
}

#[test]
fn binary_name_rejects_empty_and_path() {
    assert!(BinaryName::try_from(String::from("   ")).is_err());
    assert!(BinaryName::try_from(String::from("bin/foo")).is_err());
    assert!(BinaryName::try_from(String::from("bin\\foo")).is_err());
    assert_eq!(
        BinaryName::try_from(String::from("sc-compose"))
            .expect("valid")
            .as_str(),
        "sc-compose"
    );
}

#[test]
fn ends_with_suffix_does_not_panic_on_multibyte_token() {
    assert!(ends_with_suffix("café.md", ".md"));
    assert!(ends_with_suffix("café.MD", ".md"));
    assert!(ends_with_suffix("ファイル.md", ".md"));
    assert!(!ends_with_suffix("xé", "xx"));
    assert!(!ends_with_suffix("é", ".md"));
    assert!(!ends_with_suffix("ab", ".md"));
}

#[test]
fn help_only_tokens_require_help_flags() {
    assert!(is_help_only_tokens(&["--help".into()]));
    assert!(is_help_only_tokens(&["-h".into()]));
    assert!(is_help_only_tokens(&["--help".into(), "-h".into()]));
    assert!(!is_help_only_tokens(&[]));
    assert!(!is_help_only_tokens(&["--help".into(), "data.csv".into()]));
    assert!(!is_help_only_tokens(&["data.csv".into()]));
}

#[test]
fn wizard_help_flag_returns_usage() {
    let result = run_wizard_command(&["--help".into()]).expect("ok");
    match result {
        WizardCmdResult::Clean(text) => {
            assert!(text.contains("wyvern wizard lint"), "{text}");
            assert!(text.contains("WIZARD-LINT-001"), "{text}");
        }
        _ => panic!("expected clean / usage"),
    }
}

#[test]
fn wizard_lint_help_returns_usage() {
    let result = run_wizard_command(&["lint".into(), "--help".into()]).expect("ok");
    match result {
        WizardCmdResult::Clean(text) => {
            assert!(text.contains("wyvern wizard lint"), "{text}");
        }
        _ => panic!("expected clean"),
    }
}

#[test]
fn wizard_usage_message_mentions_lint_codes() {
    let text = wizard_usage_message();
    assert!(text.contains("WIZARD-LINT-001"), "{text}");
    assert!(text.contains("WIZARD-LINT-002"), "{text}");
    assert!(text.contains("WIZARD-LINT-003"), "{text}");
    assert!(text.contains("WIZARD-LINT-004"), "{text}");
    assert!(text.contains("WIZARD-LINT-005"), "{text}");
    assert!(text.contains("WIZARD-LINT-008"), "{text}");
}

#[test]
fn check_chain_depth_rejects_seventeenth_hop() {
    check_chain_depth(16).expect("16 ok");
    let err = check_chain_depth(17).expect_err("17");
    assert!(matches!(
        err,
        WorkflowError::ChainDepth {
            max: NEXT_WIZARD_MAX_DEPTH
        }
    ));
}

#[test]
fn timeout_cause_includes_stderr_tail() {
    let err = WorkflowError::Timeout {
        stderr_tail: "still running child".into(),
    };
    assert_eq!(err.subcode(), "timeout");
    assert!(err.cause().contains("still running child"));
    assert!(err.message().contains("still running child"));
}
