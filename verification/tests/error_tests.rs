use wyvern::cli::{invalid_viewer_env_error, viewer_env_unicode_error};
use wyvern::emit::{
    emit_extension_error, emit_io_error, emit_parse_error, emit_usage_error,
    emit_validation_error,
};
use wyvern::errors::{
    BuiltinDomain, ExtensionError, LoadError, PreexecFailureKind, UsageErrorKind,
    ValidationError,
};
use wyvern::ids::ExtensionId;

#[test]
fn mod_emit_parse_error_with_quotes_is_valid_json() {
    let err = LoadError::Parse {
        message: r#"expected value at line 1: "bad""#.to_string(),
    };
    let out = emit_parse_error(&err).expect("emit");
    let value: serde_json::Value = serde_json::from_str(&out).expect("valid JSON");
    assert_eq!(value["error"], "parse");
    assert_eq!(value["code"], "PARSE_ERROR");
    assert!(value["message"].as_str().unwrap().contains('"'));
    assert!(!value["recovery"].as_array().unwrap().is_empty());
    assert!(value.get("cause").is_some());
}

#[test]
fn mod_emit_io_error_with_quotes_is_valid_json() {
    let err = LoadError::Io {
        field: "file".to_string(),
        message: r#"could not read path 'say "hi".json'"#.to_string(),
    };
    let out = emit_io_error(&err).expect("emit");
    let value: serde_json::Value = serde_json::from_str(&out).expect("valid JSON");
    assert_eq!(value["error"], "io");
    assert_eq!(value["code"], "IO_ERROR");
    assert_eq!(value["field"], "file");
    assert!(value["message"].as_str().unwrap().contains('"'));
    assert!(!value["recovery"].as_array().unwrap().is_empty());
}

#[test]
fn mod_emit_validation_error_message_with_quotes_is_valid_json() {
    let err = ValidationError::Validation {
        field: "title".to_string(),
        message: r#"field 'title' expected string, got "oops""#.to_string(),
    };
    let out = emit_validation_error(&err).expect("emit");
    let value: serde_json::Value = serde_json::from_str(&out).expect("valid JSON");
    assert_eq!(value["error"], "validation");
    assert_eq!(value["code"], "VALIDATION_ERROR");
    assert_eq!(value["field"], "title");
    assert!(value["message"].as_str().unwrap().contains('"'));
    assert!(!value["recovery"].as_array().unwrap().is_empty());
}

#[test]
fn mod_emit_validation_error_missing_title_has_actionable_recovery() {
    let err = ValidationError::Validation {
        field: "title".to_string(),
        message: "missing required field 'title'".to_string(),
    };
    let out = emit_validation_error(&err).expect("emit");
    let value: serde_json::Value = serde_json::from_str(&out).expect("valid JSON");
    let recovery = value["recovery"].as_array().unwrap();
    assert!(recovery.iter().any(|s| s.as_str().unwrap().contains("title")));
}

#[test]
fn mod_emit_validation_error_state() {
    let err = ValidationError::State {
        field: "action".to_string(),
        message: "show is only valid in --interactive mode".to_string(),
    };
    let out = emit_validation_error(&err).expect("emit");
    let value: serde_json::Value = serde_json::from_str(&out).expect("valid JSON");
    assert_eq!(value["error"], "state");
    assert_eq!(value["code"], "STATE_ERROR");
    assert_eq!(value["field"], "action");
    assert!(!value["recovery"].as_array().unwrap().is_empty());
}

#[test]
fn mod_load_error_exit_codes() {
    assert_eq!(LoadError::Parse { message: "x".into() }.exit_code(), 2);
    assert_eq!(
        LoadError::Io {
            field: "file".to_string(),
            message: "x".into(),
        }
        .exit_code(),
        3
    );
    assert_eq!(
        LoadError::Usage {
            kind: UsageErrorKind::Generic,
            message: "usage".into()
        }
        .exit_code(),
        2
    );
}

#[test]
fn mod_validation_error_exit_codes() {
    assert_eq!(
        ValidationError::Validation {
            field: "title".to_string(),
            message: "bad".into(),
        }
        .exit_code(),
        4
    );
    assert_eq!(
        ValidationError::State {
            field: "action".to_string(),
            message: "bad".into(),
        }
        .exit_code(),
        5
    );
}

#[test]
fn mod_emit_usage_error_is_structured_json() {
    let err = LoadError::Usage {
        kind: UsageErrorKind::Generic,
        message: "unknown subcommand".into(),
    };
    let out = emit_usage_error(&err).expect("emit");
    let value: serde_json::Value = serde_json::from_str(&out).expect("valid JSON");
    assert_eq!(value["error"], "parse");
    assert_eq!(value["code"], "PARSE_ERROR");
    assert!(value["message"].as_str().unwrap().contains("unknown"));
    assert!(!value["recovery"].as_array().unwrap().is_empty());
}

#[test]
fn mod_emit_invalid_bind_has_flag_specific_recovery() {
    let err = LoadError::Usage {
        kind: UsageErrorKind::InvalidBind {
            value: "not-an-addr".into(),
        },
        message: "invalid --bind 'not-an-addr': invalid socket address".into(),
    };
    let out = emit_usage_error(&err).expect("emit");
    let value: serde_json::Value = serde_json::from_str(&out).expect("valid JSON");
    let recovery = value["recovery"].as_array().unwrap();
    assert!(recovery
        .iter()
        .any(|s| s.as_str().unwrap().contains("--allow-non-loopback")));
    assert!(!value["message"].as_str().unwrap().contains("Recovery:"));
}

#[test]
fn mod_emit_invalid_wyvern_viewer_env_has_flag_specific_recovery() {
    let err = LoadError::Usage {
        kind: UsageErrorKind::InvalidWyvernViewerEnv {
            value: "not-a-viewer-mode".into(),
        },
        message: "invalid WYVERN_VIEWER=\"not-a-viewer-mode\"; expected embedded, none, system, or a named viewer path".into(),
    };
    let out = emit_usage_error(&err).expect("emit");
    let value: serde_json::Value = serde_json::from_str(&out).expect("valid JSON");
    assert!(value["cause"].as_str().unwrap().contains("WYVERN_VIEWER"));
    let recovery = value["recovery"].as_array().unwrap();
    assert!(recovery
        .iter()
        .any(|s| s.as_str().unwrap().contains("Unset WYVERN_VIEWER")));
}

#[test]
fn mod_emit_unknown_subcommand_has_domain_specific_recovery() {
    let browsers = LoadError::Usage {
        kind: UsageErrorKind::UnknownSubcommand {
            domain: BuiltinDomain::Browsers,
            token: "nope".into(),
        },
        message: "unknown browsers subcommand 'nope'".into(),
    };
    let out = emit_usage_error(&browsers).expect("emit");
    let value: serde_json::Value = serde_json::from_str(&out).expect("valid JSON");
    assert!(value["cause"].as_str().unwrap().contains("nope"));
    let recovery = value["recovery"].as_array().unwrap();
    assert!(recovery
        .iter()
        .any(|s| s.as_str().unwrap().contains("browsers list")));

    let extensions = LoadError::Usage {
        kind: UsageErrorKind::UnknownSubcommand {
            domain: BuiltinDomain::Extensions,
            token: "show".into(),
        },
        message: "unknown extensions subcommand 'show'".into(),
    };
    let out = emit_usage_error(&extensions).expect("emit");
    let value: serde_json::Value = serde_json::from_str(&out).expect("valid JSON");
    let recovery = value["recovery"].as_array().unwrap();
    assert!(recovery
        .iter()
        .any(|s| s.as_str().unwrap().contains("extensions list")));
}

#[test]
fn mod_emit_missing_args_lists_flags() {
    let err = ExtensionError::MissingArgs {
        missing: vec!["--root".into(), "--file".into()],
        declared: vec!["file".into(), "root".into()],
        extension_id: ExtensionId::try_from(String::from("compose-render")).expect("id"),
        example: "wyvern compose render --root DIR --file FILE.j2".into(),
        help_command: "wyvern compose render --help".into(),
    };
    let out = emit_extension_error(&err).expect("emit");
    let value: serde_json::Value = serde_json::from_str(&out).expect("valid JSON");
    let text = out.to_ascii_lowercase();
    assert!(value["message"].as_str().unwrap().contains("--root"));
    assert!(value["message"].as_str().unwrap().contains("--file"));
    assert!(value["recovery"]
        .as_array()
        .unwrap()
        .iter()
        .any(|s| s.as_str().unwrap().contains("--root")));
    assert!(value["recovery"]
        .as_array()
        .unwrap()
        .iter()
        .any(|s| s.as_str() == Some("Run wyvern compose render --help")));
    assert!(
        !out.contains("wyvern compose-render --help"),
        "recovery must use the invocation prefix, not the extension id: {out}"
    );
    assert!(!text.contains("declare them as {arg:"));
}

#[test]
fn mod_emit_unexpected_arg_is_caller_facing() {
    let err = ExtensionError::UnexpectedArg {
        token: "--undeclared".into(),
        declared: vec!["file".into(), "root".into()],
        extension_id: ExtensionId::try_from(String::from("compose-render")).expect("id"),
        help_command: "wyvern compose render --help".into(),
    };
    let out = emit_extension_error(&err).expect("emit");
    let value: serde_json::Value = serde_json::from_str(&out).expect("valid JSON");
    assert!(value["cause"].as_str().unwrap().contains("--undeclared"));
    assert!(value["recovery"]
        .as_array()
        .unwrap()
        .iter()
        .any(|s| s.as_str().unwrap().contains("--root")));
    assert!(value["recovery"]
        .as_array()
        .unwrap()
        .iter()
        .any(|s| s.as_str() == Some("Run wyvern compose render --help")));
    assert!(!out.contains("wyvern compose-render --help"), "{out}");
    assert!(
        !out.contains("declare them as {arg:name}") && !out.contains("{arg:"),
        "{out}"
    );
}

#[test]
fn mod_emit_preexec_timeout_mentions_env_var() {
    let err = ExtensionError::Preexec {
        kind: Some(PreexecFailureKind::Timeout {
            cmd: "slow".into(),
            timeout_secs: 30,
        }),
        message: "slow timed out after 30s".into(),
    };
    let out = emit_extension_error(&err).expect("emit");
    assert!(
        out.contains("WYVERN_PREEXEC_TIMEOUT_SECS"),
        "timeout recovery must name the env var: {out}"
    );
    assert!(out.contains("30"), "{out}");
}

#[test]
fn error_emit_parse_error_with_quotes_is_valid_json() {
    let err = LoadError::Parse {
        message: r#"expected value at line 1: "bad""#.to_string(),
    };
    let out = emit_parse_error(&err).expect("emit");
    let value: serde_json::Value = serde_json::from_str(&out).expect("valid JSON");
    assert_eq!(value["error"], "parse");
    assert_eq!(value["code"], "PARSE_ERROR");
    assert!(value["message"].as_str().unwrap().contains('"'));
    assert!(!value["recovery"].as_array().unwrap().is_empty());
    assert!(value.get("cause").is_some());
}

#[test]
fn error_emit_io_error_with_quotes_is_valid_json() {
    let err = LoadError::Io {
        field: "file".to_string(),
        message: r#"could not read path 'say "hi".json'"#.to_string(),
    };
    let out = emit_io_error(&err).expect("emit");
    let value: serde_json::Value = serde_json::from_str(&out).expect("valid JSON");
    assert_eq!(value["error"], "io");
    assert_eq!(value["code"], "IO_ERROR");
    assert_eq!(value["field"], "file");
    assert!(value["message"].as_str().unwrap().contains('"'));
    assert!(!value["recovery"].as_array().unwrap().is_empty());
}

#[test]
fn error_emit_validation_error_message_with_quotes_is_valid_json() {
    let err = ValidationError::Validation {
        field: "title".to_string(),
        message: r#"field 'title' expected string, got "oops""#.to_string(),
    };
    let out = emit_validation_error(&err).expect("emit");
    let value: serde_json::Value = serde_json::from_str(&out).expect("valid JSON");
    assert_eq!(value["error"], "validation");
    assert_eq!(value["code"], "VALIDATION_ERROR");
    assert_eq!(value["field"], "title");
    assert!(value["message"].as_str().unwrap().contains('"'));
    assert!(!value["recovery"].as_array().unwrap().is_empty());
}

#[test]
fn error_emit_validation_error_missing_title_has_actionable_recovery() {
    let err = ValidationError::Validation {
        field: "title".to_string(),
        message: "missing required field 'title'".to_string(),
    };
    let out = emit_validation_error(&err).expect("emit");
    let value: serde_json::Value = serde_json::from_str(&out).expect("valid JSON");
    let recovery = value["recovery"].as_array().unwrap();
    assert!(recovery.iter().any(|s| s.as_str().unwrap().contains("title")));
}

#[test]
fn error_emit_validation_error_state() {
    let err = ValidationError::State {
        field: "action".to_string(),
        message: "show is only valid in --interactive mode".to_string(),
    };
    let out = emit_validation_error(&err).expect("emit");
    let value: serde_json::Value = serde_json::from_str(&out).expect("valid JSON");
    assert_eq!(value["error"], "state");
    assert_eq!(value["code"], "STATE_ERROR");
    assert_eq!(value["field"], "action");
    assert!(!value["recovery"].as_array().unwrap().is_empty());
}

#[test]
fn error_load_error_exit_codes() {
    assert_eq!(LoadError::Parse { message: "x".into() }.exit_code(), 2);
    assert_eq!(
        LoadError::Io {
            field: "file".to_string(),
            message: "x".into(),
        }
        .exit_code(),
        3
    );
    assert_eq!(
        LoadError::Usage {
            kind: UsageErrorKind::Generic,
            message: "usage".into()
        }
        .exit_code(),
        2
    );
}

#[test]
fn error_validation_error_exit_codes() {
    assert_eq!(
        ValidationError::Validation {
            field: "title".to_string(),
            message: "bad".into(),
        }
        .exit_code(),
        4
    );
    assert_eq!(
        ValidationError::State {
            field: "action".to_string(),
            message: "bad".into(),
        }
        .exit_code(),
        5
    );
}

#[test]
fn error_emit_usage_error_is_structured_json() {
    let err = LoadError::Usage {
        kind: UsageErrorKind::Generic,
        message: "unknown subcommand".into(),
    };
    let out = emit_usage_error(&err).expect("emit");
    let value: serde_json::Value = serde_json::from_str(&out).expect("valid JSON");
    assert_eq!(value["error"], "parse");
    assert_eq!(value["code"], "PARSE_ERROR");
    assert!(value["message"].as_str().unwrap().contains("unknown"));
    assert!(!value["recovery"].as_array().unwrap().is_empty());
}

#[test]
fn error_emit_invalid_bind_has_flag_specific_recovery() {
    let err = LoadError::Usage {
        kind: UsageErrorKind::InvalidBind {
            value: "not-an-addr".into(),
        },
        message: "invalid --bind 'not-an-addr': invalid socket address".into(),
    };
    let out = emit_usage_error(&err).expect("emit");
    let value: serde_json::Value = serde_json::from_str(&out).expect("valid JSON");
    let recovery = value["recovery"].as_array().unwrap();
    assert!(recovery
        .iter()
        .any(|s| s.as_str().unwrap().contains("--allow-non-loopback")));
    assert!(!value["message"].as_str().unwrap().contains("Recovery:"));
}

#[test]
fn error_emit_invalid_wyvern_viewer_env_has_flag_specific_recovery() {
    let err = LoadError::Usage {
        kind: UsageErrorKind::InvalidWyvernViewerEnv {
            value: "not-a-viewer-mode".into(),
        },
        message: "invalid WYVERN_VIEWER=\"not-a-viewer-mode\"; expected embedded, none, system, or a named viewer path".into(),
    };
    let out = emit_usage_error(&err).expect("emit");
    let value: serde_json::Value = serde_json::from_str(&out).expect("valid JSON");
    assert!(value["cause"].as_str().unwrap().contains("WYVERN_VIEWER"));
    let recovery = value["recovery"].as_array().unwrap();
    assert!(recovery
        .iter()
        .any(|s| s.as_str().unwrap().contains("Unset WYVERN_VIEWER")));
}

#[test]
fn error_emit_unknown_subcommand_has_domain_specific_recovery() {
    let browsers = LoadError::Usage {
        kind: UsageErrorKind::UnknownSubcommand {
            domain: BuiltinDomain::Browsers,
            token: "nope".into(),
        },
        message: "unknown browsers subcommand 'nope'".into(),
    };
    let out = emit_usage_error(&browsers).expect("emit");
    let value: serde_json::Value = serde_json::from_str(&out).expect("valid JSON");
    assert!(value["cause"].as_str().unwrap().contains("nope"));
    let recovery = value["recovery"].as_array().unwrap();
    assert!(recovery
        .iter()
        .any(|s| s.as_str().unwrap().contains("browsers list")));

    let extensions = LoadError::Usage {
        kind: UsageErrorKind::UnknownSubcommand {
            domain: BuiltinDomain::Extensions,
            token: "show".into(),
        },
        message: "unknown extensions subcommand 'show'".into(),
    };
    let out = emit_usage_error(&extensions).expect("emit");
    let value: serde_json::Value = serde_json::from_str(&out).expect("valid JSON");
    let recovery = value["recovery"].as_array().unwrap();
    assert!(recovery
        .iter()
        .any(|s| s.as_str().unwrap().contains("extensions list")));
}

#[test]
fn error_emit_missing_args_lists_flags() {
    let err = ExtensionError::MissingArgs {
        missing: vec!["--root".into(), "--file".into()],
        declared: vec!["file".into(), "root".into()],
        extension_id: ExtensionId::try_from(String::from("compose-render")).expect("id"),
        example: "wyvern compose render --root DIR --file FILE.j2".into(),
        help_command: "wyvern compose render --help".into(),
    };
    let out = emit_extension_error(&err).expect("emit");
    let value: serde_json::Value = serde_json::from_str(&out).expect("valid JSON");
    let text = out.to_ascii_lowercase();
    assert!(value["message"].as_str().unwrap().contains("--root"));
    assert!(value["message"].as_str().unwrap().contains("--file"));
    assert!(value["recovery"]
        .as_array()
        .unwrap()
        .iter()
        .any(|s| s.as_str().unwrap().contains("--root")));
    assert!(!text.contains("declare them as {arg:"));
}

#[test]
fn error_emit_unexpected_arg_is_caller_facing() {
    let err = ExtensionError::UnexpectedArg {
        token: "--undeclared".into(),
        declared: vec!["file".into(), "root".into()],
        extension_id: ExtensionId::try_from(String::from("compose-render")).expect("id"),
        help_command: "wyvern compose render --help".into(),
    };
    let out = emit_extension_error(&err).expect("emit");
    let value: serde_json::Value = serde_json::from_str(&out).expect("valid JSON");
    assert!(value["cause"].as_str().unwrap().contains("--undeclared"));
    assert!(value["recovery"]
        .as_array()
        .unwrap()
        .iter()
        .any(|s| s.as_str().unwrap().contains("--root")));
    assert!(
        !out.contains("declare them as {arg:name}") && !out.contains("{arg:"),
        "{out}"
    );
}

#[test]
fn error_emit_preexec_timeout_mentions_env_var() {
    let err = ExtensionError::Preexec {
        kind: Some(PreexecFailureKind::Timeout {
            cmd: "slow".into(),
            timeout_secs: 30,
        }),
        message: "slow timed out after 30s".into(),
    };
    let out = emit_extension_error(&err).expect("emit");
    assert!(
        out.contains("WYVERN_PREEXEC_TIMEOUT_SECS"),
        "timeout recovery must name the env var: {out}"
    );
    assert!(out.contains("30"), "{out}");
}

#[test]
fn emit_missing_extension_id_has_show_recovery() {
    let err = LoadError::Usage {
        kind: UsageErrorKind::MissingExtensionId,
        message: "extensions show requires an extension id".into(),
    };
    let out = emit_usage_error(&err).expect("emit");
    let value: serde_json::Value = serde_json::from_str(&out).expect("valid JSON");
    assert!(value["cause"].as_str().unwrap().contains("extension id"));
    let recovery = value["recovery"].as_array().unwrap();
    assert!(recovery
        .iter()
        .any(|s| s.as_str().unwrap().contains("extensions show <id>")));
    assert!(recovery
        .iter()
        .any(|s| s.as_str().unwrap().contains("extensions list")));
}

#[test]
fn wyvern_viewer_env_errors_are_usage_errors() {
    let err = invalid_viewer_env_error("not-a-viewer-mode");
    match &err {
        LoadError::Usage { kind: UsageErrorKind::InvalidWyvernViewerEnv { value }, message } => {
            assert_eq!(value, "not-a-viewer-mode");
            assert_eq!(
                message,
                "invalid WYVERN_VIEWER=\"not-a-viewer-mode\"; expected embedded, none, system, or a named viewer path"
            );
        }
        other => panic!("expected InvalidWyvernViewerEnv, got {other:?}"),
    }
    let out = emit_usage_error(&err).expect("emit");
    assert!(out.contains("Unset WYVERN_VIEWER"), "{out}");
    let err = viewer_env_unicode_error();
    assert!(matches!(err, LoadError::Usage { kind: UsageErrorKind::InvalidWyvernViewerUnicode, ref message }
        if message == "WYVERN_VIEWER is not valid Unicode"));
}

#[test]
fn envelope_strings_are_escaped_as_json() {
    let err = LoadError::Parse { message: "a\u{1}\t\"\\é\u{1f}\u{8}".to_string() };
    let out = emit_parse_error(&err).expect("emit");
    assert!(out.contains(r#""message":"a\u0001\t\"\\é\u001f\b""#), "{out}");
}

#[test]
fn unexpected_arg_lists_declared_flags_sorted_once() {
    let err = ExtensionError::UnexpectedArg {
        token: "extra".into(),
        declared: vec!["root".into(), "file".into(), "root".into()],
        extension_id: ExtensionId::try_from("compose-render".to_string()).expect("id"),
        help_command: "wyvern compose render --help".into(),
    };
    let out = emit_extension_error(&err).expect("emit");
    assert!(out.contains("Accepted flags: --file, --root\""), "{out}");
}
