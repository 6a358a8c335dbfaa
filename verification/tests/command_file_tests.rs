use std::io::{Read, Write};

use tempfile::NamedTempFile;
use wyvern::errors::ExtensionError;
use wyvern::expand::{
    build_match_context, command_file_json_error, command_file_text, expand_command_host,
    FileRead, CommandSource, MAX_COMMAND_FROM_FILE_BYTES,
};
use wyvern::ids::{ExtensionId, MatchToken};
use wyvern::loader::{
    registry_file_text, registry_json_error, share_defaults_missing_error, ExtensionRegistry, MAX_REGISTRY_BYTES,
};
use wyvern::matching::PathRequiresProbe;
use wyvern::registry::{ExpandSpec, ExtensionDef, MatchSpec, SkillSource};

fn s(v: &str) -> String {
    v.to_string()
}

fn from_file_registry(path: &str) -> ExtensionRegistry {
    let def = ExtensionDef {
        id: ExtensionId::try_from(s("from-file")).expect("id"),
        match_spec: MatchSpec {
            positional_suffix: Some(MatchToken::try_from(s(".md")).expect("token")),
            filename: None,
            argv_prefix: None,
            arg_suffix: None,
        },
        extends: None,
        description: None,
        examples: vec![],
        preexec: None,
        expand: Some(ExpandSpec {
            command: None,
            command_from_file: Some(s(path)),
            command_type: None,
            host: None,
        }),
        source: SkillSource::Shipped,
    };
    ExtensionRegistry::from_entries(vec![def]).expect("parse")
}

/// Reads the file the way the CLI does: at most one byte past the limit,
/// then UTF-8 decoding.
fn read_outcome(file: &NamedTempFile) -> FileRead {
    match file.reopen() {
        Err(err) => FileRead::Failed(err.to_string()),
        Ok(f) => {
            let mut buf = Vec::new();
            match f.take(MAX_COMMAND_FROM_FILE_BYTES as u64 + 1).read_to_end(&mut buf) {
                Err(err) => FileRead::Failed(err.to_string()),
                Ok(len) => FileRead::Read { len, text: String::from_utf8(buf).map_err(|e| e.to_string()) },
            }
        }
    }
}

/// Matches `doc.md` against an extension whose command comes from `file`,
/// expands it, and reads the command from the expanded path.
fn expand_from_file(file: &NamedTempFile) -> Result<serde_json::Value, ExtensionError> {
    let path = file.path().to_string_lossy().replace('\\', "/");
    let registry = from_file_registry(&path);
    let argv = vec![s("doc.md")];
    let matched = registry.match_argv(&argv, &PathRequiresProbe { found: vec![] }).expect("match");
    let ctx = build_match_context(&matched, "share/wyvern");
    let (source, _) = expand_command_host(matched.extension(), &ctx)?;
    let CommandSource::FromFile(expanded) = source else {
        panic!("expected a command_from_file source");
    };
    assert_eq!(expanded, path);
    let text = command_file_text(&expanded, read_outcome(file))?;
    serde_json::from_str(&text).map_err(|err| command_file_json_error(&expanded, &err.to_string()))
}

fn literal_braces() {
    let mut file = NamedTempFile::new().expect("tmp");
    file.write_all(br#"{"type":"markdown","content":"use {braces} literally"}"#).expect("write");
    let cmd = expand_from_file(&file).expect("expand");
    assert_eq!(cmd["content"], "use {braces} literally");
}

fn oversize() {
    let mut file = NamedTempFile::new().expect("tmp");
    let body = format!(r#"{{"type":"markdown","content":"{}"}}"#, "x".repeat(MAX_COMMAND_FROM_FILE_BYTES));
    file.write_all(body.as_bytes()).expect("write");
    let err = expand_from_file(&file).expect_err("oversize");
    assert!(
        matches!(err, ExtensionError::Io { ref message, .. } if message.contains("exceeds")),
        "{err:?}"
    );
}

#[test]
fn expand_command_from_file_does_not_expand_literal_braces() {
    literal_braces();
}

#[test]
fn mod_command_from_file_does_not_expand_literal_braces() {
    literal_braces();
}

#[test]
fn expand_command_from_file_rejects_oversize() {
    oversize();
}

#[test]
fn mod_command_from_file_rejects_oversize() {
    oversize();
}

#[test]
fn command_file_failures_are_io_errors() {
    let failed = command_file_text("a.json", FileRead::Failed(s("No such file or directory (os error 2)")));
    assert!(matches!(failed, Err(ExtensionError::Io { ref message })
        if message == "command_from_file 'a.json': No such file or directory (os error 2)"));
    let big = command_file_text("a.json", FileRead::Read { len: MAX_COMMAND_FROM_FILE_BYTES + 1, text: Ok(s("{}")) });
    assert!(matches!(big, Err(ExtensionError::Io { ref message })
        if message == "command_from_file 'a.json' exceeds maximum of 1048576 bytes"));
    let at_limit = command_file_text("a.json", FileRead::Read { len: MAX_COMMAND_FROM_FILE_BYTES, text: Ok(s("{}")) });
    assert_eq!(at_limit.expect("at limit"), "{}");
    let bad = command_file_text("a.json", FileRead::Read { len: 2, text: Err(s("invalid utf-8 sequence")) });
    assert!(matches!(bad, Err(ExtensionError::Io { ref message })
        if message == "command_from_file 'a.json' is not valid UTF-8: invalid utf-8 sequence"));
    let json = command_file_json_error("a.json", "expected value at line 1 column 1");
    assert!(matches!(json, ExtensionError::Io { ref message }
        if message == "command_from_file 'a.json' is not JSON: expected value at line 1 column 1"));
}

#[test]
fn registry_file_failures() {
    let failed = registry_file_text("x.json", FileRead::Failed(s("denied")));
    assert!(matches!(failed, Err(ExtensionError::Io { ref message }) if message == "could not read 'x.json': denied"));
    let big = registry_file_text("x.json", FileRead::Read { len: MAX_REGISTRY_BYTES + 1, text: Ok(s("{}")) });
    assert!(matches!(big, Err(ExtensionError::InvalidRegistry { ref message })
        if message == "registry file 'x.json' exceeds maximum of 1048576 bytes"));
    let bad = registry_file_text("x.json", FileRead::Read { len: 3, text: Err(s("bad byte")) });
    assert!(matches!(bad, Err(ExtensionError::InvalidRegistry { ref message })
        if message == "registry file 'x.json' is not valid UTF-8: bad byte"));
    let ok = registry_file_text("x.json", FileRead::Read { len: 2, text: Ok(s("{}")) });
    assert_eq!(ok.expect("text"), "{}");
    let missing = share_defaults_missing_error("/s/extensions.json");
    assert!(matches!(missing, ExtensionError::InvalidRegistry { ref message }
        if message == "WYVERN_SHARE is set but '/s/extensions.json' is missing or not a file"));
}

#[test]
fn registry_json_failure_is_invalid_registry_exit_2() {
    let detail = serde_json::from_str::<serde_json::Value>("{not-json").expect_err("invalid").to_string();
    let err = registry_json_error("memory", &detail);
    assert!(matches!(err, ExtensionError::InvalidRegistry { ref message } if message.starts_with("invalid JSON in memory: ")));
    assert_eq!(err.exit_code(), 2);
}
