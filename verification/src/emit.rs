//! Stderr envelopes for load, usage, validation and extension failures.

use vstd::prelude::*;

use crate::envelope::{
    envelope_text, envelope_to_json, list1, list2, list3, list4, new_envelope, plain_envelope,
    push_owned, push_string, EnvelopeView, StderrEnvelope,
};
use crate::errors::{
    domain_name, BuiltinDomain, EmitError, ErrorCode, ExtensionError, LoadError,
    PreexecFailureKind, TemplateErrorKind, UsageErrorKind, ValidationError,
};
use crate::text::{
    concat2, concat3, contains_seq, copy_string, decimal, i64_to_decimal, is_empty_str, join,
    join_spec, owned, push_str, signed_decimal, starts_with, str_contains, str_eq,
    sorted_distinct, sorted_set, str_starts_with, u64_to_decimal, views,
};

verus! {

/// Documentation pointer of extension-engine failures.
pub open spec fn extension_docs() -> Seq<char> {
    "docs/plans/phase-F/cli-extensions-contract.md"@
}

/// Flag names with leading dashes.
pub open spec fn dashed(names: Seq<Seq<char>>) -> Seq<Seq<char>> {
    names.map_values(|n: Seq<char>| "--"@ + n)
}

/// Cause and recovery of a template failure kind.
pub open spec fn template_advice(k: TemplateErrorKind) -> (Seq<char>, Seq<Seq<char>>) {
    match k {
        TemplateErrorKind::UnclosedBrace => (
            "Template contains an unclosed `{` brace"@,
            seq!["Close every `{variable}` in the registry expand/preexec templates"@],
        ),
        TemplateErrorKind::UnknownVariable => (
            "Template references an unknown `{variable}`"@,
            seq!["Use only documented template variables from cli-extensions-contract.md"@],
        ),
        TemplateErrorKind::PhaseRestricted => (
            "Template variable is not allowed in this expansion phase"@,
            seq![
                "Move path-only variables to expand phase-1; use phase-2 for preexec stdout vars"@,
            ],
        ),
        TemplateErrorKind::Unavailable => (
            "Template variable is not available in this match context"@,
            seq![
                "Ensure the match provides path/tmpdir/preexec stdout before using this variable"@,
            ],
        ),
        TemplateErrorKind::InvalidSpec => (
            "Expand/preexec spec is incomplete or contradictory"@,
            seq!["Check command_from_file, preexec cmd/args, and host overrides in the registry"@],
        ),
    }
}

/// Cause and recovery of a preexec failure kind.
pub open spec fn preexec_advice(k: Option<PreexecFailureKind>) -> (Seq<char>, Seq<Seq<char>>) {
    match k {
        Some(PreexecFailureKind::SpawnNotFound { cmd }) => (
            "Could not spawn preexec helper '"@ + cmd@ + "'"@,
            seq![
                "Install '"@ + cmd@ + "' or add it to PATH"@,
                "Run wyvern extensions list to see requires"@,
                "Run wyvern --help to list skills"@,
            ],
        ),
        Some(PreexecFailureKind::NonZeroExit { code, stderr_tail }) => (
            if stderr_tail@.len() == 0 {
                "Preexec helper exited with status "@ + signed_decimal(code as int)
            } else {
                stderr_tail@
            },
            seq![
                "Inspect the helper stderr in cause and fix the input path or flags"@,
                "Retry after correcting the file or arguments"@,
                "Run wyvern --help to list skills"@,
            ],
        ),
        Some(PreexecFailureKind::Timeout { cmd, timeout_secs }) => (
            "Preexec helper '"@ + cmd@ + "' timed out after "@ + decimal(timeout_secs as nat)
                + "s"@,
            seq![
                "Increase WYVERN_PREEXEC_TIMEOUT_SECS (current "@ + decimal(timeout_secs as nat)
                    + ") if the helper needs more time"@,
                "Or fix a hung helper or blocked input path"@,
                "Run wyvern --help to list skills"@,
            ],
        ),
        None => (
            "Extension preexec subprocess failed"@,
            seq![
                "Inspect the helper output in the error message"@,
                "Retry after correcting the input path or flags"@,
                "Run wyvern --help to list skills"@,
            ],
        ),
    }
}

/// The `Accepted flags` recovery line of an unexpected-argument failure
/// (`declared` as listed: the envelope passes the names sorted, once each).
pub open spec fn accepted_line(declared: Seq<Seq<char>>, help: Seq<char>) -> Seq<char> {
    if declared.len() == 0 {
        "Run "@ + help
    } else {
        "Accepted flags: "@ + join_spec(dashed(declared), ", "@)
    }
}

/// Envelope of a command-validation failure.
pub open spec fn validation_envelope(e: ValidationError) -> EnvelopeView {
    match e {
        ValidationError::Validation { field, message } => EnvelopeView {
            code: ErrorCode::ValidationError,
            message: message@,
            field: Some(field@),
            subcode: None,
            cause: "Command JSON failed schema checks on '"@ + field@ + "'"@,
            recovery: validation_recovery_spec(field@, message@),
            docs: "docs/wyvern-schema/requirements.md (REQ-0051, REQ-0070)"@,
        },
        ValidationError::State { field, message } => EnvelopeView {
            code: ErrorCode::StateError,
            message: message@,
            field: Some(field@),
            subcode: None,
            cause: "Lifecycle action used outside interactive mode"@,
            recovery: seq![
                "Run with --interactive to use lifecycle actions (show/hide/exit)"@,
                "Omit the action field for one-shot chrome commands"@,
            ],
            docs: "docs/wyvern-schema/requirements.md (REQ-0072)"@,
        },
    }
}

/// Envelope of an extension-engine failure.
pub open spec fn extension_envelope(e: ExtensionError) -> EnvelopeView {
    match e {
        ExtensionError::InvalidRegistry { message } => plain_envelope(
            ErrorCode::ParseError,
            message@,
            "Extension registry JSON could not be loaded"@,
            seq![
                "Fix share/wyvern/extensions.json or .wyvern/extensions.json"@,
                "Registry must be version 1 JSON with an extensions array"@,
            ],
            extension_docs(),
        ),
        ExtensionError::MissingArgs { missing, extension_id, example, help_command, .. } => {
            let m = views(missing@);
            plain_envelope(
                ErrorCode::ValidationError,
                "missing required arguments "@ + join_spec(m, ", "@) + " for '"@ + extension_id@
                    + "'"@,
                "'"@ + extension_id@ + "' requires "@ + join_spec(m, " and "@),
                seq![
                    "Pass "@ + join_spec(m, " "@) + " after the extension prefix"@,
                    "Example: "@ + example@,
                    "Run "@ + help_command@,
                    "Run wyvern --help to list skills"@,
                ],
                extension_docs(),
            )
        },
        ExtensionError::UnexpectedArg { token, declared, extension_id, help_command } => {
            plain_envelope(
                ErrorCode::ValidationError,
                "unexpected argument after extension match: "@ + token@,
                "'"@ + extension_id@ + "' does not accept leftover token '"@ + token@ + "'"@,
                seq![
                    "Remove unexpected argument `"@ + token@ + "`"@,
                    accepted_line(sorted_set(views(declared@)), help_command@),
                    "Run "@ + help_command@,
                    "Run wyvern --help to list skills"@,
                ],
                extension_docs(),
            )
        },
        ExtensionError::PathVarWithoutPath { var } => plain_envelope(
            ErrorCode::ValidationError,
            "template {"@ + var@ + "} requires a matched file path"@,
            "This extension is prefix-only and has no {{path}}"@,
            seq!["Use a suffix or prefix+suffix match when expanding path variables"@],
            extension_docs(),
        ),
        ExtensionError::Template { kind, message } => plain_envelope(
            ErrorCode::ValidationError,
            message@,
            template_advice(kind).0,
            template_advice(kind).1,
            extension_docs(),
        ),
        ExtensionError::Preexec { kind, message } => plain_envelope(
            ErrorCode::IoError,
            message@,
            preexec_advice(kind).0,
            preexec_advice(kind).1,
            extension_docs(),
        ),
        ExtensionError::InvalidCommand { source } => validation_envelope(source),
        ExtensionError::Io { message } => plain_envelope(
            ErrorCode::IoError,
            message@,
            "Extension engine filesystem operation failed"@,
            seq!["Check paths in the registry and working directory permissions"@],
            extension_docs(),
        ),
    }
}

fn template_advice_exec(k: TemplateErrorKind) -> (r: (String, Vec<String>))
    ensures
        r.0@ == template_advice(k).0,
        views(r.1@) == template_advice(k).1,
{
    match k {
        TemplateErrorKind::UnclosedBrace => (
            owned("Template contains an unclosed `{` brace"),
            list1("Close every `{variable}` in the registry expand/preexec templates"),
        ),
        TemplateErrorKind::UnknownVariable => (
            owned("Template references an unknown `{variable}`"),
            list1("Use only documented template variables from cli-extensions-contract.md"),
        ),
        TemplateErrorKind::PhaseRestricted => (
            owned("Template variable is not allowed in this expansion phase"),
            list1(
                "Move path-only variables to expand phase-1; use phase-2 for preexec stdout vars",
            ),
        ),
        TemplateErrorKind::Unavailable => (
            owned("Template variable is not available in this match context"),
            list1(
                "Ensure the match provides path/tmpdir/preexec stdout before using this variable",
            ),
        ),
        TemplateErrorKind::InvalidSpec => (
            owned("Expand/preexec spec is incomplete or contradictory"),
            list1("Check command_from_file, preexec cmd/args, and host overrides in the registry"),
        ),
    }
}

fn preexec_advice_exec(k: &Option<PreexecFailureKind>) -> (r: (String, Vec<String>))
    ensures
        r.0@ == preexec_advice(*k).0,
        views(r.1@) == preexec_advice(*k).1,
{
    match k {
        Some(PreexecFailureKind::SpawnNotFound { cmd }) => {
            let mut rec: Vec<String> = Vec::new();
            push_string(&mut rec, concat3("Install '", cmd.as_str(), "' or add it to PATH"));
            push_owned(&mut rec, "Run wyvern extensions list to see requires");
            push_owned(&mut rec, "Run wyvern --help to list skills");
            let cause = concat3("Could not spawn preexec helper '", cmd.as_str(), "'");
            assert(views(rec@) =~= preexec_advice(*k).1);
            (cause, rec)
        },
        Some(PreexecFailureKind::NonZeroExit { code, stderr_tail }) => {
            let cause = if is_empty_str(stderr_tail.as_str()) {
                let n = i64_to_decimal(*code as i64);
                concat2("Preexec helper exited with status ", n.as_str())
            } else {
                copy_string(stderr_tail)
            };
            (
                cause,
                list3(
                    "Inspect the helper stderr in cause and fix the input path or flags",
                    "Retry after correcting the file or arguments",
                    "Run wyvern --help to list skills",
                ),
            )
        },
        Some(PreexecFailureKind::Timeout { cmd, timeout_secs }) => {
            let secs = u64_to_decimal(*timeout_secs);
            let mut cause = concat3("Preexec helper '", cmd.as_str(), "' timed out after ");
            push_str(&mut cause, secs.as_str());
            push_str(&mut cause, "s");
            let mut rec: Vec<String> = Vec::new();
            push_string(
                &mut rec,
                concat3(
                    "Increase WYVERN_PREEXEC_TIMEOUT_SECS (current ",
                    secs.as_str(),
                    ") if the helper needs more time",
                ),
            );
            push_owned(&mut rec, "Or fix a hung helper or blocked input path");
            push_owned(&mut rec, "Run wyvern --help to list skills");
            assert(views(rec@) =~= preexec_advice(*k).1);
            (cause, rec)
        },
        None => (
            owned("Extension preexec subprocess failed"),
            list3(
                "Inspect the helper output in the error message",
                "Retry after correcting the input path or flags",
                "Run wyvern --help to list skills",
            ),
        ),
    }
}

/// Flag names with leading dashes.
fn dashed_exec(names: &Vec<String>) -> (r: Vec<String>)
    ensures
        views(r@) == dashed(views(names@)),
{
    let mut out: Vec<String> = Vec::new();
    let mut i: usize = 0;
    while i < names.len()
        invariant
            i <= names.len(),
            views(out@) == dashed(views(names@).subrange(0, i as int)),
        decreases names.len() - i,
    {
        push_string(&mut out, concat2("--", names[i].as_str()));
        assert(dashed(views(names@).subrange(0, i + 1)) =~= dashed(
            views(names@).subrange(0, i as int),
        ).push("--"@ + names@[i as int]@));
        i = i + 1;
    }
    assert(views(names@).subrange(0, names.len() as int) =~= views(names@));
    out
}

/// Envelope of a command-validation failure.
pub fn validation_error_envelope(err: &ValidationError) -> (r: StderrEnvelope)
    ensures
        r@ == validation_envelope(*err),
{
    match err {
        ValidationError::Validation { field, message } => StderrEnvelope {
            code: ErrorCode::ValidationError,
            message: copy_string(message),
            field: Some(copy_string(field)),
            subcode: None,
            cause: concat3("Command JSON failed schema checks on '", field.as_str(), "'"),
            recovery: validation_recovery(field.as_str(), message.as_str()),
            docs: owned("docs/wyvern-schema/requirements.md (REQ-0051, REQ-0070)"),
        },
        ValidationError::State { field, message } => StderrEnvelope {
            code: ErrorCode::StateError,
            message: copy_string(message),
            field: Some(copy_string(field)),
            subcode: None,
            cause: owned("Lifecycle action used outside interactive mode"),
            recovery: list2(
                "Run with --interactive to use lifecycle actions (show/hide/exit)",
                "Omit the action field for one-shot chrome commands",
            ),
            docs: owned("docs/wyvern-schema/requirements.md (REQ-0072)"),
        },
    }
}

/// Envelope of an extension-engine failure.
pub fn extension_error_envelope(err: &ExtensionError) -> (r: StderrEnvelope)
    ensures
        r@ == extension_envelope(*err),
{
    let docs = "docs/plans/phase-F/cli-extensions-contract.md";
    match err {
        ExtensionError::InvalidRegistry { message } => new_envelope(
            ErrorCode::ParseError,
            copy_string(message),
            owned("Extension registry JSON could not be loaded"),
            list2(
                "Fix share/wyvern/extensions.json or .wyvern/extensions.json",
                "Registry must be version 1 JSON with an extensions array",
            ),
            docs,
        ),
        ExtensionError::MissingArgs { missing, extension_id, example, help_command, .. } => {
            let comma = join(missing, ", ");
            let and = join(missing, " and ");
            let space = join(missing, " ");
            let mut message = concat2("missing required arguments ", comma.as_str());
            push_str(&mut message, " for '");
            push_str(&mut message, extension_id.as_str());
            push_str(&mut message, "'");
            let cause = concat3("'", extension_id.as_str(), "' requires ");
            let mut cause = cause;
            push_str(&mut cause, and.as_str());
            let mut rec: Vec<String> = Vec::new();
            push_string(&mut rec, concat3("Pass ", space.as_str(), " after the extension prefix"));
            push_string(&mut rec, concat2("Example: ", example.as_str()));
            push_string(&mut rec, concat2("Run ", help_command.as_str()));
            push_owned(&mut rec, "Run wyvern --help to list skills");
            assert(views(rec@) =~= extension_envelope(*err).recovery);
            new_envelope(ErrorCode::ValidationError, message, cause, rec, docs)
        },
        ExtensionError::UnexpectedArg { token, declared, extension_id, help_command } => {
            let names = sorted_distinct(declared);
            proof {
                crate::text::lemma_sorted_set(views(names@), views(declared@));
            }
            let accepted = if names.len() == 0 {
                concat2("Run ", help_command.as_str())
            } else {
                let flags = dashed_exec(&names);
                let joined = join(&flags, ", ");
                concat2("Accepted flags: ", joined.as_str())
            };
            let message = concat2("unexpected argument after extension match: ", token.as_str());
            let mut cause = concat3(
                "'",
                extension_id.as_str(),
                "' does not accept leftover token '",
            );
            push_str(&mut cause, token.as_str());
            push_str(&mut cause, "'");
            let mut rec: Vec<String> = Vec::new();
            push_string(&mut rec, concat3("Remove unexpected argument `", token.as_str(), "`"));
            push_string(&mut rec, accepted);
            push_string(&mut rec, concat2("Run ", help_command.as_str()));
            push_owned(&mut rec, "Run wyvern --help to list skills");
            assert(views(rec@) =~= extension_envelope(*err).recovery);
            new_envelope(ErrorCode::ValidationError, message, cause, rec, docs)
        },
        ExtensionError::PathVarWithoutPath { var } => new_envelope(
            ErrorCode::ValidationError,
            concat3("template {", var.as_str(), "} requires a matched file path"),
            owned("This extension is prefix-only and has no {{path}}"),
            list1("Use a suffix or prefix+suffix match when expanding path variables"),
            docs,
        ),
        ExtensionError::Template { kind, message } => {
            let (cause, rec) = template_advice_exec(*kind);
            new_envelope(ErrorCode::ValidationError, copy_string(message), cause, rec, docs)
        },
        ExtensionError::Preexec { kind, message } => {
            let (cause, rec) = preexec_advice_exec(kind);
            new_envelope(ErrorCode::IoError, copy_string(message), cause, rec, docs)
        },
        ExtensionError::InvalidCommand { source } => validation_error_envelope(source),
        ExtensionError::Io { message } => new_envelope(
            ErrorCode::IoError,
            copy_string(message),
            owned("Extension engine filesystem operation failed"),
            list1("Check paths in the registry and working directory permissions"),
            docs,
        ),
    }
}

/// Serialize an extension-engine error as stderr JSON.
pub fn emit_extension_error(err: &ExtensionError) -> (r: Result<String, EmitError>)
    ensures
        r matches Ok(t) && t@ == envelope_text(extension_envelope(*err)),
{
    envelope_to_json(&extension_error_envelope(err))
}

/// Serialize a command-validation error as stderr JSON.
pub fn emit_validation_error(err: &ValidationError) -> (r: Result<String, EmitError>)
    ensures
        r matches Ok(t) && t@ == envelope_text(validation_envelope(*err)),
{
    envelope_to_json(&validation_error_envelope(err))
}

/// Recovery steps for a validation failure on `field` with `message`.
pub open spec fn validation_recovery_spec(field: Seq<char>, message: Seq<char>) -> Seq<Seq<char>> {
    let example_report =
        "Example: {\"type\":\"report\",\"title\":\"Panel\",\"page\":\"pages/view.xhtml\",\"mode\":\"view\"}"@;
    let example_wizard =
        "Example: {\"type\":\"wizard\",\"page\":{\"id\":\"start\",\"title\":\"Start\",\"html\":\"pages/start.html\"}}"@;
    let example_page =
        "Example: \"page\":{\"id\":\"start\",\"title\":\"Start\",\"html\":\"pages/start.html\"}"@;
    if field == "title"@ && contains_seq(message, "missing required field"@) {
        seq![
            "Add required field \"title\" with a string value"@,
            "Example: {\"type\":\"chrome\",\"title\":\"Foundation\"}"@,
        ]
    } else if field == "type"@ && contains_seq(message, "missing required field"@) {
        seq![
            "Add required field \"type\" with value \"chrome\""@,
            "Example: {\"type\":\"chrome\",\"title\":\"Foundation\"}"@,
        ]
    } else if field == "type"@ && contains_seq(message, "expected one of"@) {
        seq![
            "Set \"type\" to one of: chrome, message, input, markdown, question, wizard, report"@,
            example_report,
            example_wizard,
        ]
    } else if field == "page"@ && contains_seq(message, "missing required field"@) {
        seq![
            "For report commands, set \"page\" to a .html or .xhtml path string relative to --ui-root"@,
            example_report,
            "For wizard commands, add required object field \"page\" with id, title, and html"@,
            example_wizard,
        ]
    } else if field == "page"@ && (contains_seq(message, "must end with"@) || contains_seq(
        message,
        "expected string"@,
    ) || contains_seq(message, "non-empty string"@)) {
        seq![
            "Set report \"page\" to a non-empty .html or .xhtml path string relative to --ui-root"@,
            example_report,
        ]
    } else if field == "page"@ && contains_seq(message, "expected object"@) {
        seq!["Provide \"page\" as a JSON object with id, title, and html"@]
    } else if field == "page.id"@ {
        seq!["Set \"page.id\" to a non-empty string page identity"@, example_page]
    } else if field == "page.title"@ {
        seq!["Set \"page.title\" to a non-empty string display title"@, example_page]
    } else if field == "page.html"@ {
        seq!["Set \"page.html\" to a non-empty path relative to --ui-root"@, example_page]
    } else if field == "page.layout"@ {
        seq!["Set \"page.layout\" to one of: dialog, workspace (or omit the field)"@]
    } else if starts_with(field, "page."@) && contains_seq(message, "unknown field"@) {
        seq![
            "Remove unknown field \""@ + field
                + "\"; page allows only id, title, html, and layout"@,
        ]
    } else if field == "buttons"@ {
        seq![
            "Set \"buttons\" to one of: ok, ok_cancel, yes_no, yes_no_cancel, retry_cancel, custom"@,
        ]
    } else if field == "level"@ {
        seq!["Set \"level\" to one of: info, warning, error, question"@]
    } else if field == "custom_buttons"@ {
        seq![
            "Provide \"custom_buttons\" as a string array only when \"buttons\" is \"custom\""@,
        ]
    } else if field == "default_button"@ {
        seq!["Set \"default_button\" to a 0-based index within the active button list"@]
    } else if field == "markdown"@ {
        seq!["Provide \"markdown\" as a JSON boolean (true or false)"@]
    } else if field == "file"@ && contains_seq(message, "exactly one of"@) {
        seq![
            "Provide exactly one of \"file\" or \"content\" for markdown commands"@,
            "Example: {\"type\":\"markdown\",\"file\":\"doc.md\"}"@,
            "Example: {\"type\":\"markdown\",\"content\":\"# Hello\"}"@,
        ]
    } else if contains_seq(message, "expected string"@) {
        seq!["Provide field \""@ + field + "\" as a JSON string"@]
    } else if contains_seq(message, "unknown field"@) {
        seq![
            "Remove unknown field \""@ + field
                + "\"; check the schema for this command type"@,
        ]
    } else if contains_seq(message, "expected JSON object"@) {
        seq!["Pass a single JSON object as the command payload"@]
    } else {
        seq!["Fix field \""@ + field + "\" to match the current phase command schema"@]
    }
}

/// Recovery steps for a validation failure on `field` with `message`.
pub fn validation_recovery(field: &str, message: &str) -> (r: Vec<String>)
    ensures
        views(r@) == validation_recovery_spec(field@, message@),
{
    let example_report =
        "Example: {\"type\":\"report\",\"title\":\"Panel\",\"page\":\"pages/view.xhtml\",\"mode\":\"view\"}";
    let example_wizard =
        "Example: {\"type\":\"wizard\",\"page\":{\"id\":\"start\",\"title\":\"Start\",\"html\":\"pages/start.html\"}}";
    let example_page =
        "Example: \"page\":{\"id\":\"start\",\"title\":\"Start\",\"html\":\"pages/start.html\"}";
    let missing = str_contains(message, "missing required field");
    if str_eq(field, "title") && missing {
        return list2(
            "Add required field \"title\" with a string value",
            "Example: {\"type\":\"chrome\",\"title\":\"Foundation\"}",
        );
    }
    if str_eq(field, "type") && missing {
        return list2(
            "Add required field \"type\" with value \"chrome\"",
            "Example: {\"type\":\"chrome\",\"title\":\"Foundation\"}",
        );
    }
    if str_eq(field, "type") && str_contains(message, "expected one of") {
        return list3(
            "Set \"type\" to one of: chrome, message, input, markdown, question, wizard, report",
            example_report,
            example_wizard,
        );
    }
    let page = str_eq(field, "page");
    if page && missing {
        return list4(
            "For report commands, set \"page\" to a .html or .xhtml path string relative to --ui-root",
            example_report,
            "For wizard commands, add required object field \"page\" with id, title, and html",
            example_wizard,
        );
    }
    let expected_string = str_contains(message, "expected string");
    if page && (str_contains(message, "must end with") || expected_string || str_contains(
        message,
        "non-empty string",
    )) {
        return list2(
            "Set report \"page\" to a non-empty .html or .xhtml path string relative to --ui-root",
            example_report,
        );
    }
    if page && str_contains(message, "expected object") {
        return list1("Provide \"page\" as a JSON object with id, title, and html");
    }
    if str_eq(field, "page.id") {
        return list2("Set \"page.id\" to a non-empty string page identity", example_page);
    }
    if str_eq(field, "page.title") {
        return list2("Set \"page.title\" to a non-empty string display title", example_page);
    }
    if str_eq(field, "page.html") {
        return list2("Set \"page.html\" to a non-empty path relative to --ui-root", example_page);
    }
    if str_eq(field, "page.layout") {
        return list1("Set \"page.layout\" to one of: dialog, workspace (or omit the field)");
    }
    let unknown = str_contains(message, "unknown field");
    if str_starts_with(field, "page.") && unknown {
        let mut v: Vec<String> = Vec::new();
        push_string(
            &mut v,
            concat3(
                "Remove unknown field \"",
                field,
                "\"; page allows only id, title, html, and layout",
            ),
        );
        assert(views(v@) =~= validation_recovery_spec(field@, message@));
        return v;
    }
    if str_eq(field, "buttons") {
        return list1(
            "Set \"buttons\" to one of: ok, ok_cancel, yes_no, yes_no_cancel, retry_cancel, custom",
        );
    }
    if str_eq(field, "level") {
        return list1("Set \"level\" to one of: info, warning, error, question");
    }
    if str_eq(field, "custom_buttons") {
        return list1(
            "Provide \"custom_buttons\" as a string array only when \"buttons\" is \"custom\"",
        );
    }
    if str_eq(field, "default_button") {
        return list1("Set \"default_button\" to a 0-based index within the active button list");
    }
    if str_eq(field, "markdown") {
        return list1("Provide \"markdown\" as a JSON boolean (true or false)");
    }
    if str_eq(field, "file") && str_contains(message, "exactly one of") {
        return list3(
            "Provide exactly one of \"file\" or \"content\" for markdown commands",
            "Example: {\"type\":\"markdown\",\"file\":\"doc.md\"}",
            "Example: {\"type\":\"markdown\",\"content\":\"# Hello\"}",
        );
    }
    let mut v: Vec<String> = Vec::new();
    if expected_string {
        push_string(&mut v, concat3("Provide field \"", field, "\" as a JSON string"));
    } else if unknown {
        push_string(
            &mut v,
            concat3("Remove unknown field \"", field, "\"; check the schema for this command type"),
        );
    } else if str_contains(message, "expected JSON object") {
        push_owned(&mut v, "Pass a single JSON object as the command payload");
    } else {
        push_string(
            &mut v,
            concat3("Fix field \"", field, "\" to match the current phase command schema"),
        );
    }
    assert(views(v@) =~= validation_recovery_spec(field@, message@));
    v
}

/// Envelope of an argv that is neither a command nor an extension invocation.
pub open spec fn usage_message_envelope(message: Seq<char>) -> EnvelopeView {
    plain_envelope(
        ErrorCode::ParseError,
        message,
        "CLI argv was not a valid command or extension invocation"@,
        seq![
            "Pass a JSON command, a .json file, or a path handled by an extension"@,
            "Run wyvern extensions list to see file-type and prefix extensions"@,
            "Run wyvern --help for host flags"@,
        ],
        "docs/wyvern/requirements.md (REQ-0130)"@,
    )
}

/// Serialize a usage / unknown-subcommand message as stderr JSON (exit 2).
pub fn emit_usage_message(message: &str) -> (r: Result<String, EmitError>)
    ensures
        r matches Ok(t) && t@ == envelope_text(usage_message_envelope(message@)),
{
    let e = new_envelope(
        ErrorCode::ParseError,
        owned(message),
        owned("CLI argv was not a valid command or extension invocation"),
        list3(
            "Pass a JSON command, a .json file, or a path handled by an extension",
            "Run wyvern extensions list to see file-type and prefix extensions",
            "Run wyvern --help for host flags",
        ),
        "docs/wyvern/requirements.md (REQ-0130)",
    );
    envelope_to_json(&e)
}

/// Supported viewer modes, as listed in recovery steps.
pub open spec fn viewer_modes_line() -> Seq<char> {
    "Use one of: embedded, none, system, chrome, safari, edge, firefox"@
}

/// Cause, recovery and docs of a usage failure kind.
pub open spec fn usage_advice(kind: UsageErrorKind) -> (Seq<char>, Seq<Seq<char>>, Seq<char>) {
    match kind {
        UsageErrorKind::Generic => (
            "CLI argv was not a valid command or extension invocation"@,
            seq![
                "Pass a JSON command, a .json file, or a path handled by an extension"@,
                "Run wyvern extensions list to see file-type and prefix extensions"@,
                "Run wyvern --help for host flags"@,
            ],
            "docs/wyvern/requirements.md (REQ-0130)"@,
        ),
        UsageErrorKind::InvalidBind { .. } => (
            "The --bind value is not a valid socket address"@,
            seq![
                "Use host:port form (example: 127.0.0.1:0 for an ephemeral loopback port)"@,
                "For 0.0.0.0 / LAN binds, also pass --allow-non-loopback"@,
                "Check the address is a valid IPv4/IPv6 socket address"@,
            ],
            "docs/plans/phase-F/README.md"@,
        ),
        UsageErrorKind::MissingFlagValue { flag } => (
            "Host flag "@ + flag@ + " requires a value"@,
            seq![
                "Pass "@ + flag@ + " VALUE on the command line"@,
                "Use --bind=ADDR:PORT or --viewer=MODE inline forms when preferred"@,
            ],
            "docs/plans/phase-F/README.md"@,
        ),
        UsageErrorKind::InvalidViewer { .. } => (
            "The --viewer value is not a supported viewer mode"@,
            seq![
                viewer_modes_line(),
                "Omit --viewer to use embedded (default)"@,
                "Set WYVERN_VIEWER=none for headless / CI"@,
            ],
            "docs/plans/phase-C/http-viewer-contract.md"@,
        ),
        UsageErrorKind::InvalidWyvernViewerEnv { .. } => (
            "WYVERN_VIEWER is set but not a valid viewer mode"@,
            seq![
                viewer_modes_line(),
                "Unset WYVERN_VIEWER to use embedded (default)"@,
                "Use WYVERN_VIEWER=none for headless / CI"@,
            ],
            "docs/plans/phase-C/http-viewer-contract.md"@,
        ),
        UsageErrorKind::InvalidWyvernViewerUnicode => (
            "WYVERN_VIEWER is not valid Unicode"@,
            seq![
                "Set WYVERN_VIEWER to ASCII viewer mode names only"@,
                "Unset WYVERN_VIEWER to use embedded (default)"@,
            ],
            "docs/plans/phase-C/http-viewer-contract.md"@,
        ),
        UsageErrorKind::UnknownSubcommand { domain, token } => (
            "'"@ + token@ + "' is not a valid "@ + domain_name(domain) + " subcommand"@,
            match domain {
                BuiltinDomain::Browsers => seq![
                    "Use wyvern browsers list or wyvern browsers refresh"@,
                    "Run wyvern browsers --help"@,
                ],
                BuiltinDomain::Extensions => seq![
                    "Use wyvern extensions list or wyvern extensions show <id>"@,
                    "Run wyvern extensions --help"@,
                ],
                BuiltinDomain::Examples => seq![
                    "Use wyvern examples list or wyvern examples list --json"@,
                    "Run wyvern examples --help"@,
                ],
                BuiltinDomain::Wizard => seq![
                    "Use wyvern wizard lint <path>"@,
                    "Run wyvern wizard --help"@,
                ],
            },
            "docs/wyvern/requirements.md (REQ-0134)"@,
        ),
        UsageErrorKind::MissingExtensionId => (
            "extensions show requires a shipped or project extension id"@,
            seq![
                "Pass an id: wyvern extensions show <id>"@,
                "Run wyvern extensions list to see available ids"@,
                "Run wyvern extensions list --json for machine-readable ids"@,
                "Run wyvern extensions --help"@,
            ],
            "docs/wyvern/requirements.md (REQ-0132)"@,
        ),
    }
}

fn usage_advice_exec(kind: &UsageErrorKind) -> (r: (String, Vec<String>, String))
    ensures
        r.0@ == usage_advice(*kind).0,
        views(r.1@) == usage_advice(*kind).1,
        r.2@ == usage_advice(*kind).2,
{
    match kind {
        UsageErrorKind::Generic => (
            owned("CLI argv was not a valid command or extension invocation"),
            list3(
                "Pass a JSON command, a .json file, or a path handled by an extension",
                "Run wyvern extensions list to see file-type and prefix extensions",
                "Run wyvern --help for host flags",
            ),
            owned("docs/wyvern/requirements.md (REQ-0130)"),
        ),
        UsageErrorKind::InvalidBind { .. } => (
            owned("The --bind value is not a valid socket address"),
            list3(
                "Use host:port form (example: 127.0.0.1:0 for an ephemeral loopback port)",
                "For 0.0.0.0 / LAN binds, also pass --allow-non-loopback",
                "Check the address is a valid IPv4/IPv6 socket address",
            ),
            owned("docs/plans/phase-F/README.md"),
        ),
        UsageErrorKind::MissingFlagValue { flag } => {
            let mut rec: Vec<String> = Vec::new();
            push_string(&mut rec, concat3("Pass ", flag.as_str(), " VALUE on the command line"));
            push_owned(&mut rec, "Use --bind=ADDR:PORT or --viewer=MODE inline forms when preferred");
            assert(views(rec@) =~= usage_advice(*kind).1);
            (
                concat3("Host flag ", flag.as_str(), " requires a value"),
                rec,
                owned("docs/plans/phase-F/README.md"),
            )
        },
        UsageErrorKind::InvalidViewer { .. } => (
            owned("The --viewer value is not a supported viewer mode"),
            list3(
                "Use one of: embedded, none, system, chrome, safari, edge, firefox",
                "Omit --viewer to use embedded (default)",
                "Set WYVERN_VIEWER=none for headless / CI",
            ),
            owned("docs/plans/phase-C/http-viewer-contract.md"),
        ),
        UsageErrorKind::InvalidWyvernViewerEnv { .. } => (
            owned("WYVERN_VIEWER is set but not a valid viewer mode"),
            list3(
                "Use one of: embedded, none, system, chrome, safari, edge, firefox",
                "Unset WYVERN_VIEWER to use embedded (default)",
                "Use WYVERN_VIEWER=none for headless / CI",
            ),
            owned("docs/plans/phase-C/http-viewer-contract.md"),
        ),
        UsageErrorKind::InvalidWyvernViewerUnicode => (
            owned("WYVERN_VIEWER is not valid Unicode"),
            list2(
                "Set WYVERN_VIEWER to ASCII viewer mode names only",
                "Unset WYVERN_VIEWER to use embedded (default)",
            ),
            owned("docs/plans/phase-C/http-viewer-contract.md"),
        ),
        UsageErrorKind::UnknownSubcommand { domain, token } => {
            let mut cause = concat3("'", token.as_str(), "' is not a valid ");
            push_str(&mut cause, domain.as_str());
            push_str(&mut cause, " subcommand");
            let rec = match domain {
                BuiltinDomain::Browsers => list2(
                    "Use wyvern browsers list or wyvern browsers refresh",
                    "Run wyvern browsers --help",
                ),
                BuiltinDomain::Extensions => list2(
                    "Use wyvern extensions list or wyvern extensions show <id>",
                    "Run wyvern extensions --help",
                ),
                BuiltinDomain::Examples => list2(
                    "Use wyvern examples list or wyvern examples list --json",
                    "Run wyvern examples --help",
                ),
                BuiltinDomain::Wizard => list2(
                    "Use wyvern wizard lint <path>",
                    "Run wyvern wizard --help",
                ),
            };
            (cause, rec, owned("docs/wyvern/requirements.md (REQ-0134)"))
        },
        UsageErrorKind::MissingExtensionId => (
            owned("extensions show requires a shipped or project extension id"),
            list4(
                "Pass an id: wyvern extensions show <id>",
                "Run wyvern extensions list to see available ids",
                "Run wyvern extensions list --json for machine-readable ids",
                "Run wyvern extensions --help",
            ),
            owned("docs/wyvern/requirements.md (REQ-0132)"),
        ),
    }
}

/// Envelope of a load failure, by kind: usage, parse or I/O.
pub open spec fn load_envelope(err: LoadError) -> EnvelopeView {
    match err {
        LoadError::Usage { kind, message } => plain_envelope(
            ErrorCode::ParseError,
            message@,
            usage_advice(kind).0,
            usage_advice(kind).1,
            usage_advice(kind).2,
        ),
        LoadError::Parse { message } => plain_envelope(
            ErrorCode::ParseError,
            message@,
            "Input was not valid JSON"@,
            seq![
                "Ensure input is valid JSON"@,
                "Check for trailing commas, unquoted keys, or truncated input"@,
            ],
            "docs/wyvern-schema/requirements.md (REQ-0069)"@,
        ),
        LoadError::Io { field, message } => EnvelopeView {
            code: ErrorCode::IoError,
            message: message@,
            field: Some(field@),
            subcode: None,
            cause: "Failed to read input from '"@ + field@ + "'"@,
            recovery: seq![
                "Verify the file path exists and is readable"@,
                "Pass JSON inline as an argv string or via stdin"@,
            ],
            docs: "docs/wyvern-schema/requirements.md (REQ-0071)"@,
        },
    }
}

/// Envelope of a load failure.
pub fn load_error_envelope(err: &LoadError) -> (r: StderrEnvelope)
    ensures
        r@ == load_envelope(*err),
{
    match err {
        LoadError::Usage { kind, message } => {
            let (cause, rec, docs) = usage_advice_exec(kind);
            new_envelope(ErrorCode::ParseError, copy_string(message), cause, rec, docs.as_str())
        },
        LoadError::Parse { message } => new_envelope(
            ErrorCode::ParseError,
            copy_string(message),
            owned("Input was not valid JSON"),
            list2(
                "Ensure input is valid JSON",
                "Check for trailing commas, unquoted keys, or truncated input",
            ),
            "docs/wyvern-schema/requirements.md (REQ-0069)",
        ),
        LoadError::Io { field, message } => StderrEnvelope {
            code: ErrorCode::IoError,
            message: copy_string(message),
            field: Some(copy_string(field)),
            subcode: None,
            cause: concat3("Failed to read input from '", field.as_str(), "'"),
            recovery: list2(
                "Verify the file path exists and is readable",
                "Pass JSON inline as an argv string or via stdin",
            ),
            docs: owned("docs/wyvern-schema/requirements.md (REQ-0071)"),
        },
    }
}

/// Serialize [`LoadError::Usage`] as stderr JSON with flag-specific
/// recovery; any other kind is refused.
pub fn emit_usage_error(err: &LoadError) -> (r: Result<String, EmitError>)
    ensures
        (*err is Usage) ==> (r matches Ok(t) && t@ == envelope_text(load_envelope(*err))),
        !(*err is Usage) ==> (r matches Err(EmitError::Serialize { message }) && message@
            == "emit_usage_error: expected Usage"@),
{
    match err {
        LoadError::Usage { .. } => envelope_to_json(&load_error_envelope(err)),
        _ => Err(EmitError::Serialize { message: owned("emit_usage_error: expected Usage") }),
    }
}

/// Serialize [`LoadError::Parse`] as stderr JSON; any other kind is refused.
pub fn emit_parse_error(err: &LoadError) -> (r: Result<String, EmitError>)
    ensures
        (*err is Parse) ==> (r matches Ok(t) && t@ == envelope_text(load_envelope(*err))),
        !(*err is Parse) ==> (r matches Err(EmitError::Serialize { message }) && message@
            == "emit_parse_error: expected Parse"@),
{
    match err {
        LoadError::Parse { .. } => envelope_to_json(&load_error_envelope(err)),
        _ => Err(EmitError::Serialize { message: owned("emit_parse_error: expected Parse") }),
    }
}

/// Serialize [`LoadError::Io`] as stderr JSON; any other kind is refused.
pub fn emit_io_error(err: &LoadError) -> (r: Result<String, EmitError>)
    ensures
        (*err is Io) ==> (r matches Ok(t) && t@ == envelope_text(load_envelope(*err))),
        !(*err is Io) ==> (r matches Err(EmitError::Serialize { message }) && message@
            == "emit_io_error: expected Io"@),
{
    match err {
        LoadError::Io { .. } => envelope_to_json(&load_error_envelope(err)),
        _ => Err(EmitError::Serialize { message: owned("emit_io_error: expected Io") }),
    }
}

/// Envelope printed when serialization itself failed at the emit boundary.
pub open spec fn internal_envelope(message: Seq<char>) -> EnvelopeView {
    plain_envelope(
        ErrorCode::InternalError,
        message,
        "Stdout or stderr JSON serialization failed at the CLI emit boundary"@,
        seq!["Retry the command"@, "Report a bug if the payload is valid JSON but emit still fails"@],
        "docs/wyvern-schema/requirements.md (REQ-0078)"@,
    )
}

/// Envelope for a serialization failure at the emit boundary.
pub fn internal_error_envelope(err: &EmitError) -> (r: StderrEnvelope)
    ensures
        r@ == internal_envelope(
            match *err {
                EmitError::Serialize { message } => message@,
            },
        ),
{
    let EmitError::Serialize { message } = err;
    new_envelope(
        ErrorCode::InternalError,
        copy_string(message),
        owned("Stdout or stderr JSON serialization failed at the CLI emit boundary"),
        list2("Retry the command", "Report a bug if the payload is valid JSON but emit still fails"),
        "docs/wyvern-schema/requirements.md (REQ-0078)",
    )
}

/// An extension failure exits with the code of its envelope's error code.
pub proof fn lemma_extension_exit(e: ExtensionError)
    ensures
        crate::errors::extension_exit(e) == crate::errors::code_exit(extension_envelope(e).code),
{
}

/// A load failure exits with the code of its envelope's error code.
pub proof fn lemma_load_exit(e: LoadError)
    ensures
        crate::errors::load_exit(e) == crate::errors::code_exit(load_envelope(e).code),
{
}

} // verus!
