//! Stderr reports for dialog-host and viewer failures: which error code,
//! message, cause, recovery steps, documentation pointer and sub-code each
//! failure is reported with. The host's error codes are those of the shared
//! schema, which also fixes their wire names and exit statuses; this module
//! names them only as [`HostCode`].

use vstd::prelude::*;
use crate::envelope::{list2, list3, list4, push_string};
use crate::text::{concat2, concat3, decimal, owned, u64_to_decimal, views};
use crate::viewer::ViewerSpawnError;

verus! {

/// Schema error codes under which host failures are reported.
#[derive(Debug, Clone, Copy, PartialEq, Eq, Structural)]
pub enum HostCode {
    /// The dialog HTTP server could not bind.
    HostBindError,
    /// A UI template or page is missing.
    UiNotFound,
    /// The dialog type has no host renderer.
    UnsupportedType,
    /// Any other host failure.
    HostError,
    /// The viewer could not be found or used.
    HostViewerError,
    /// No result was posted before the idle timeout.
    SessionTimeoutError,
}

/// A dialog-host failure, with its details as plain values.
#[derive(Debug)]
pub enum HostFailure {
    /// Binding the HTTP server failed.
    Bind {
        /// Failure summary.
        message: String,
        /// Displayed underlying error, if any.
        source: Option<String>,
    },
    /// A UI template or page is missing.
    UiNotFound {
        /// The missing path, as displayed.
        path: String,
        /// Displayed underlying error, if any.
        source: Option<String>,
    },
    /// The dialog type is not served by the host.
    UnsupportedType {
        /// The dialog type.
        dialog_type: String,
    },
    /// A posted result body was invalid.
    InvalidResult {
        /// Failure detail.
        message: String,
    },
    /// The requested viewer was not found.
    ViewerNotFound {
        /// Viewer id.
        id: String,
        /// Install hint.
        hint: String,
    },
    /// The viewer mode is not supported here.
    ViewerUnsupported {
        /// The mode's name.
        mode: String,
    },
    /// The browser registry cache failed.
    Registry {
        /// Failure detail.
        message: String,
    },
    /// Internal host failure.
    Internal {
        /// Failure detail.
        message: String,
    },
    /// A wizard session failed.
    Wizard {
        /// The wizard error's sub-code.
        subcode: String,
        /// The wizard error, as displayed.
        detail: String,
    },
    /// No result was posted before the idle timeout.
    SessionTimeout {
        /// The timeout, in whole seconds.
        timeout_secs: u64,
    },
}

/// A failure report before serialization.
#[derive(Debug)]
pub struct HostReport {
    /// Error code.
    pub code: HostCode,
    /// Message.
    pub message: String,
    /// Sub-code, when the failure has one.
    pub subcode: Option<String>,
    /// Cause.
    pub cause: String,
    /// Recovery steps, in order.
    pub recovery: Vec<String>,
    /// Documentation pointer.
    pub docs: String,
}

/// The view of a [`HostReport`].
pub struct HostReportView {
    /// Error code.
    pub code: HostCode,
    /// Message.
    pub message: Seq<char>,
    /// Sub-code.
    pub subcode: Option<Seq<char>>,
    /// Cause.
    pub cause: Seq<char>,
    /// Recovery steps.
    pub recovery: Seq<Seq<char>>,
    /// Documentation pointer.
    pub docs: Seq<char>,
}

impl View for HostReport {
    type V = HostReportView;

    open spec fn view(&self) -> HostReportView {
        HostReportView {
            code: self.code,
            message: self.message@,
            subcode: match self.subcode {
                Some(s) => Some(s@),
                None => None,
            },
            cause: self.cause@,
            recovery: views(self.recovery@),
            docs: self.docs@,
        }
    }
}

/// A report without a sub-code.
pub open spec fn report(
    code: HostCode,
    message: Seq<char>,
    cause: Seq<char>,
    recovery: Seq<Seq<char>>,
    docs: Seq<char>,
) -> HostReportView {
    HostReportView { code, message, subcode: None, cause, recovery, docs }
}

/// Documentation pointer for viewer failures.
pub open spec fn viewer_docs() -> Seq<char> {
    "docs/plans/phase-C/http-viewer-contract.md"@
}

/// How each host failure is reported.
pub open spec fn host_report_spec(f: HostFailure) -> HostReportView {
    match f {
        HostFailure::Bind { message, source } => report(
            HostCode::HostBindError,
            match source {
                Some(e) => message@ + ": "@ + e@,
                None => message@,
            },
            "Failed to bind the dialog HTTP server"@,
            seq![
                "Check that --bind is a valid address"@,
                "Try --bind 127.0.0.1:0 for an ephemeral port"@,
            ],
            "docs/wyvern-host/requirements.md (REQ-0091)"@,
        ),
        HostFailure::UiNotFound { path, source } => report(
            HostCode::UiNotFound,
            match source {
                Some(e) => "UI not found at '"@ + path@ + "': "@ + e@,
                None => "UI not found at '"@ + path@ + "'"@,
            },
            "Packaged UI root, dialog template, wizard page HTML, or report page is missing"@,
            seq![
                "Pass --ui-root pointing at a directory with message/, input/, markdown/, question/, and chrome/ templates"@,
                "For wizard commands, ensure page.html exists relative to --ui-root (served under /wizard/**)"@,
                "For report commands, ensure page exists relative to --ui-root (served under /report/**)"@,
                "Ensure ui/{message,input,markdown,question,chrome}/ exist in the workspace for development"@,
            ],
            "docs/wyvern-host/requirements.md (REQ-0093, REQ-0100)"@,
        ),
        HostFailure::UnsupportedType { dialog_type } => report(
            HostCode::UnsupportedType,
            "dialog type '"@ + dialog_type@ + "' is not implemented on the HTTP host yet"@,
            "Schema validation passed; host matrix supports chrome, message, input, markdown, question, wizard, and report"@,
            seq!["Use one of: chrome, message, input, markdown, question, wizard, report"@],
            "docs/plans/phase-C/http-dialog-contract.md"@,
        ),
        HostFailure::InvalidResult { message } => report(
            HostCode::HostError,
            message@,
            "POST /api/result body was invalid for the active dialog"@,
            seq!["Submit a body matching the dialog CommandResult wire shape"@],
            "docs/plans/phase-C/http-post-schema.md"@,
        ),
        HostFailure::ViewerNotFound { id, hint } => report(
            HostCode::HostViewerError,
            "viewer '"@ + id@ + "' not found"@,
            hint@,
            seq!["Install "@ + id@ + " or use --viewer system"@, "Use --viewer none for headless / CI"@],
            viewer_docs(),
        ),
        HostFailure::ViewerUnsupported { mode } => report(
            HostCode::HostViewerError,
            "viewer mode '"@ + mode@ + "' is not supported by host::run"@,
            "Embedded one-shot must use begin + wyvern-viewer spawn (CLI pipeline)"@,
            seq![
                "Omit --viewer or use --viewer embedded (CLI default)"@,
                "Use --viewer none for headless / CI"@,
            ],
            viewer_docs(),
        ),
        HostFailure::Registry { message } => report(
            HostCode::HostError,
            message@,
            "Browser registry cache read/write failed"@,
            seq![
                "Run `wyvern browsers refresh` to rebuild the cache"@,
                "Check WYVERN_BROWSERS_FILE path and cache directory permissions"@,
                "Delete a corrupt browsers.json and retry"@,
            ],
            viewer_docs(),
        ),
        HostFailure::Internal { message } => report(
            HostCode::HostError,
            message@,
            "Internal HTTP host failure"@,
            seq!["Retry the command"@, "Report a bug if it persists"@],
            "docs/wyvern-host/architecture.md"@,
        ),
        HostFailure::Wizard { subcode, detail } => HostReportView {
            code: HostCode::HostError,
            message: subcode@ + ": "@ + detail@,
            subcode: Some(subcode@),
            cause: subcode@ + ": wizard session failed during host setup or state access"@,
            recovery: seq![
                "See wizard error sub-code "@ + subcode@ + " for the specific failure"@,
                "Ensure the command is type: wizard with a validated page object"@,
                "Retry the command; report a bug if a validated wizard has no session"@,
            ],
            docs: "docs/plans/phase-C/http-wizard-contract.md"@,
        },
        HostFailure::SessionTimeout { timeout_secs } => HostReportView {
            code: HostCode::SessionTimeoutError,
            message: "session idle timeout after "@ + decimal(timeout_secs as nat)
                + "s: no result posted"@,
            subcode: Some("session_timeout"@),
            cause: "Headless blocking dialog was not driven — harness must open WYVERN_DIALOG_URL and click a button (~1s when wired correctly)"@,
            recovery: seq![
                "Drive WYVERN_DIALOG_URL in CI (Playwright/curl) and POST /api/result"@,
                "Use `wyvern examples list` for instant headless smoke without a blocking dialog"@,
            ],
            docs: "docs/plans/phase-C/c9-testing-headless.md"@,
        },
    }
}

fn plain(code: HostCode, message: String, cause: &str, recovery: Vec<String>, docs: &str) -> (r:
    HostReport)
    ensures
        r@ == report(code, message@, cause@, views(recovery@), docs@),
{
    HostReport { code, message, subcode: None, cause: owned(cause), recovery, docs: owned(docs) }
}

/// The report of a host failure.
pub fn host_error_report(err: &HostFailure) -> (r: HostReport)
    ensures
        r@ == host_report_spec(*err),
{
    let r = match err {
        HostFailure::Bind { message, source } => {
            let m = match source {
                Some(e) => concat3(message.as_str(), ": ", e.as_str()),
                None => owned(message.as_str()),
            };
            plain(
                HostCode::HostBindError,
                m,
                "Failed to bind the dialog HTTP server",
                list2(
                    "Check that --bind is a valid address",
                    "Try --bind 127.0.0.1:0 for an ephemeral port",
                ),
                "docs/wyvern-host/requirements.md (REQ-0091)",
            )
        },
        HostFailure::UiNotFound { path, source } => {
            let m = match source {
                Some(e) => {
                    let head = concat3("UI not found at '", path.as_str(), "': ");
                    concat2(head.as_str(), e.as_str())
                },
                None => concat3("UI not found at '", path.as_str(), "'"),
            };
            plain(
                HostCode::UiNotFound,
                m,
                "Packaged UI root, dialog template, wizard page HTML, or report page is missing",
                list4(
                    "Pass --ui-root pointing at a directory with message/, input/, markdown/, question/, and chrome/ templates",
                    "For wizard commands, ensure page.html exists relative to --ui-root (served under /wizard/**)",
                    "For report commands, ensure page exists relative to --ui-root (served under /report/**)",
                    "Ensure ui/{message,input,markdown,question,chrome}/ exist in the workspace for development",
                ),
                "docs/wyvern-host/requirements.md (REQ-0093, REQ-0100)",
            )
        },
        HostFailure::UnsupportedType { dialog_type } => {
            let mut rec: Vec<String> = Vec::new();
            push_string(
                &mut rec,
                owned("Use one of: chrome, message, input, markdown, question, wizard, report"),
            );
            plain(
                HostCode::UnsupportedType,
                concat3(
                    "dialog type '",
                    dialog_type.as_str(),
                    "' is not implemented on the HTTP host yet",
                ),
                "Schema validation passed; host matrix supports chrome, message, input, markdown, question, wizard, and report",
                rec,
                "docs/plans/phase-C/http-dialog-contract.md",
            )
        },
        HostFailure::InvalidResult { message } => {
            let mut rec: Vec<String> = Vec::new();
            push_string(&mut rec, owned("Submit a body matching the dialog CommandResult wire shape"));
            plain(
                HostCode::HostError,
                owned(message.as_str()),
                "POST /api/result body was invalid for the active dialog",
                rec,
                "docs/plans/phase-C/http-post-schema.md",
            )
        },
        HostFailure::ViewerNotFound { id, hint } => {
            let mut rec: Vec<String> = Vec::new();
            push_string(&mut rec, concat3("Install ", id.as_str(), " or use --viewer system"));
            push_string(&mut rec, owned("Use --viewer none for headless / CI"));
            HostReport {
                code: HostCode::HostViewerError,
                message: concat3("viewer '", id.as_str(), "' not found"),
                subcode: None,
                cause: owned(hint.as_str()),
                recovery: rec,
                docs: owned("docs/plans/phase-C/http-viewer-contract.md"),
            }
        },
        HostFailure::ViewerUnsupported { mode } => plain(
            HostCode::HostViewerError,
            concat3("viewer mode '", mode.as_str(), "' is not supported by host::run"),
            "Embedded one-shot must use begin + wyvern-viewer spawn (CLI pipeline)",
            list2(
                "Omit --viewer or use --viewer embedded (CLI default)",
                "Use --viewer none for headless / CI",
            ),
            "docs/plans/phase-C/http-viewer-contract.md",
        ),
        HostFailure::Registry { message } => plain(
            HostCode::HostError,
            owned(message.as_str()),
            "Browser registry cache read/write failed",
            list3(
                "Run `wyvern browsers refresh` to rebuild the cache",
                "Check WYVERN_BROWSERS_FILE path and cache directory permissions",
                "Delete a corrupt browsers.json and retry",
            ),
            "docs/plans/phase-C/http-viewer-contract.md",
        ),
        HostFailure::Internal { message } => plain(
            HostCode::HostError,
            owned(message.as_str()),
            "Internal HTTP host failure",
            list2("Retry the command", "Report a bug if it persists"),
            "docs/wyvern-host/architecture.md",
        ),
        HostFailure::Wizard { subcode, detail } => {
            let mut rec: Vec<String> = Vec::new();
            push_string(
                &mut rec,
                concat3("See wizard error sub-code ", subcode.as_str(), " for the specific failure"),
            );
            push_string(&mut rec, owned("Ensure the command is type: wizard with a validated page object"));
            push_string(
                &mut rec,
                owned("Retry the command; report a bug if a validated wizard has no session"),
            );
            HostReport {
                code: HostCode::HostError,
                message: concat3(subcode.as_str(), ": ", detail.as_str()),
                subcode: Some(owned(subcode.as_str())),
                cause: concat2(
                    subcode.as_str(),
                    ": wizard session failed during host setup or state access",
                ),
                recovery: rec,
                docs: owned("docs/plans/phase-C/http-wizard-contract.md"),
            }
        },
        HostFailure::SessionTimeout { timeout_secs } => {
            let secs = u64_to_decimal(*timeout_secs);
            HostReport {
                code: HostCode::SessionTimeoutError,
                message: concat3("session idle timeout after ", secs.as_str(), "s: no result posted"),
                subcode: Some(owned("session_timeout")),
                cause: owned(
                    "Headless blocking dialog was not driven — harness must open WYVERN_DIALOG_URL and click a button (~1s when wired correctly)",
                ),
                recovery: list2(
                    "Drive WYVERN_DIALOG_URL in CI (Playwright/curl) and POST /api/result",
                    "Use `wyvern examples list` for instant headless smoke without a blocking dialog",
                ),
                docs: owned("docs/plans/phase-C/c9-testing-headless.md"),
            }
        },
    };
    proof {
        assert(r@.recovery =~= host_report_spec(*err).recovery);
    }
    r
}

/// The code whose exit status a host failure ends the process with: the
/// bind, viewer and timeout codes for those failures, the general host code
/// for every other one.
pub open spec fn host_exit_code_spec(f: HostFailure) -> HostCode {
    match f {
        HostFailure::Bind { .. } => HostCode::HostBindError,
        HostFailure::ViewerNotFound { .. } => HostCode::HostViewerError,
        HostFailure::ViewerUnsupported { .. } => HostCode::HostViewerError,
        HostFailure::SessionTimeout { .. } => HostCode::SessionTimeoutError,
        _ => HostCode::HostError,
    }
}

/// The code whose exit status ends the process after a host failure.
pub fn host_exit_code_kind(err: &HostFailure) -> (r: HostCode)
    ensures
        r == host_exit_code_spec(*err),
{
    match err {
        HostFailure::Bind { .. } => HostCode::HostBindError,
        HostFailure::ViewerNotFound { .. } => HostCode::HostViewerError,
        HostFailure::ViewerUnsupported { .. } => HostCode::HostViewerError,
        HostFailure::SessionTimeout { .. } => HostCode::SessionTimeoutError,
        _ => HostCode::HostError,
    }
}

/// How a failure to locate or start `wyvern-viewer` is reported.
pub open spec fn viewer_spawn_report_spec(e: ViewerSpawnError) -> HostReportView {
    match e {
        ViewerSpawnError::NotFound { hint } => report(
            HostCode::HostViewerError,
            "wyvern-viewer binary not found"@,
            hint@,
            seq![
                "Build or install wyvern-viewer next to the wyvern binary"@,
                "Set WYVERN_VIEWER_BIN to the viewer executable"@,
                "Use --viewer none for headless / CI"@,
            ],
            viewer_docs(),
        ),
        ViewerSpawnError::Io { message } => report(
            HostCode::HostViewerError,
            "failed to spawn wyvern-viewer: "@ + message@,
            "Could not start the embedded viewer process"@,
            seq!["Verify wyvern-viewer is executable"@, "Use --viewer none for headless / CI"@],
            viewer_docs(),
        ),
    }
}

/// The report of a failure to locate or start `wyvern-viewer`.
pub fn viewer_spawn_report(err: &ViewerSpawnError) -> (r: HostReport)
    ensures
        r@ == viewer_spawn_report_spec(*err),
{
    match err {
        ViewerSpawnError::NotFound { hint } => plain(
            HostCode::HostViewerError,
            owned("wyvern-viewer binary not found"),
            hint.as_str(),
            list3(
                "Build or install wyvern-viewer next to the wyvern binary",
                "Set WYVERN_VIEWER_BIN to the viewer executable",
                "Use --viewer none for headless / CI",
            ),
            "docs/plans/phase-C/http-viewer-contract.md",
        ),
        ViewerSpawnError::Io { message } => plain(
            HostCode::HostViewerError,
            concat2("failed to spawn wyvern-viewer: ", message.as_str()),
            "Could not start the embedded viewer process",
            list2("Verify wyvern-viewer is executable", "Use --viewer none for headless / CI"),
            "docs/plans/phase-C/http-viewer-contract.md",
        ),
    }
}

} // verus!
