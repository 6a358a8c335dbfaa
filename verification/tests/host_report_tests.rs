use wyvern::host_report::{
    host_error_report, host_exit_code_kind, viewer_spawn_report, HostCode, HostFailure,
};
use wyvern::viewer::ViewerSpawnError;

fn s(v: &str) -> String {
    v.to_string()
}

#[test]
fn bind_failure_appends_source() {
    let r = host_error_report(&HostFailure::Bind {
        message: s("bind 127.0.0.1:9"),
        source: Some(s("address in use")),
    });
    assert_eq!(r.code, HostCode::HostBindError);
    assert_eq!(r.message, "bind 127.0.0.1:9: address in use");
    assert_eq!(r.cause, "Failed to bind the dialog HTTP server");
    assert_eq!(r.recovery.len(), 2);
    assert_eq!(r.recovery[1], "Try --bind 127.0.0.1:0 for an ephemeral port");
    assert_eq!(r.subcode, None);
    let r = host_error_report(&HostFailure::Bind { message: s("bind failed"), source: None });
    assert_eq!(r.message, "bind failed");
    assert_eq!(host_exit_code_kind(&HostFailure::Bind { message: s("x"), source: None }), HostCode::HostBindError);
}

#[test]
fn ui_not_found_names_path() {
    let with = host_error_report(&HostFailure::UiNotFound { path: s("/ui/x"), source: Some(s("no such file")) });
    assert_eq!(with.code, HostCode::UiNotFound);
    assert_eq!(with.message, "UI not found at '/ui/x': no such file");
    assert_eq!(with.recovery.len(), 4);
    assert_eq!(with.docs, "docs/wyvern-host/requirements.md (REQ-0093, REQ-0100)");
    let without = host_error_report(&HostFailure::UiNotFound { path: s("/ui/x"), source: None });
    assert_eq!(without.message, "UI not found at '/ui/x'");
    assert_eq!(
        host_exit_code_kind(&HostFailure::UiNotFound { path: s("/ui/x"), source: None }),
        HostCode::HostError
    );
}

#[test]
fn unsupported_type_and_plain_messages() {
    let r = host_error_report(&HostFailure::UnsupportedType { dialog_type: s("notification") });
    assert_eq!(r.code, HostCode::UnsupportedType);
    assert_eq!(r.message, "dialog type 'notification' is not implemented on the HTTP host yet");
    let r = host_error_report(&HostFailure::InvalidResult { message: s("bad body") });
    assert_eq!(r.code, HostCode::HostError);
    assert_eq!(r.message, "bad body");
    assert_eq!(r.docs, "docs/plans/phase-C/http-post-schema.md");
    let r = host_error_report(&HostFailure::Registry { message: s("cache unreadable") });
    assert_eq!(r.recovery[0], "Run `wyvern browsers refresh` to rebuild the cache");
    let r = host_error_report(&HostFailure::Internal { message: s("boom") });
    assert_eq!(r.recovery, vec![s("Retry the command"), s("Report a bug if it persists")]);
}

#[test]
fn viewer_failures_use_viewer_code() {
    let nf = HostFailure::ViewerNotFound { id: s("firefox"), hint: s("install it") };
    let r = host_error_report(&nf);
    assert_eq!(r.code, HostCode::HostViewerError);
    assert_eq!(r.message, "viewer 'firefox' not found");
    assert_eq!(r.cause, "install it");
    assert_eq!(r.recovery[0], "Install firefox or use --viewer system");
    assert_eq!(host_exit_code_kind(&nf), HostCode::HostViewerError);
    let un = HostFailure::ViewerUnsupported { mode: s("embedded") };
    assert_eq!(
        host_error_report(&un).message,
        "viewer mode 'embedded' is not supported by host::run"
    );
    assert_eq!(host_exit_code_kind(&un), HostCode::HostViewerError);
}

#[test]
fn wizard_failure_carries_subcode() {
    let r = host_error_report(&HostFailure::Wizard { subcode: s("no_session"), detail: s("no wizard session") });
    assert_eq!(r.code, HostCode::HostError);
    assert_eq!(r.subcode, Some(s("no_session")));
    assert_eq!(r.message, "no_session: no wizard session");
    assert_eq!(r.cause, "no_session: wizard session failed during host setup or state access");
    assert_eq!(r.recovery[0], "See wizard error sub-code no_session for the specific failure");
    assert_eq!(r.recovery.len(), 3);
}

#[test]
fn session_timeout_reports_seconds() {
    let f = HostFailure::SessionTimeout { timeout_secs: 300 };
    let r = host_error_report(&f);
    assert_eq!(r.code, HostCode::SessionTimeoutError);
    assert_eq!(r.message, "session idle timeout after 300s: no result posted");
    assert_eq!(r.subcode, Some(s("session_timeout")));
    assert_eq!(r.docs, "docs/plans/phase-C/c9-testing-headless.md");
    assert_eq!(host_exit_code_kind(&f), HostCode::SessionTimeoutError);
}

#[test]
fn viewer_spawn_reports() {
    let r = viewer_spawn_report(&ViewerSpawnError::NotFound { hint: s("set WYVERN_VIEWER_BIN") });
    assert_eq!(r.code, HostCode::HostViewerError);
    assert_eq!(r.message, "wyvern-viewer binary not found");
    assert_eq!(r.cause, "set WYVERN_VIEWER_BIN");
    assert_eq!(r.recovery.len(), 3);
    let r = viewer_spawn_report(&ViewerSpawnError::Io { message: s("permission denied") });
    assert_eq!(r.message, "failed to spawn wyvern-viewer: permission denied");
    assert_eq!(r.cause, "Could not start the embedded viewer process");
    assert_eq!(r.docs, "docs/plans/phase-C/http-viewer-contract.md");
}
