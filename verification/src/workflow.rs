//! Wizard workflow hooks and the `next_wizard` chain: failure kinds, the
//! chain depth limit, how script outcomes map to failures, and the shape
//! that `workflow.pre` stdout must have.

use vstd::prelude::*;
use crate::diagnostics::extension_of;
use crate::envelope::{envelope_text, envelope_to_json, plain_envelope, EnvelopeView, StderrEnvelope};
use crate::errors::{EmitError, ErrorCode};
use crate::allowlist::{resolve_from, tries_spec, Allowlist};
use crate::json::{deep_merge, merge_json, JsonValue, JsonView};
use crate::matching::RequiresProbe;
use crate::preexec::ScriptError;
use crate::registry::opt_view;
use crate::text::{
    concat2, concat3, copy_string, decimal, owned, push_decimal, push_str, signed_decimal, str_eq,
    views,
};

verus! {

/// Timeout of every workflow pre/post script, in seconds.
pub const WORKFLOW_SCRIPT_TIMEOUT_SECS: u64 = 30;

/// Most wizard sessions in one `next_wizard` chain.
pub const NEXT_WIZARD_MAX_DEPTH: u32 = 16;

/// Workflow / chain failure (stderr code `WORKFLOW_ERROR`).
#[derive(Debug)]
pub enum WorkflowError {
    /// Path escaped `{wyvern_share}`, cwd, or the current wizard directory.
    PathDenied {
        /// Offending path after expansion.
        path: String,
    },
    /// Script exceeded its timeout.
    Timeout {
        /// Last 4 KiB of child stderr collected before the kill.
        stderr_tail: String,
    },
    /// Script exit status was not zero.
    NonZero {
        /// Process exit code (or `1` when a signal ended it).
        status: i32,
        /// Last 4 KiB of child stderr.
        stderr_tail: String,
    },
    /// Pre stdout was not one JSON object with an object `config_patch`.
    InvalidStdout {
        /// Parse / shape failure detail.
        cause: String,
    },
    /// A hop past the maximum was requested.
    ChainDepth {
        /// Configured maximum.
        max: u32,
    },
    /// `{wyvern_share}` / relative path could not be resolved.
    Resolve {
        /// Original path string.
        path: String,
        /// Why resolution failed.
        cause: String,
    },
    /// `.py` script and `python3` is not on PATH.
    MissingPython3,
    /// `input` or `config_patch` was not a JSON object.
    Merge {
        /// Merge failure detail.
        cause: String,
    },
}

/// Displayed text of a workflow failure.
pub open spec fn workflow_text(e: WorkflowError) -> Seq<char> {
    match e {
        WorkflowError::PathDenied { path } => "workflow path denied: "@ + path@,
        WorkflowError::Timeout { stderr_tail } => if stderr_tail@.len() == 0 {
            "workflow script timed out after 30s"@
        } else {
            "workflow script timed out after 30s: "@ + stderr_tail@
        },
        WorkflowError::NonZero { status, stderr_tail } => if stderr_tail@.len() == 0 {
            "workflow script exited with status "@ + signed_decimal(status as int)
        } else {
            "workflow script exited with status "@ + signed_decimal(status as int) + ": "@
                + stderr_tail@
        },
        WorkflowError::InvalidStdout { cause } => "invalid workflow pre stdout: "@ + cause@,
        WorkflowError::ChainDepth { max } => "next_wizard chain exceeded maximum depth of "@
            + decimal(max as nat),
        WorkflowError::Resolve { path, cause } => "could not resolve workflow path '"@ + path@
            + "': "@ + cause@,
        WorkflowError::MissingPython3 => "python3 is required to run .py workflow scripts"@,
        WorkflowError::Merge { cause } => "workflow config merge failed: "@ + cause@,
    }
}

/// Short cause of a workflow failure for the stderr envelope.
pub open spec fn workflow_cause(e: WorkflowError) -> Seq<char> {
    match e {
        WorkflowError::PathDenied { path } => "path escaped the workflow allowlist: "@ + path@,
        WorkflowError::Timeout { stderr_tail } => if stderr_tail@.len() == 0 {
            "script exceeded 30s"@
        } else {
            "script exceeded 30s: "@ + stderr_tail@
        },
        WorkflowError::NonZero { stderr_tail, .. } => if stderr_tail@.len() == 0 {
            "script exit was not 0"@
        } else {
            stderr_tail@
        },
        WorkflowError::InvalidStdout { cause } => cause@,
        WorkflowError::ChainDepth { max } => "17th hop requested; max is "@ + decimal(max as nat),
        WorkflowError::Resolve { cause, .. } => cause@,
        WorkflowError::MissingPython3 => "python3 not found on PATH"@,
        WorkflowError::Merge { cause } => cause@,
    }
}

/// Recovery steps of a workflow failure.
pub open spec fn workflow_recovery(e: WorkflowError) -> Seq<Seq<char>> {
    match e {
        WorkflowError::PathDenied { .. } => seq![
            "Use a path under {wyvern_share}, the process cwd, or the current wizard.json directory"@,
        ],
        WorkflowError::Timeout { .. } => seq![
            "Shorten the workflow script or raise the timeout only via a later ADR"@,
        ],
        WorkflowError::NonZero { .. } => seq!["Fix the script; stderr_tail is in the JSON cause"@],
        WorkflowError::InvalidStdout { .. } => seq![
            "Print { \"config_patch\": { ... } } only"@,
        ],
        WorkflowError::ChainDepth { max } => seq!["Keep chains \u{2264} "@ + decimal(max as nat)],
        WorkflowError::Resolve { .. } => seq!["Fix the path string"@],
        WorkflowError::MissingPython3 => seq!["Install Python 3"@],
        WorkflowError::Merge { .. } => seq!["Pass JSON objects for input and config_patch"@],
    }
}

/// Stable sub-discriminator under `WORKFLOW_ERROR`.
pub open spec fn workflow_subcode(e: WorkflowError) -> Seq<char> {
    match e {
        WorkflowError::PathDenied { .. } => "path_denied"@,
        WorkflowError::Timeout { .. } => "timeout"@,
        WorkflowError::NonZero { .. } => "nonzero"@,
        WorkflowError::InvalidStdout { .. } => "invalid_stdout"@,
        WorkflowError::ChainDepth { .. } => "chain_depth"@,
        WorkflowError::Resolve { .. } => "resolve"@,
        WorkflowError::MissingPython3 => "missing_python3"@,
        WorkflowError::Merge { .. } => "merge"@,
    }
}

impl WorkflowError {
    /// Human-readable description of the failure.
    pub fn message(&self) -> (r: String)
        ensures
            r@ == workflow_text(*self),
    {
        match self {
            WorkflowError::PathDenied { path } => concat2("workflow path denied: ", path.as_str()),
            WorkflowError::Timeout { stderr_tail } => {
                if stderr_tail.unicode_len() == 0 {
                    owned("workflow script timed out after 30s")
                } else {
                    concat2("workflow script timed out after 30s: ", stderr_tail.as_str())
                }
            },
            WorkflowError::NonZero { status, stderr_tail } => {
                let mut m = owned("workflow script exited with status ");
                let num = crate::text::i64_to_decimal(*status as i64);
                push_str(&mut m, num.as_str());
                if stderr_tail.unicode_len() > 0 {
                    push_str(&mut m, ": ");
                    push_str(&mut m, stderr_tail.as_str());
                }
                m
            },
            WorkflowError::InvalidStdout { cause } => concat2(
                "invalid workflow pre stdout: ",
                cause.as_str(),
            ),
            WorkflowError::ChainDepth { max } => {
                let mut m = owned("next_wizard chain exceeded maximum depth of ");
                push_decimal(&mut m, *max as u64);
                m
            },
            WorkflowError::Resolve { path, cause } => {
                let mut m = concat3("could not resolve workflow path '", path.as_str(), "': ");
                push_str(&mut m, cause.as_str());
                m
            },
            WorkflowError::MissingPython3 => owned("python3 is required to run .py workflow scripts"),
            WorkflowError::Merge { cause } => concat2(
                "workflow config merge failed: ",
                cause.as_str(),
            ),
        }
    }

    /// Short cause string for the stderr envelope.
    pub fn cause(&self) -> (r: String)
        ensures
            r@ == workflow_cause(*self),
    {
        match self {
            WorkflowError::PathDenied { path } => concat2(
                "path escaped the workflow allowlist: ",
                path.as_str(),
            ),
            WorkflowError::Timeout { stderr_tail } => {
                if stderr_tail.unicode_len() == 0 {
                    owned("script exceeded 30s")
                } else {
                    concat2("script exceeded 30s: ", stderr_tail.as_str())
                }
            },
            WorkflowError::NonZero { stderr_tail, .. } => {
                if stderr_tail.unicode_len() == 0 {
                    owned("script exit was not 0")
                } else {
                    copy_string(stderr_tail)
                }
            },
            WorkflowError::InvalidStdout { cause } => copy_string(cause),
            WorkflowError::ChainDepth { max } => {
                let mut m = owned("17th hop requested; max is ");
                push_decimal(&mut m, *max as u64);
                m
            },
            WorkflowError::Resolve { cause, .. } => copy_string(cause),
            WorkflowError::MissingPython3 => owned("python3 not found on PATH"),
            WorkflowError::Merge { cause } => copy_string(cause),
        }
    }

    /// Recovery steps for stderr JSON.
    pub fn recovery(&self) -> (r: Vec<String>)
        ensures
            views(r@) == workflow_recovery(*self),
    {
        let mut v: Vec<String> = Vec::new();
        let step = match self {
            WorkflowError::PathDenied { .. } => owned(
                "Use a path under {wyvern_share}, the process cwd, or the current wizard.json directory",
            ),
            WorkflowError::Timeout { .. } => owned(
                "Shorten the workflow script or raise the timeout only via a later ADR",
            ),
            WorkflowError::NonZero { .. } => owned("Fix the script; stderr_tail is in the JSON cause"),
            WorkflowError::InvalidStdout { .. } => owned("Print { \"config_patch\": { ... } } only"),
            WorkflowError::ChainDepth { max } => {
                let mut m = owned("Keep chains \u{2264} ");
                push_decimal(&mut m, *max as u64);
                m
            },
            WorkflowError::Resolve { .. } => owned("Fix the path string"),
            WorkflowError::MissingPython3 => owned("Install Python 3"),
            WorkflowError::Merge { .. } => owned("Pass JSON objects for input and config_patch"),
        };
        v.push(step);
        assert(views(v@) =~= workflow_recovery(*self));
        v
    }

    /// Stable sub-discriminator for machine branching under `WORKFLOW_ERROR`.
    pub fn subcode(&self) -> (r: &'static str)
        ensures
            r@ == workflow_subcode(*self),
    {
        match self {
            WorkflowError::PathDenied { .. } => "path_denied",
            WorkflowError::Timeout { .. } => "timeout",
            WorkflowError::NonZero { .. } => "nonzero",
            WorkflowError::InvalidStdout { .. } => "invalid_stdout",
            WorkflowError::ChainDepth { .. } => "chain_depth",
            WorkflowError::Resolve { .. } => "resolve",
            WorkflowError::MissingPython3 => "missing_python3",
            WorkflowError::Merge { .. } => "merge",
        }
    }
}

/// Fail when `hop` is past [`NEXT_WIZARD_MAX_DEPTH`].
pub fn check_chain_depth(hop: u32) -> (r: Result<(), WorkflowError>)
    ensures
        hop <= NEXT_WIZARD_MAX_DEPTH <==> r is Ok,
        hop > NEXT_WIZARD_MAX_DEPTH ==> (r matches Err(WorkflowError::ChainDepth { max }) && max
            == NEXT_WIZARD_MAX_DEPTH),
{
    if hop > NEXT_WIZARD_MAX_DEPTH {
        Err(WorkflowError::ChainDepth { max: NEXT_WIZARD_MAX_DEPTH })
    } else {
        Ok(())
    }
}

/// The workflow failure for a failed script run.
pub fn map_script_error(err: ScriptError) -> (r: WorkflowError)
    ensures
        match err {
            ScriptError::Timeout { stderr_tail, .. } => (r matches WorkflowError::Timeout {
                stderr_tail: t,
            } && t@ == stderr_tail@),
            ScriptError::SpawnNotFound { cmd, source } => if cmd@ == "python3"@ {
                r matches WorkflowError::MissingPython3
            } else {
                r matches WorkflowError::Resolve { path, cause } && path@ == cmd@ && cause@
                    == source@
            },
            ScriptError::Spawn { cmd, source } => (r matches WorkflowError::Resolve { path, cause }
                && path@ == cmd@ && cause@ == source@),
            ScriptError::Wait { cmd, source } => (r matches WorkflowError::Resolve { path, cause }
                && path@ == cmd@ && cause@ == source@),
            ScriptError::Stdout { cause, .. } => (r matches WorkflowError::InvalidStdout { cause: c }
                && c@ == cause@),
            ScriptError::Thread { message } => (r matches WorkflowError::Resolve { path, cause }
                && path@.len() == 0 && cause@ == message@),
        },
{
    match err {
        ScriptError::Timeout { stderr_tail, .. } => WorkflowError::Timeout { stderr_tail },
        ScriptError::SpawnNotFound { cmd, source } => {
            if str_eq(cmd.as_str(), "python3") {
                WorkflowError::MissingPython3
            } else {
                WorkflowError::Resolve { path: cmd, cause: source }
            }
        },
        ScriptError::Spawn { cmd, source } => WorkflowError::Resolve { path: cmd, cause: source },
        ScriptError::Wait { cmd, source } => WorkflowError::Resolve { path: cmd, cause: source },
        ScriptError::Stdout { cause, .. } => WorkflowError::InvalidStdout { cause },
        ScriptError::Thread { message } => WorkflowError::Resolve { path: String::new(), cause: message },
    }
}

/// How a script that ran to completion ended: success, or the nonzero
/// failure (`code` absent when a signal ended it, which counts as `1`).
pub fn script_exit_result(success: bool, code: Option<i32>, stderr_tail: String) -> (r: Result<
    (),
    WorkflowError,
>)
    ensures
        success <==> r is Ok,
        !success ==> (r matches Err(WorkflowError::NonZero { status, stderr_tail: t }) && status
            == (match code {
            Some(c) => c,
            None => 1i32,
        }) && t@ == stderr_tail@),
{
    if success {
        Ok(())
    } else {
        let status = match code {
            Some(c) => c,
            None => 1,
        };
        Err(WorkflowError::NonZero { status, stderr_tail })
    }
}

/// Argv of a workflow script at `canonical`: `.py` scripts run under
/// `python3` (which must be on PATH); `--dry-run` is appended on request.
pub open spec fn script_argv_spec(canonical: Seq<char>, dry_run: bool, python3: bool) -> Option<
    Seq<Seq<char>>,
> {
    let base = if path_is_py(canonical) {
        seq!["python3"@, canonical]
    } else {
        seq![canonical]
    };
    if path_is_py(canonical) && !python3 {
        None
    } else if dry_run {
        Some(base.push("--dry-run"@))
    } else {
        Some(base)
    }
}

/// The path's extension is exactly `py`.
pub open spec fn path_is_py(p: Seq<char>) -> bool {
    crate::diagnostics::path_extension(p) == Some("py"@)
}

/// Build the argv of a workflow script.
pub fn workflow_script_argv<P: RequiresProbe>(canonical: &str, dry_run: bool, probe: &P) -> (r:
    Result<Vec<String>, WorkflowError>)
    ensures
        match script_argv_spec(canonical@, dry_run, probe.on_path("python3"@)) {
            Some(a) => r matches Ok(v) && views(v@) == a,
            None => r matches Err(WorkflowError::MissingPython3),
        },
{
    let ext = extension_of(canonical);
    let is_py = match &ext {
        Some(e) => str_eq(e.as_str(), "py"),
        None => false,
    };
    assert(is_py == path_is_py(canonical@));
    let mut argv: Vec<String> = Vec::new();
    if is_py {
        if !probe.binary_on_path("python3") {
            return Err(WorkflowError::MissingPython3);
        }
        argv.push(owned("python3"));
    }
    argv.push(owned(canonical));
    if dry_run {
        argv.push(owned("--dry-run"));
    }
    assert(views(argv@) =~= script_argv_spec(canonical@, dry_run, probe.on_path("python3"@)).unwrap());
    Ok(argv)
}

/// What parsed `workflow.pre` stdout yields: the `config_patch` object, or
/// the failure cause. `parsed` is the JSON parse of the trimmed stdout, or
/// the parser's message.
pub open spec fn config_patch_spec(parsed: Result<JsonView, Seq<char>>) -> Result<
    JsonView,
    Seq<char>,
> {
    match parsed {
        Err(m) => Err("pre stdout is not JSON: "@ + m),
        Ok(v) => match v {
            JsonView::Object(members) => if members.len() != 1 || members[0].0 != "config_patch"@ {
                Err("pre stdout must be an object with only config_patch"@)
            } else {
                match members[0].1 {
                    JsonView::Object(_) => Ok(members[0].1),
                    _ => Err("config_patch must be a JSON object"@),
                }
            },
            _ => Err("pre stdout must be one JSON object"@),
        },
    }
}

/// Check the shape of `workflow.pre` stdout and take its `config_patch`.
pub fn parse_config_patch(parsed: Result<JsonValue, String>) -> (r: Result<JsonValue, WorkflowError>)
    ensures
        match config_patch_spec(
            match parsed {
                Ok(v) => Ok(v@),
                Err(m) => Err(m@),
            },
        ) {
            Ok(p) => r matches Ok(v) && v@ == p,
            Err(c) => r matches Err(WorkflowError::InvalidStdout { cause }) && cause@ == c,
        },
{
    match parsed {
        Err(m) => Err(WorkflowError::InvalidStdout { cause: concat2("pre stdout is not JSON: ", m.as_str()) }),
        Ok(v) => match v {
            JsonValue::Object(members) => {
                if members.len() != 1 {
                    return Err(
                        WorkflowError::InvalidStdout {
                            cause: owned("pre stdout must be an object with only config_patch"),
                        },
                    );
                }
                let mut members = members;
                let (key, patch) = members.remove(0);
                if !str_eq(key.as_str(), "config_patch") {
                    return Err(
                        WorkflowError::InvalidStdout {
                            cause: owned("pre stdout must be an object with only config_patch"),
                        },
                    );
                }
                match patch {
                    JsonValue::Object(_) => Ok(patch),
                    _ => Err(
                        WorkflowError::InvalidStdout {
                            cause: owned("config_patch must be a JSON object"),
                        },
                    ),
                }
            },
            _ => Err(
                WorkflowError::InvalidStdout { cause: owned("pre stdout must be one JSON object") },
            ),
        },
    }
}

/// Documentation pointer of workflow failures.
pub open spec fn workflow_docs() -> Seq<char> {
    "docs/plans/phase-G/wizard-workflow-architecture.md"@
}

/// Envelope of a workflow failure.
pub open spec fn workflow_envelope(e: WorkflowError) -> EnvelopeView {
    EnvelopeView {
        code: ErrorCode::WorkflowError,
        message: workflow_text(e),
        field: None,
        subcode: Some(workflow_subcode(e)),
        cause: workflow_cause(e),
        recovery: workflow_recovery(e),
        docs: workflow_docs(),
    }
}

/// Serialize a workflow failure as stderr JSON.
pub fn emit_workflow_error(err: &WorkflowError) -> (r: Result<String, EmitError>)
    ensures
        r matches Ok(t) && t@ == envelope_text(workflow_envelope(*err)),
{
    let e = StderrEnvelope {
        code: ErrorCode::WorkflowError,
        message: err.message(),
        field: None,
        subcode: Some(owned(err.subcode())),
        cause: err.cause(),
        recovery: err.recovery(),
        docs: owned("docs/plans/phase-G/wizard-workflow-architecture.md"),
    };
    assert(e@ == workflow_envelope(*err));
    envelope_to_json(&e)
}

/// Outcome of merging `base ← input ← config_patch`: the merged value, or
/// the failure cause when `input` or the patch is not an object.
pub open spec fn merge_config_spec(base: JsonView, input: JsonView, patch: Option<JsonView>) -> Result<
    JsonView,
    Seq<char>,
> {
    if !(input is Object) {
        Err("next_wizard.input must be a JSON object"@)
    } else {
        match patch {
            None => Ok(merge_json(base, input)),
            Some(p) => if !(p is Object) {
                Err("config_patch must be a JSON object"@)
            } else {
                Ok(merge_json(merge_json(base, input), p))
            },
        }
    }
}

/// Deep-merge `base ← input ← config_patch`: object members merge deeply,
/// arrays and scalars replace; a non-object `input` or patch is refused.
pub fn merge_wizard_config(base: JsonValue, input: JsonValue, config_patch: Option<JsonValue>) -> (r:
    Result<JsonValue, WorkflowError>)
    ensures
        match merge_config_spec(
            base@,
            input@,
            match config_patch {
                Some(p) => Some(p@),
                None => None,
            },
        ) {
            Ok(v) => r matches Ok(m) && m@ == v,
            Err(c) => r matches Err(WorkflowError::Merge { cause }) && cause@ == c,
        },
{
    let input_is_object = match &input {
        JsonValue::Object(_) => true,
        _ => false,
    };
    if !input_is_object {
        return Err(WorkflowError::Merge { cause: owned("next_wizard.input must be a JSON object") });
    }
    let out = deep_merge(base, &input);
    match config_patch {
        None => Ok(out),
        Some(patch) => {
            let patch_is_object = match &patch {
                JsonValue::Object(_) => true,
                _ => false,
            };
            if !patch_is_object {
                return Err(WorkflowError::Merge { cause: owned("config_patch must be a JSON object") });
            }
            Ok(deep_merge(out, &patch))
        },
    }
}

/// Runs `workflow.pre` / `workflow.post` scripts for one wizard hop.
#[derive(Debug)]
pub struct WorkflowRunner {
    /// Path allowlist for this hop.
    pub allowlist: Allowlist,
    /// Script timeout in seconds (normally [`WORKFLOW_SCRIPT_TIMEOUT_SECS`]).
    pub timeout_secs: u64,
}

/// What to spawn for a workflow script.
#[derive(Debug)]
pub struct ScriptPlan {
    /// Program to run.
    pub program: String,
    /// Arguments after the program.
    pub args: Vec<String>,
    /// Working directory (the allowlist's cwd).
    pub cwd: String,
    /// Extra environment variables.
    pub env: Vec<(String, String)>,
    /// Whether stdout is captured.
    pub capture_stdout: bool,
    /// Timeout in seconds.
    pub timeout_secs: u64,
}

/// Extra environment of a workflow script: the share root, the repository
/// root (`WYVERN_REPO_ROOT` when set, else the cwd) and the CLI binary.
pub open spec fn workflow_env_spec(a: Allowlist, repo_root: Option<Seq<char>>, wyvern_bin: Seq<char>) -> Seq<
    (Seq<char>, Seq<char>),
> {
    seq![
        ("WYVERN_SHARE"@, a.share_root@),
        ("WYVERN_REPO_ROOT"@, match repo_root {
            Some(r) => r,
            None => a.cwd@,
        }),
        ("WYVERN_BIN"@, wyvern_bin),
    ]
}

impl WorkflowRunner {
    /// Plan a script run for the hook path `raw`: resolve it against the
    /// allowlist (`canonical_roots` and `canonical` as for
    /// [`Allowlist::resolve_allowed`]), build its argv (`.py` under
    /// `python3`, `--dry-run` on request) and its environment.
    pub fn plan_script<P: RequiresProbe>(
        &self,
        raw: &str,
        canonical_roots: &Vec<String>,
        canonical: &Vec<Option<String>>,
        dry_run: bool,
        capture_stdout: bool,
        probe: &P,
        repo_root: Option<&str>,
        wyvern_bin: &str,
    ) -> (r: Result<ScriptPlan, WorkflowError>)
        requires
            canonical@.len() == tries_spec(self.allowlist, raw@).len(),
        ensures
            match resolve_from(
                self.allowlist,
                raw@,
                views(canonical_roots@),
                canonical@.map_values(|o: Option<String>| opt_view(o)),
                0,
                false,
            ) {
                Err((true, e)) => r matches Err(WorkflowError::PathDenied { path }) && path@ == e,
                Err((false, c)) => r matches Err(WorkflowError::Resolve { path, cause }) && path@
                    == raw@ && cause@ == c,
                Ok(p) => match script_argv_spec(p, dry_run, probe.on_path("python3"@)) {
                    None => r matches Err(WorkflowError::MissingPython3),
                    Some(argv) => r matches Ok(plan) && seq![plan.program@] + views(plan.args@)
                        == argv && plan.cwd@ == self.allowlist.cwd@ && plan.env@.map_values(
                        |e: (String, String)| (e.0@, e.1@),
                    ) == workflow_env_spec(
                        self.allowlist,
                        match repo_root {
                            Some(x) => Some(x@),
                            None => None,
                        },
                        wyvern_bin@,
                    ) && plan.capture_stdout == capture_stdout && plan.timeout_secs
                        == self.timeout_secs,
                },
            },
    {
        let canonical_path = self.allowlist.resolve_allowed(raw, canonical_roots, canonical)?;
        let argv = workflow_script_argv(canonical_path.as_str(), dry_run, probe)?;
        let ghost av = views(argv@);
        assert(av == script_argv_spec(canonical_path@, dry_run, probe.on_path("python3"@)).unwrap());
        assert(av.len() >= 1);
        let mut args: Vec<String> = Vec::new();
        let mut i: usize = 1;
        while i < argv.len()
            invariant
                av == views(argv@),
                1 <= i <= argv.len(),
                views(args@) == av.subrange(1, i as int),
            decreases argv.len() - i,
        {
            let ghost before = views(args@);
            args.push(copy_string(&argv[i]));
            assert(views(args@) =~= before.push(argv@[i as int]@));
            assert(av[i as int] == argv@[i as int]@);
            i = i + 1;
            assert(views(args@) =~= av.subrange(1, i as int));
        }
        let program = copy_string(&argv[0]);
        assert(seq![program@] + views(args@) =~= av);
        let mut env: Vec<(String, String)> = Vec::new();
        env.push((owned("WYVERN_SHARE"), copy_string(&self.allowlist.share_root)));
        let repo = match repo_root {
            Some(x) => owned(x),
            None => copy_string(&self.allowlist.cwd),
        };
        env.push((owned("WYVERN_REPO_ROOT"), repo));
        env.push((owned("WYVERN_BIN"), owned(wyvern_bin)));
        let ghost ev = env@.map_values(|e: (String, String)| (e.0@, e.1@));
        assert(ev =~= workflow_env_spec(
            self.allowlist,
            match repo_root {
                Some(x) => Some(x@),
                None => None,
            },
            wyvern_bin@,
        ));
        Ok(
            ScriptPlan {
                program,
                args,
                cwd: copy_string(&self.allowlist.cwd),
                env,
                capture_stdout,
                timeout_secs: self.timeout_secs,
            },
        )
    }
}

/// After `workflow.pre` ran: an unsuccessful exit fails; otherwise its
/// stdout (as parsed) must hold an object `config_patch`, which is merged
/// into `config`.
pub open spec fn finish_pre_spec(
    config: JsonView,
    success: bool,
    parsed: Result<JsonView, Seq<char>>,
) -> Result<JsonView, Seq<char>> {
    match config_patch_spec(parsed) {
        Err(c) => Err(c),
        Ok(p) => merge_config_spec(config, JsonView::Object(Seq::empty()), Some(p)),
    }
}

/// Finish a `workflow.pre` run: check how the script exited (`code` absent
/// when a signal ended it), take `config_patch` from its parsed stdout and
/// merge it into `config`.
pub fn finish_pre(
    config: JsonValue,
    success: bool,
    code: Option<i32>,
    stderr_tail: String,
    parsed_stdout: Result<JsonValue, String>,
) -> (r: Result<JsonValue, WorkflowError>)
    ensures
        !success ==> (r matches Err(WorkflowError::NonZero { status, stderr_tail: t }) && status
            == (match code {
            Some(c) => c,
            None => 1i32,
        }) && t@ == stderr_tail@),
        success ==> match config_patch_spec(
            match parsed_stdout {
                Ok(v) => Ok(v@),
                Err(m) => Err(m@),
            },
        ) {
            Err(c) => r matches Err(WorkflowError::InvalidStdout { cause }) && cause@ == c,
            Ok(p) => r matches Ok(m) && m@ == merge_json(
                merge_json(config@, JsonView::Object(Seq::empty())),
                p,
            ),
        },
{
    script_exit_result(success, code, stderr_tail)?;
    let patch = parse_config_patch(parsed_stdout)?;
    let empty: Vec<(String, JsonValue)> = Vec::new();
    proof {
        crate::json::lemma_object_view(empty);
    }
    assert(crate::json::members_view(empty@) =~= Seq::<(Seq<char>, JsonView)>::empty());
    merge_wizard_config(config, JsonValue::Object(empty), Some(patch))
}

} // verus!
