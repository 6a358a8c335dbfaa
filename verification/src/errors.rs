//! Error kinds of the CLI and the extension engine, and their exit codes.

use vstd::prelude::*;

use crate::ids::ExtensionId;

verus! {

/// Stable machine error codes of the stderr envelope.
#[derive(Debug, Clone, Copy, PartialEq, Eq)]
pub enum ErrorCode {
    /// Input was not valid JSON / argv shape was wrong (exit 2).
    ParseError,
    /// A file or stdin read failed (exit 3).
    IoError,
    /// A command or field failed validation (exit 4).
    ValidationError,
    /// A lifecycle action was used outside interactive mode (exit 5).
    StateError,
    /// Emit-boundary serialization failed (exit 8).
    InternalError,
    /// A workflow hook or `next_wizard` chain failed (exit 9).
    WorkflowError,
}

/// Process exit code of an [`ErrorCode`].
pub open spec fn code_exit(c: ErrorCode) -> i32 {
    match c {
        ErrorCode::ParseError => 2,
        ErrorCode::IoError => 3,
        ErrorCode::ValidationError => 4,
        ErrorCode::StateError => 5,
        ErrorCode::InternalError => 8,
        ErrorCode::WorkflowError => 9,
    }
}

/// Wire code string (`"PARSE_ERROR"`, …).
pub open spec fn code_name(c: ErrorCode) -> Seq<char> {
    match c {
        ErrorCode::ParseError => "PARSE_ERROR"@,
        ErrorCode::IoError => "IO_ERROR"@,
        ErrorCode::ValidationError => "VALIDATION_ERROR"@,
        ErrorCode::StateError => "STATE_ERROR"@,
        ErrorCode::InternalError => "INTERNAL_ERROR"@,
        ErrorCode::WorkflowError => "WORKFLOW_ERROR"@,
    }
}

/// Wire error family (`"parse"`, `"io"`, …).
pub open spec fn code_family(c: ErrorCode) -> Seq<char> {
    match c {
        ErrorCode::ParseError => "parse"@,
        ErrorCode::IoError => "io"@,
        ErrorCode::ValidationError => "validation"@,
        ErrorCode::StateError => "state"@,
        ErrorCode::InternalError => "internal"@,
        ErrorCode::WorkflowError => "workflow"@,
    }
}

impl ErrorCode {
    /// Process exit code.
    pub fn exit_code(self) -> (r: i32)
        ensures
            r == code_exit(self),
    {
        match self {
            ErrorCode::ParseError => 2,
            ErrorCode::IoError => 3,
            ErrorCode::ValidationError => 4,
            ErrorCode::StateError => 5,
            ErrorCode::InternalError => 8,
            ErrorCode::WorkflowError => 9,
        }
    }

    /// Wire code string.
    pub fn name(self) -> (r: &'static str)
        ensures
            r@ == code_name(self),
    {
        match self {
            ErrorCode::ParseError => "PARSE_ERROR",
            ErrorCode::IoError => "IO_ERROR",
            ErrorCode::ValidationError => "VALIDATION_ERROR",
            ErrorCode::StateError => "STATE_ERROR",
            ErrorCode::InternalError => "INTERNAL_ERROR",
            ErrorCode::WorkflowError => "WORKFLOW_ERROR",
        }
    }

    /// Wire error family.
    pub fn family(self) -> (r: &'static str)
        ensures
            r@ == code_family(self),
    {
        match self {
            ErrorCode::ParseError => "parse",
            ErrorCode::IoError => "io",
            ErrorCode::ValidationError => "validation",
            ErrorCode::StateError => "state",
            ErrorCode::InternalError => "internal",
            ErrorCode::WorkflowError => "workflow",
        }
    }
}

/// Built-in CLI family that owns subcommands.
#[derive(Debug, Clone, Copy, PartialEq, Eq)]
pub enum BuiltinDomain {
    /// `wyvern browsers …`
    Browsers,
    /// `wyvern extensions …`
    Extensions,
    /// `wyvern examples …`
    Examples,
    /// `wyvern wizard …`
    Wizard,
}

/// Stable CLI family name.
pub open spec fn domain_name(d: BuiltinDomain) -> Seq<char> {
    match d {
        BuiltinDomain::Browsers => "browsers"@,
        BuiltinDomain::Extensions => "extensions"@,
        BuiltinDomain::Examples => "examples"@,
        BuiltinDomain::Wizard => "wizard"@,
    }
}

impl BuiltinDomain {
    /// Stable CLI family name.
    pub fn as_str(self) -> (r: &'static str)
        ensures
            r@ == domain_name(self),
    {
        match self {
            BuiltinDomain::Browsers => "browsers",
            BuiltinDomain::Extensions => "extensions",
            BuiltinDomain::Examples => "examples",
            BuiltinDomain::Wizard => "wizard",
        }
    }
}

/// Host-flag / env usage failure kind for structured stderr recovery.
#[derive(Debug, PartialEq, Eq)]
pub enum UsageErrorKind {
    /// Generic argv/input usage (empty stdin, too many args, etc.).
    Generic,
    /// `--bind` value failed to parse as a socket address.
    InvalidBind {
        /// Raw `--bind` token from argv.
        value: String,
    },
    /// A host flag was given without a following value.
    MissingFlagValue {
        /// Flag name (e.g. `--bind`).
        flag: String,
    },
    /// `--viewer` value was not a known viewer mode.
    InvalidViewer {
        /// Raw `--viewer` token from argv.
        value: String,
    },
    /// `WYVERN_VIEWER` is set but not a valid viewer mode.
    InvalidWyvernViewerEnv {
        /// Raw env var value.
        value: String,
    },
    /// `WYVERN_VIEWER` is not valid Unicode.
    InvalidWyvernViewerUnicode,
    /// Unknown subcommand on a built-in family.
    UnknownSubcommand {
        /// Built-in family that rejected the token.
        domain: BuiltinDomain,
        /// Offending subcommand token.
        token: String,
    },
    /// `extensions show` was invoked without a usable extension id.
    MissingExtensionId,
}

/// Failure while loading command input from argv or stdin.
#[derive(Debug)]
pub enum LoadError {
    /// JSON text could not be parsed.
    Parse {
        /// Parser detail.
        message: String,
    },
    /// A file or stdin read failed.
    Io {
        /// Input field (`file`, `stdin`).
        field: String,
        /// Human-readable detail.
        message: String,
    },
    /// Invalid argv shape or host-flag value.
    Usage {
        /// Discriminated usage class.
        kind: UsageErrorKind,
        /// Plain-text usage message.
        message: String,
    },
}

/// Exit code of a load failure.
pub open spec fn load_exit(e: LoadError) -> i32 {
    match e {
        LoadError::Parse { .. } => 2,
        LoadError::Io { .. } => 3,
        LoadError::Usage { .. } => 2,
    }
}

impl LoadError {
    /// Stable exit code for this load failure.
    pub fn exit_code(&self) -> (r: i32)
        ensures
            r == load_exit(*self),
    {
        match self {
            LoadError::Parse { .. } => ErrorCode::ParseError.exit_code(),
            LoadError::Io { .. } => ErrorCode::IoError.exit_code(),
            LoadError::Usage { .. } => ErrorCode::ParseError.exit_code(),
        }
    }
}

/// Schema-validation failure of a command.
#[derive(Debug)]
pub enum ValidationError {
    /// A field failed schema checks (exit 4).
    Validation {
        /// Field path.
        field: String,
        /// Detail.
        message: String,
    },
    /// A lifecycle field was used outside interactive mode (exit 5).
    State {
        /// Field path.
        field: String,
        /// Detail.
        message: String,
    },
}

impl ValidationError {
    /// Stable exit code.
    pub fn exit_code(&self) -> (r: i32)
        ensures
            r == (match *self {
                ValidationError::Validation { .. } => 4i32,
                ValidationError::State { .. } => 5i32,
            }),
    {
        match self {
            ValidationError::Validation { .. } => ErrorCode::ValidationError.exit_code(),
            ValidationError::State { .. } => ErrorCode::StateError.exit_code(),
        }
    }
}

/// Failure serializing stdout or structured stderr JSON at the emit boundary.
#[derive(Debug)]
pub enum EmitError {
    /// The envelope or result could not be serialized.
    Serialize {
        /// Detail.
        message: String,
    },
}

/// Why a template expansion failed.
#[derive(Debug, Clone, Copy, PartialEq, Eq)]
pub enum TemplateErrorKind {
    /// Template contained `{` without a matching `}`.
    UnclosedBrace,
    /// `{name}` is not a known template variable.
    UnknownVariable,
    /// Variable is valid only in the other expansion phase.
    PhaseRestricted,
    /// Variable is known but not available in this context.
    Unavailable,
    /// Expand/preexec spec is incomplete or contradictory.
    InvalidSpec,
}

/// Why a preexec subprocess failed.
#[derive(Debug, PartialEq, Eq)]
pub enum PreexecFailureKind {
    /// The helper binary could not be spawned.
    SpawnNotFound {
        /// Expanded `preexec.cmd`.
        cmd: String,
    },
    /// The helper ran and exited nonzero.
    NonZeroExit {
        /// Process exit code, or `1` when killed by signal.
        code: i32,
        /// Last 4 KiB of child stderr.
        stderr_tail: String,
    },
    /// The helper exceeded the preexec timeout.
    Timeout {
        /// Expanded `preexec.cmd`.
        cmd: String,
        /// Timeout that elapsed, in seconds.
        timeout_secs: u64,
    },
}

/// Structured extension-engine failure.
#[derive(Debug)]
pub enum ExtensionError {
    /// Registry JSON or schema is invalid.
    InvalidRegistry {
        /// Human-readable load failure.
        message: String,
    },
    /// One or more required `{arg:name}` flags were missing.
    MissingArgs {
        /// Missing flags including leading dashes (`--root`).
        missing: Vec<String>,
        /// All declared `{arg:*}` names (no dashes), sorted and distinct.
        declared: Vec<String>,
        /// Extension that required the flags.
        extension_id: ExtensionId,
        /// Copy-paste example from the skill card.
        example: String,
        /// Invocation-prefix help (`wyvern compose render --help`).
        help_command: String,
    },
    /// Unexpected token after a successful prefix match.
    UnexpectedArg {
        /// Offending token.
        token: String,
        /// Declared `{arg:*}` names (no dashes); reports list them sorted, once each.
        declared: Vec<String>,
        /// Extension that matched argv.
        extension_id: ExtensionId,
        /// Invocation-prefix help.
        help_command: String,
    },
    /// Path-derived template used without a matched path.
    PathVarWithoutPath {
        /// Template variable name.
        var: String,
    },
    /// Template expansion failure.
    Template {
        /// Discriminated substitution failure class.
        kind: TemplateErrorKind,
        /// Substitution failure detail.
        message: String,
    },
    /// Preexec process failed or could not be spawned.
    Preexec {
        /// Spawn-not-found, nonzero-exit, or timeout (`None` for other failures).
        kind: Option<PreexecFailureKind>,
        /// Human-readable subprocess failure.
        message: String,
    },
    /// Expanded command failed validation.
    InvalidCommand {
        /// Schema validation error.
        source: ValidationError,
    },
    /// Filesystem failure while loading or expanding.
    Io {
        /// Human-readable I/O error description.
        message: String,
    },
}

/// Exit code of an extension failure.
pub open spec fn extension_exit(e: ExtensionError) -> i32 {
    match e {
        ExtensionError::InvalidRegistry { .. } => 2,
        ExtensionError::Io { .. } => 3,
        ExtensionError::Preexec { .. } => 3,
        ExtensionError::InvalidCommand { source } => match source {
            ValidationError::Validation { .. } => 4,
            ValidationError::State { .. } => 5,
        },
        _ => 4,
    }
}

impl ExtensionError {
    /// Stable process exit code for this failure.
    pub fn exit_code(&self) -> (r: i32)
        ensures
            r == extension_exit(*self),
    {
        match self {
            ExtensionError::InvalidRegistry { .. } => ErrorCode::ParseError.exit_code(),
            ExtensionError::Io { .. } | ExtensionError::Preexec { .. } => {
                ErrorCode::IoError.exit_code()
            },
            ExtensionError::InvalidCommand { source } => source.exit_code(),
            ExtensionError::MissingArgs { .. }
            | ExtensionError::UnexpectedArg { .. }
            | ExtensionError::PathVarWithoutPath { .. }
            | ExtensionError::Template { .. } => ErrorCode::ValidationError.exit_code(),
        }
    }
}

} // verus!
