//! Host option flags (`--bind`, `--ui-root`, `--viewer`), argv splitting,
//! the usage text, where command input comes from, and UI root discovery.
//!
//! Argv is read one step at a time: each step says which flag or positional
//! the next tokens form. Checking a `--bind` address and a `--viewer` mode
//! belongs to the host; [`invalid_bind_error`] and [`invalid_viewer_error`]
//! build the failures for values the host refuses.

use vstd::prelude::*;
use crate::catalog::{path_pushed, push_path};
use crate::diagnostics::{is_json_file, is_json_file_exec};
use crate::errors::{LoadError, UsageErrorKind};
use crate::expand::FileRead;
use crate::registry::opt_view;
use crate::text::{
    chars_of, concat2, concat3, copy_string, decimal, owned, push_decimal, push_str, starts_with,
    str_eq, str_starts_with, string_of, trim_spec, trim_string, views,
};

verus! {

/// Canonical usage text for invalid argv / empty stdin.
pub open spec fn usage_text() -> Seq<char> {
    "Usage: wyvern '<json>' | <file.json> | <file.md> [options]\n"@
        + "       echo '<json>' | wyvern [options]\n"@
        + "       wyvern browsers list|refresh\n"@
        + "       wyvern --version\n"@
        + "\n"@
        + "Options:\n"@
        + "  --bind <ADDR:PORT>         HTTP bind (default 127.0.0.1:0)\n"@
        + "  --allow-non-loopback       Permit non-loopback --bind (0.0.0.0 / LAN)\n"@
        + "  --ui-root <PATH>           Packaged UI root (default: share/wyvern/ui beside binary)\n"@
        + "  --viewer <MODE>            embedded|none|system|chrome|safari|edge|firefox\n"@
        + "                             (default: embedded; CI: WYVERN_VIEWER=none)\n"@
        + "\n"@
        + "Pass exactly one JSON string, .json file, or .md file; or pipe JSON on stdin."@
}

/// Canonical usage text for invalid argv / empty stdin.
pub fn usage_message() -> (r: String)
    ensures
        r@ == usage_text(),
{
    let mut s = owned("Usage: wyvern '<json>' | <file.json> | <file.md> [options]\n");
    push_str(&mut s, "       echo '<json>' | wyvern [options]\n");
    push_str(&mut s, "       wyvern browsers list|refresh\n");
    push_str(&mut s, "       wyvern --version\n");
    push_str(&mut s, "\n");
    push_str(&mut s, "Options:\n");
    push_str(&mut s, "  --bind <ADDR:PORT>         HTTP bind (default 127.0.0.1:0)\n");
    push_str(&mut s, "  --allow-non-loopback       Permit non-loopback --bind (0.0.0.0 / LAN)\n");
    push_str(
        &mut s,
        "  --ui-root <PATH>           Packaged UI root (default: share/wyvern/ui beside binary)\n",
    );
    push_str(&mut s, "  --viewer <MODE>            embedded|none|system|chrome|safari|edge|firefox\n");
    push_str(&mut s, "                             (default: embedded; CI: WYVERN_VIEWER=none)\n");
    push_str(&mut s, "\n");
    push_str(&mut s, "Pass exactly one JSON string, .json file, or .md file; or pipe JSON on stdin.");
    s
}

/// What the tokens at one argv position form.
#[derive(Debug)]
pub enum CliStep {
    /// `--bind VALUE` or `--bind=VALUE`.
    Bind {
        /// Raw address text.
        value: String,
        /// Index of the next unread token.
        next: usize,
    },
    /// `--ui-root VALUE` or `--ui-root=VALUE`.
    UiRoot {
        /// Raw path text.
        value: String,
        /// Index of the next unread token.
        next: usize,
    },
    /// `--viewer VALUE` or `--viewer=VALUE`.
    Viewer {
        /// Raw viewer mode text.
        value: String,
        /// Index of the next unread token.
        next: usize,
    },
    /// `--allow-non-loopback`.
    AllowNonLoopback {
        /// Index of the next unread token.
        next: usize,
    },
    /// A positional token (`--version` and `-V` count as positionals).
    Positional {
        /// The token.
        value: String,
        /// Index of the next unread token.
        next: usize,
    },
    /// No tokens are left.
    Done,
}

/// Mathematical form of a step.
pub enum StepView {
    Bind(Seq<char>, int),
    UiRoot(Seq<char>, int),
    Viewer(Seq<char>, int),
    AllowNonLoopback(int),
    Positional(Seq<char>, int),
    Done,
    /// A value flag was the last token.
    MissingValue(Seq<char>),
    /// An unknown token starting with `-`.
    UnknownFlag(Seq<char>),
}

/// `tok` is `flag=` followed by the value.
pub open spec fn inline_value(tok: Seq<char>, flag: Seq<char>) -> Option<Seq<char>> {
    let p = flag + "="@;
    if starts_with(tok, p) {
        Some(tok.subrange(p.len() as int, tok.len() as int))
    } else {
        None
    }
}

/// A value flag at `i`: the separate or the inline form.
pub open spec fn value_flag(args: Seq<Seq<char>>, i: int, flag: Seq<char>) -> Option<
    Result<(Seq<char>, int), Seq<char>>,
> {
    let tok = args[i];
    if tok == flag {
        if i + 1 < args.len() {
            Some(Ok((args[i + 1], i + 2)))
        } else {
            Some(Err(flag))
        }
    } else {
        match inline_value(tok, flag) {
            Some(v) => Some(Ok((v, i + 1))),
            None => None,
        }
    }
}

/// The step at index `i` of `args`.
pub open spec fn step_at(args: Seq<Seq<char>>, i: int) -> StepView {
    if i < 0 || i >= args.len() {
        StepView::Done
    } else {
        let tok = args[i];
        match value_flag(args, i, "--bind"@) {
            Some(Ok((v, n))) => StepView::Bind(v, n),
            Some(Err(f)) => StepView::MissingValue(f),
            None => if tok == "--allow-non-loopback"@ {
                StepView::AllowNonLoopback(i + 1)
            } else {
                match value_flag(args, i, "--ui-root"@) {
                    Some(Ok((v, n))) => StepView::UiRoot(v, n),
                    Some(Err(f)) => StepView::MissingValue(f),
                    None => match value_flag(args, i, "--viewer"@) {
                        Some(Ok((v, n))) => StepView::Viewer(v, n),
                        Some(Err(f)) => StepView::MissingValue(f),
                        None => if tok == "--version"@ || tok == "-V"@ {
                            StepView::Positional(tok, i + 1)
                        } else if tok.len() > 0 && tok[0] == '-' {
                            StepView::UnknownFlag(tok)
                        } else {
                            StepView::Positional(tok, i + 1)
                        },
                    },
                }
            },
        }
    }
}

/// `r` is the outcome that the step view `s` describes.
pub open spec fn step_outcome(r: Result<CliStep, LoadError>, s: StepView) -> bool {
    match s {
        StepView::Bind(v, n) => r matches Ok(CliStep::Bind { value, next }) && value@ == v && next
            == n,
        StepView::UiRoot(v, n) => r matches Ok(CliStep::UiRoot { value, next }) && value@ == v
            && next == n,
        StepView::Viewer(v, n) => r matches Ok(CliStep::Viewer { value, next }) && value@ == v
            && next == n,
        StepView::AllowNonLoopback(n) => r matches Ok(CliStep::AllowNonLoopback { next }) && next
            == n,
        StepView::Positional(v, n) => r matches Ok(CliStep::Positional { value, next }) && value@
            == v && next == n,
        StepView::Done => r matches Ok(CliStep::Done),
        StepView::MissingValue(f) => r matches Err(
            LoadError::Usage { kind: UsageErrorKind::MissingFlagValue { flag }, message },
        ) && flag@ == f && message@ == "missing value for "@ + f + "\n"@ + usage_text(),
        StepView::UnknownFlag(t) => r matches Err(
            LoadError::Usage { kind: UsageErrorKind::Generic, message },
        ) && message@ == "unknown flag '"@ + t + "'\n"@ + usage_text(),
    }
}

fn inline_value_exec(tok: &str, flag: &str) -> (r: Option<String>)
    ensures
        match inline_value(tok@, flag@) {
            Some(v) => r matches Some(s) && s@ == v,
            None => r is None,
        },
{
    let p = concat2(flag, "=");
    if str_starts_with(tok, p.as_str()) {
        let cs = chars_of(tok);
        let plen = p.unicode_len();
        let mut out: Vec<char> = Vec::new();
        let mut i: usize = plen;
        while i < cs.len()
            invariant
                plen <= i <= cs.len(),
                out@ == cs@.subrange(plen as int, i as int),
            decreases cs.len() - i,
        {
            out.push(cs[i]);
            i = i + 1;
            assert(out@ =~= cs@.subrange(plen as int, i as int));
        }
        Some(string_of(out.as_slice()))
    } else {
        None
    }
}

fn missing_value_error(flag: &str) -> (r: LoadError)
    ensures
        r matches LoadError::Usage { kind: UsageErrorKind::MissingFlagValue { flag: f }, message }
            && f@ == flag@ && message@ == "missing value for "@ + flag@ + "\n"@ + usage_text(),
{
    let mut message = concat3("missing value for ", flag, "\n");
    let u = usage_message();
    push_str(&mut message, u.as_str());
    LoadError::Usage { kind: UsageErrorKind::MissingFlagValue { flag: owned(flag) }, message }
}

/// Read the value flag `flag` at `i`, if the token there is that flag.
fn value_flag_exec(args: &Vec<String>, i: usize, flag: &str) -> (r: Option<
    Result<(String, usize), LoadError>,
>)
    requires
        i < args.len(),
    ensures
        match value_flag(views(args@), i as int, flag@) {
            Some(Ok((v, n))) => r matches Some(Ok((s, k))) && s@ == v && k == n,
            Some(Err(f)) => r matches Some(Err(
                LoadError::Usage { kind: UsageErrorKind::MissingFlagValue { flag: g }, message },
            )) && g@ == f && message@ == "missing value for "@ + f + "\n"@ + usage_text(),
            None => r is None,
        },
{
    let tok = args[i].as_str();
    if str_eq(tok, flag) {
        if i + 1 < args.len() {
            Some(Ok((args[i + 1].clone(), i + 2)))
        } else {
            Some(Err(missing_value_error(flag)))
        }
    } else {
        match inline_value_exec(tok, flag) {
            Some(v) => Some(Ok((v, i + 1))),
            None => None,
        }
    }
}

/// The step that starts at argv index `i`: which host flag or positional
/// the next tokens form, or why they are refused.
pub fn cli_step(args: &Vec<String>, i: usize) -> (r: Result<CliStep, LoadError>)
    requires
        args.len() < usize::MAX,
    ensures
        step_outcome(r, step_at(views(args@), i as int)),
{
    if i >= args.len() {
        return Ok(CliStep::Done);
    }
    let ghost a = views(args@);
    assert(a[i as int] == args@[i as int]@);
    match value_flag_exec(args, i, "--bind") {
        Some(Ok((value, next))) => return Ok(CliStep::Bind { value, next }),
        Some(Err(e)) => return Err(e),
        None => {},
    }
    let tok = args[i].as_str();
    if str_eq(tok, "--allow-non-loopback") {
        return Ok(CliStep::AllowNonLoopback { next: i + 1 });
    }
    match value_flag_exec(args, i, "--ui-root") {
        Some(Ok((value, next))) => return Ok(CliStep::UiRoot { value, next }),
        Some(Err(e)) => return Err(e),
        None => {},
    }
    match value_flag_exec(args, i, "--viewer") {
        Some(Ok((value, next))) => return Ok(CliStep::Viewer { value, next }),
        Some(Err(e)) => return Err(e),
        None => {},
    }
    if str_eq(tok, "--version") || str_eq(tok, "-V") {
        return Ok(CliStep::Positional { value: owned(tok), next: i + 1 });
    }
    if str_starts_with(tok, "-") {
        proof {
            reveal_strlit("-");
            assert(tok@[0] == tok@.subrange(0, 1)[0]);
        }
        let mut message = concat3("unknown flag '", tok, "'\n");
        let u = usage_message();
        push_str(&mut message, u.as_str());
        return Err(LoadError::Usage { kind: UsageErrorKind::Generic, message });
    }
    proof {
        reveal_strlit("-");
        if tok@.len() > 0 && tok@[0] == '-' {
            assert(tok@.subrange(0, 1) =~= "-"@);
        }
    }
    Ok(CliStep::Positional { value: owned(tok), next: i + 1 })
}

/// Message of a `--bind` value that is not a socket address (`detail` is
/// the address parser's message).
pub open spec fn invalid_bind_text(value: Seq<char>, detail: Seq<char>) -> Seq<char> {
    "invalid --bind '"@ + value + "': "@ + detail + "\nRecovery:\n"@
        + "- Use host:port form (example: 127.0.0.1:0 for an ephemeral loopback port)\n"@
        + "- For 0.0.0.0 / LAN binds, also pass --allow-non-loopback\n"@
        + "- Check the address is a valid IPv4/IPv6 socket address\n"@ + usage_text()
}

/// The step at `i` moves past `i` and stays within `args` (one past its end
/// at most).
pub proof fn lemma_step_advances(args: Seq<Seq<char>>, i: int)
    requires
        0 <= i < args.len(),
    ensures
        match step_at(args, i) {
            StepView::Bind(_, n) => i < n <= args.len(),
            StepView::UiRoot(_, n) => i < n <= args.len(),
            StepView::Viewer(_, n) => i < n <= args.len(),
            StepView::AllowNonLoopback(n) => i < n <= args.len(),
            StepView::Positional(_, n) => i < n <= args.len(),
            _ => true,
        },
{
}

/// What scanning argv from a token on has collected: every `--bind` /
/// `--viewer` value in order (`true` for a bind), the last `--ui-root`
/// value, whether `--allow-non-loopback` was given, the positionals in
/// order, and the failing step that ended the scan, if one did.
pub struct ScanView {
    pub values: Seq<(bool, Seq<char>)>,
    pub ui_root: Option<Seq<char>>,
    pub allow_non_loopback: bool,
    pub positionals: Seq<Seq<char>>,
    pub failure: Option<StepView>,
}

/// Scan `args` from token `i` on, adding to `acc`, step by step as
/// [`step_at`] reads them; a missing value or an unknown flag ends the scan.
pub open spec fn scan_from(args: Seq<Seq<char>>, i: int, acc: ScanView) -> ScanView
    decreases args.len() - i,
{
    if i < 0 || i >= args.len() {
        acc
    } else {
        proof {
            lemma_step_advances(args, i);
        }
        match step_at(args, i) {
            StepView::Bind(v, n) => scan_from(args, n, ScanView { values: acc.values.push((true, v)), ..acc }),
            StepView::Viewer(v, n) => scan_from(args, n, ScanView { values: acc.values.push((false, v)), ..acc }),
            StepView::UiRoot(v, n) => scan_from(args, n, ScanView { ui_root: Some(v), ..acc }),
            StepView::AllowNonLoopback(n) => scan_from(args, n, ScanView { allow_non_loopback: true, ..acc }),
            StepView::Positional(v, n) => scan_from(args, n, ScanView { positionals: acc.positionals.push(v), ..acc }),
            StepView::Done => acc,
            f => ScanView { failure: Some(f), ..acc },
        }
    }
}

/// The scan of a whole argv.
pub open spec fn scan_args(args: Seq<Seq<char>>) -> ScanView {
    scan_from(
        args,
        0,
        ScanView {
            values: Seq::empty(),
            ui_root: None,
            allow_non_loopback: false,
            positionals: Seq::empty(),
            failure: None,
        },
    )
}

/// The last `--bind` (`bind` true) or `--viewer` value among `values`.
pub open spec fn last_value(values: Seq<(bool, Seq<char>)>, bind: bool) -> Option<Seq<char>>
    decreases values.len(),
{
    if values.len() == 0 {
        None
    } else if values.last().0 == bind {
        Some(values.last().1)
    } else {
        last_value(values.drop_last(), bind)
    }
}

/// A `--bind` or `--viewer` value, in argv order.
#[derive(Debug)]
pub enum FlagValue {
    /// A `--bind` address.
    Bind(String),
    /// A `--viewer` mode.
    Viewer(String),
}

/// Host flags and positionals read from argv. Each entry of `values` must
/// be a valid address or viewer mode, checked in order; the last of each
/// kind is the one used (`bind`, `viewer`). `failure`, when set, is
/// reported after those checks.
#[derive(Debug)]
pub struct CliFlags {
    /// Every `--bind` / `--viewer` value, in order.
    pub values: Vec<FlagValue>,
    /// The last `--bind` value.
    pub bind: Option<String>,
    /// The last `--viewer` value.
    pub viewer: Option<String>,
    /// The last `--ui-root` value.
    pub ui_root: Option<String>,
    /// Whether `--allow-non-loopback` was given.
    pub allow_non_loopback: bool,
    /// Positional tokens, in order (`--version` / `-V` among them).
    pub positionals: Vec<String>,
    /// The missing-value or unknown-flag failure that ended the scan.
    pub failure: Option<LoadError>,
}

/// View of one flag value: `true` for a bind.
pub open spec fn flag_value_view(v: FlagValue) -> (bool, Seq<char>) {
    match v {
        FlagValue::Bind(s) => (true, s@),
        FlagValue::Viewer(s) => (false, s@),
    }
}

/// The failure a failing step reports (the error side of [`step_outcome`]).
pub open spec fn step_failure(e: LoadError, s: StepView) -> bool {
    step_outcome(Err(e), s)
}

/// Read host flags and positionals from argv, step by step.
pub fn parse_cli_flags(args: &Vec<String>) -> (r: CliFlags)
    requires
        args.len() < usize::MAX,
    ensures
        ({
            let sc = scan_args(views(args@));
            &&& r.values@.map_values(|v: FlagValue| flag_value_view(v)) == sc.values
            &&& opt_view(r.bind) == last_value(sc.values, true)
            &&& opt_view(r.viewer) == last_value(sc.values, false)
            &&& opt_view(r.ui_root) == sc.ui_root
            &&& r.allow_non_loopback == sc.allow_non_loopback
            &&& views(r.positionals@) == sc.positionals
            &&& match sc.failure {
                Some(f) => r.failure matches Some(e) && step_failure(e, f),
                None => r.failure is None,
            }
        }),
{
    let ghost a = views(args@);
    let mut values: Vec<FlagValue> = Vec::new();
    let mut bind: Option<String> = None;
    let mut viewer: Option<String> = None;
    let mut ui_root: Option<String> = None;
    let mut allow_non_loopback = false;
    let mut positionals: Vec<String> = Vec::new();
    let mut i: usize = 0;
    let ghost init = ScanView {
        values: Seq::empty(),
        ui_root: None,
        allow_non_loopback: false,
        positionals: Seq::empty(),
        failure: None,
    };
    assert(values@.map_values(|v: FlagValue| flag_value_view(v)) =~= init.values);
    assert(views(positionals@) =~= init.positionals);
    loop
        invariant
            args.len() < usize::MAX,
            a == views(args@),
            i <= args.len(),
            scan_from(a, i as int, ScanView {
                values: values@.map_values(|v: FlagValue| flag_value_view(v)),
                ui_root: opt_view(ui_root),
                allow_non_loopback,
                positionals: views(positionals@),
                failure: None,
            }) == scan_args(a),
            opt_view(bind) == last_value(values@.map_values(|v: FlagValue| flag_value_view(v)), true),
            opt_view(viewer) == last_value(values@.map_values(|v: FlagValue| flag_value_view(v)), false),
        decreases args.len() - i,
    {
        let ghost vs = values@.map_values(|v: FlagValue| flag_value_view(v));
        let ghost ps = views(positionals@);
        proof {
            if i < args.len() {
                lemma_step_advances(a, i as int);
            }
        }
        let step = cli_step(args, i);
        match step {
            Ok(CliStep::Bind { value, next }) => {
                let b = copy_string(&value);
                values.push(FlagValue::Bind(value));
                assert(values@.map_values(|v: FlagValue| flag_value_view(v)) =~= vs.push((true, b@)));
                assert(vs.push((true, b@)).drop_last() =~= vs);
                bind = Some(b);
                i = next;
            },
            Ok(CliStep::Viewer { value, next }) => {
                let b = copy_string(&value);
                values.push(FlagValue::Viewer(value));
                assert(values@.map_values(|v: FlagValue| flag_value_view(v)) =~= vs.push((false, b@)));
                assert(vs.push((false, b@)).drop_last() =~= vs);
                viewer = Some(b);
                i = next;
            },
            Ok(CliStep::UiRoot { value, next }) => {
                ui_root = Some(value);
                i = next;
            },
            Ok(CliStep::AllowNonLoopback { next }) => {
                allow_non_loopback = true;
                i = next;
            },
            Ok(CliStep::Positional { value, next }) => {
                let ghost pv = value@;
                positionals.push(value);
                assert(views(positionals@) =~= ps.push(pv));
                i = next;
            },
            Ok(CliStep::Done) => {
                return CliFlags { values, bind, viewer, ui_root, allow_non_loopback, positionals, failure: None };
            },
            Err(e) => {
                return CliFlags { values, bind, viewer, ui_root, allow_non_loopback, positionals, failure: Some(e) };
            },
        }
    }
}

/// The failure for a `--bind` value that the host cannot parse.
pub fn invalid_bind_error(value: &str, detail: &str) -> (r: LoadError)
    ensures
        r matches LoadError::Usage { kind: UsageErrorKind::InvalidBind { value: v }, message }
            && v@ == value@ && message@ == invalid_bind_text(value@, detail@),
{
    let mut message = concat3("invalid --bind '", value, "': ");
    push_str(&mut message, detail);
    push_str(&mut message, "\nRecovery:\n");
    push_str(
        &mut message,
        "- Use host:port form (example: 127.0.0.1:0 for an ephemeral loopback port)\n",
    );
    push_str(&mut message, "- For 0.0.0.0 / LAN binds, also pass --allow-non-loopback\n");
    push_str(&mut message, "- Check the address is a valid IPv4/IPv6 socket address\n");
    let u = usage_message();
    push_str(&mut message, u.as_str());
    LoadError::Usage { kind: UsageErrorKind::InvalidBind { value: owned(value) }, message }
}

/// The failure for a `--viewer` value that is not a viewer mode.
pub fn invalid_viewer_error(value: &str) -> (r: LoadError)
    ensures
        r matches LoadError::Usage { kind: UsageErrorKind::InvalidViewer { value: v }, message }
            && v@ == value@ && message@ == "invalid --viewer '"@ + value@
            + "' (expected embedded|none|system|chrome|safari|edge|firefox)\n"@ + usage_text(),
{
    let mut message = concat3(
        "invalid --viewer '",
        value,
        "' (expected embedded|none|system|chrome|safari|edge|firefox)\n",
    );
    let u = usage_message();
    push_str(&mut message, u.as_str());
    LoadError::Usage { kind: UsageErrorKind::InvalidViewer { value: owned(value) }, message }
}

/// The failure for a `WYVERN_VIEWER` value that is not a viewer mode.
pub fn invalid_viewer_env_error(value: &str) -> (r: LoadError)
    ensures
        r matches LoadError::Usage { kind: UsageErrorKind::InvalidWyvernViewerEnv { value: v }, message }
            && v@ == value@ && message@ == "invalid WYVERN_VIEWER=\""@ + value@
            + "\"; expected embedded, none, system, or a named viewer path"@,
{
    let message = concat3(
        "invalid WYVERN_VIEWER=\"",
        value,
        "\"; expected embedded, none, system, or a named viewer path",
    );
    LoadError::Usage { kind: UsageErrorKind::InvalidWyvernViewerEnv { value: owned(value) }, message }
}

/// The failure for a `WYVERN_VIEWER` value that is not valid Unicode.
pub fn viewer_env_unicode_error() -> (r: LoadError)
    ensures
        r matches LoadError::Usage { kind: UsageErrorKind::InvalidWyvernViewerUnicode, message }
            && message@ == "WYVERN_VIEWER is not valid Unicode"@,
{
    LoadError::Usage {
        kind: UsageErrorKind::InvalidWyvernViewerUnicode,
        message: owned("WYVERN_VIEWER is not valid Unicode"),
    }
}

/// Directories probed for the packaged UI, in order: `ui` and
/// `share/wyvern/ui` under the working directory, then `share/wyvern/ui`
/// and `ui` beside the executable.
pub open spec fn ui_root_candidates_spec(cwd: Option<Seq<char>>, exe_dir: Option<Seq<char>>) -> Seq<
    Seq<char>,
> {
    let first = match cwd {
        Some(c) => seq![path_pushed(c, "ui"@), path_pushed(c, "share/wyvern/ui"@)],
        None => seq!["ui"@, "share/wyvern/ui"@],
    };
    match exe_dir {
        Some(e) => first + seq![path_pushed(e, "share/wyvern/ui"@), path_pushed(e, "ui"@)],
        None => first,
    }
}

/// The UI root candidates for a working directory and executable directory.
pub fn ui_root_candidates(cwd: Option<&str>, exe_dir: Option<&str>) -> (r: Vec<String>)
    ensures
        views(r@) == ui_root_candidates_spec(
            match cwd {
                Some(c) => Some(c@),
                None => None,
            },
            match exe_dir {
                Some(e) => Some(e@),
                None => None,
            },
        ),
{
    let mut v: Vec<String> = Vec::new();
    match cwd {
        Some(c) => {
            v.push(push_path(c, "ui"));
            v.push(push_path(c, "share/wyvern/ui"));
        },
        None => {
            v.push(owned("ui"));
            v.push(owned("share/wyvern/ui"));
        },
    }
    let ghost first = views(v@);
    match exe_dir {
        Some(e) => {
            v.push(push_path(e, "share/wyvern/ui"));
            v.push(push_path(e, "ui"));
        },
        None => {},
    }
    assert(views(v@) =~= ui_root_candidates_spec(
        match cwd {
            Some(c) => Some(c@),
            None => None,
        },
        match exe_dir {
            Some(e) => Some(e@),
            None => None,
        },
    ));
    v
}

/// Index of the first candidate that is a directory.
pub open spec fn first_dir_from(is_dir: Seq<bool>, i: int) -> Option<int>
    decreases is_dir.len() - i,
{
    if i < 0 || i >= is_dir.len() {
        None
    } else if is_dir[i] {
        Some(i)
    } else {
        first_dir_from(is_dir, i + 1)
    }
}

/// The UI root: `WYVERN_UI_ROOT` when set, else the first candidate that is
/// a directory (`is_dir[k]` tells whether `candidates[k]` is one). `None`
/// means none was found: the embedded assets come next, then `ui`.
pub fn default_ui_root_with(ui_root_var: Option<&str>, candidates: &Vec<String>, is_dir: &Vec<
    bool,
>) -> (r: Option<String>)
    requires
        candidates.len() == is_dir.len(),
    ensures
        match ui_root_var {
            Some(v) => r matches Some(s) && s@ == v@,
            None => match first_dir_from(is_dir@, 0) {
                Some(k) => r matches Some(s) && s@ == candidates@[k]@,
                None => r is None,
            },
        },
{
    match ui_root_var {
        Some(v) => Some(owned(v)),
        None => {
            let mut i: usize = 0;
            while i < is_dir.len()
                invariant
                    ui_root_var is None,
                    candidates.len() == is_dir.len(),
                    i <= is_dir.len(),
                    first_dir_from(is_dir@, 0) == first_dir_from(is_dir@, i as int),
                decreases is_dir.len() - i,
            {
                if is_dir[i] {
                    return Some(copy_string(&candidates[i]));
                }
                i = i + 1;
            }
            None
        },
    }
}

/// Most bytes read from stdin or a `.json` file.
pub const MAX_CLI_INPUT_BYTES: usize = 1048576;

/// Where a command comes from once no extension matched argv.
#[derive(Debug)]
pub enum InputSource {
    /// Read JSON from stdin (no positional).
    Stdin,
    /// Read JSON from this `.json` file.
    JsonFile(String),
    /// Parse this argument as inline JSON.
    Inline(String),
}

/// The input source for `args`, or the generic usage failure when argv has
/// more than one token or a lone flag.
pub fn input_source(args: &Vec<String>) -> (r: Result<InputSource, LoadError>)
    ensures
        args.len() == 0 ==> r matches Ok(InputSource::Stdin),
        args.len() > 1 ==> (r matches Err(LoadError::Usage { kind: UsageErrorKind::Generic, message })
            && message@ == usage_text()),
        args.len() == 1 && args@[0]@.len() > 0 && args@[0]@[0] == '-' ==> (r matches Err(
            LoadError::Usage { kind: UsageErrorKind::Generic, message },
        ) && message@ == usage_text()),
        args.len() == 1 && !(args@[0]@.len() > 0 && args@[0]@[0] == '-') && is_json_file(
            args@[0]@,
        ) ==> (r matches Ok(InputSource::JsonFile(p)) && p@ == args@[0]@),
        args.len() == 1 && !(args@[0]@.len() > 0 && args@[0]@[0] == '-') && !is_json_file(
            args@[0]@,
        ) ==> (r matches Ok(InputSource::Inline(t)) && t@ == args@[0]@),
{
    if args.len() == 0 {
        return Ok(InputSource::Stdin);
    }
    if args.len() > 1 {
        return Err(LoadError::Usage { kind: UsageErrorKind::Generic, message: usage_message() });
    }
    let a = args[0].as_str();
    proof {
        reveal_strlit("-");
        if a@.len() > 0 && a@[0] == '-' {
            assert(a@.subrange(0, 1) =~= "-"@);
        }
    }
    if str_starts_with(a, "-") {
        assert(a@[0] == a@.subrange(0, 1)[0]);
        return Err(LoadError::Usage { kind: UsageErrorKind::Generic, message: usage_message() });
    }
    if is_json_file_exec(a) {
        Ok(InputSource::JsonFile(owned(a)))
    } else {
        Ok(InputSource::Inline(owned(a)))
    }
}

/// Refuse input longer than [`MAX_CLI_INPUT_BYTES`] (`field` names the
/// input, `origin` is how the message names it).
pub fn check_input_len(field: &str, origin: &str, len: usize) -> (r: Result<(), LoadError>)
    ensures
        len <= MAX_CLI_INPUT_BYTES <==> r is Ok,
        r matches Err(e) ==> (e matches LoadError::Io { field: f, message } && f@ == field@
            && message@ == origin@ + " exceeds maximum of "@ + decimal(
            MAX_CLI_INPUT_BYTES as nat,
        ) + " bytes"@),
{
    if len > MAX_CLI_INPUT_BYTES {
        let mut message = concat2(origin, " exceeds maximum of ");
        push_decimal(&mut message, MAX_CLI_INPUT_BYTES as u64);
        push_str(&mut message, " bytes");
        Err(LoadError::Io { field: owned(field), message })
    } else {
        Ok(())
    }
}

/// The text of CLI input read up to [`MAX_CLI_INPUT_BYTES`] (`field` names
/// the input, `origin` is how messages name it): a failed read, input over
/// the limit and bytes that are not UTF-8 are `LoadError::Io` failures.
pub fn input_text(field: &str, origin: &str, read: FileRead) -> (r: Result<String, LoadError>)
    ensures
        match read {
            FileRead::Failed(d) => r matches Err(LoadError::Io { field: f, message }) && f@ == field@
                && message@ == "could not read "@ + origin@ + ": "@ + d@,
            FileRead::Read { len, text } => if len > MAX_CLI_INPUT_BYTES {
                r matches Err(LoadError::Io { field: f, message }) && f@ == field@ && message@
                    == origin@ + " exceeds maximum of "@ + decimal(MAX_CLI_INPUT_BYTES as nat)
                    + " bytes"@
            } else {
                match text {
                    Ok(t) => r matches Ok(s) && s@ == t@,
                    Err(d) => r matches Err(LoadError::Io { field: f, message }) && f@ == field@
                        && message@ == origin@ + " is not valid UTF-8: "@ + d@,
                }
            },
        },
{
    match read {
        FileRead::Failed(d) => {
            let head = concat3("could not read ", origin, ": ");
            Err(LoadError::Io { field: owned(field), message: concat2(head.as_str(), d.as_str()) })
        },
        FileRead::Read { len, text } => {
            check_input_len(field, origin, len)?;
            match text {
                Ok(t) => Ok(t),
                Err(d) => {
                    let head = concat2(origin, " is not valid UTF-8: ");
                    Err(LoadError::Io { field: owned(field), message: concat2(head.as_str(), d.as_str()) })
                },
            }
        },
    }
}

/// The failure when the `.json` command file at `path` cannot be opened.
pub fn input_file_open_error(path: &str, detail: &str) -> (r: LoadError)
    ensures
        r matches LoadError::Io { field, message } && field@ == "file"@ && message@
            == "could not read path '"@ + path@ + "': "@ + detail@,
{
    let head = concat3("could not read path '", path, "': ");
    LoadError::Io { field: owned("file"), message: concat2(head.as_str(), detail) }
}

/// Stdin text that holds only whitespace is a usage failure.
pub fn check_stdin_text(text: &str) -> (r: Result<(), LoadError>)
    ensures
        trim_spec(text@).len() > 0 <==> r is Ok,
        r matches Err(e) ==> (e matches LoadError::Usage { kind: UsageErrorKind::Generic, message }
            && message@ == usage_text()),
{
    let t = trim_string(text);
    if t.unicode_len() == 0 {
        Err(LoadError::Usage { kind: UsageErrorKind::Generic, message: usage_message() })
    } else {
        Ok(())
    }
}

} // verus!
