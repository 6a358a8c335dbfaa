//! `wyvern wizard lint`: argv decisions, stage failures and the report.

use vstd::prelude::*;

use crate::envelope::{
    envelope_text, envelope_to_json, list2, list3, push_owned, push_string, EnvelopeView,
    StderrEnvelope,
};
use crate::errors::{BuiltinDomain, EmitError, ErrorCode, UsageErrorKind};
use crate::text::{
    concat2, concat3, copy_string, decimal, join, join_spec, owned, push_decimal, push_str,
    str_eq, views,
};

verus! {

/// Usage text for `wyvern wizard --help`.
pub open spec fn wizard_usage_text() -> Seq<char> {
    "Usage: wyvern wizard lint <path> [<path>...]\n       wyvern wizard lint --help\n\nCommands:\n  lint <path...>   Lint one or more wizard packages for missing nav buttons\n\nArguments:\n  <path>   Directory containing wizard.json, or path to wizard.json itself\n\nExit codes:\n  0   All pages are clean\n  1   One or more findings\n  2   Usage / bad arguments\n\nFindings codes:\n  WIZARD-LINT-001  Non-entry page missing back button\n  WIZARD-LINT-002  Terminal page missing cancel button\n  WIZARD-LINT-003  wizard-nav.js chrome opt-in but no nav region\n  WIZARD-LINT-004  Non-terminal page (with chrome opt-in) missing next button\n  WIZARD-LINT-005  config.dataflow requires unsatisfied or type conflict\n  WIZARD-LINT-006  Terminal post_input not covered by exports\n  WIZARD-LINT-007  next_wizard input keys undeclared on target\n  WIZARD-LINT-008  Local JS reads a key no page exports\n\nSee also: wyvern --help\n"@
}

/// Usage text for `wyvern wizard --help` / `wyvern wizard lint --help`.
pub fn wizard_usage_message() -> (r: String)
    ensures
        r@ == wizard_usage_text(),
{
    owned(
        "Usage: wyvern wizard lint <path> [<path>...]\n       wyvern wizard lint --help\n\nCommands:\n  lint <path...>   Lint one or more wizard packages for missing nav buttons\n\nArguments:\n  <path>   Directory containing wizard.json, or path to wizard.json itself\n\nExit codes:\n  0   All pages are clean\n  1   One or more findings\n  2   Usage / bad arguments\n\nFindings codes:\n  WIZARD-LINT-001  Non-entry page missing back button\n  WIZARD-LINT-002  Terminal page missing cancel button\n  WIZARD-LINT-003  wizard-nav.js chrome opt-in but no nav region\n  WIZARD-LINT-004  Non-terminal page (with chrome opt-in) missing next button\n  WIZARD-LINT-005  config.dataflow requires unsatisfied or type conflict\n  WIZARD-LINT-006  Terminal post_input not covered by exports\n  WIZARD-LINT-007  next_wizard input keys undeclared on target\n  WIZARD-LINT-008  Local JS reads a key no page exports\n\nSee also: wyvern --help\n",
    )
}

/// Structured `wizard lint` stage failure.
#[derive(Debug)]
pub enum WizardLintStageError {
    /// Filesystem read or path resolution failed.
    Io {
        /// Path that could not be read or resolved.
        path: String,
        /// Human-readable detail.
        message: String,
    },
    /// `wizard.json` was not valid JSON.
    Parse {
        /// `wizard.json` path.
        path: String,
        /// Parser detail.
        message: String,
    },
    /// `wizard.json` fields failed shape checks.
    Validation {
        /// `wizard.json` path.
        path: String,
        /// Field that failed (e.g. `page.id`).
        field: String,
        /// Human-readable detail.
        message: String,
    },
}

/// Message of a stage failure.
pub open spec fn stage_message(e: WizardLintStageError) -> Seq<char> {
    match e {
        WizardLintStageError::Io { message, .. } => message@,
        WizardLintStageError::Parse { message, .. } => message@,
        WizardLintStageError::Validation { message, .. } => message@,
    }
}

/// Sub-code of a stage failure.
pub open spec fn stage_subcode(e: WizardLintStageError) -> Seq<char> {
    match e {
        WizardLintStageError::Io { .. } => "wizard_lint_io"@,
        WizardLintStageError::Parse { .. } => "wizard_lint_parse"@,
        WizardLintStageError::Validation { .. } => "wizard_lint_validation"@,
    }
}

impl WizardLintStageError {
    /// Human-readable detail.
    pub fn message(&self) -> (r: &str)
        ensures
            r@ == stage_message(*self),
    {
        match self {
            WizardLintStageError::Io { message, .. } => message.as_str(),
            WizardLintStageError::Parse { message, .. } => message.as_str(),
            WizardLintStageError::Validation { message, .. } => message.as_str(),
        }
    }

    /// Process exit code for `wizard lint` stage failures (always 1).
    pub fn exit_code(&self) -> (r: i32)
        ensures
            r == 1,
    {
        1
    }

    /// Stable sub-discriminator under the mapped error code.
    pub fn subcode(&self) -> (r: &'static str)
        ensures
            r@ == stage_subcode(*self),
    {
        match self {
            WizardLintStageError::Io { .. } => "wizard_lint_io",
            WizardLintStageError::Parse { .. } => "wizard_lint_parse",
            WizardLintStageError::Validation { .. } => "wizard_lint_validation",
        }
    }
}

/// The variant and context of `first` with every message joined by newlines.
pub open spec fn combined_spec(first: WizardLintStageError, messages: Seq<Seq<char>>, r: WizardLintStageError) -> bool {
    let m = join_spec(messages, "\n"@);
    match first {
        WizardLintStageError::Io { path, .. } => r matches WizardLintStageError::Io { path: p, message }
            && p@ == path@ && message@ == m,
        WizardLintStageError::Parse { path, .. } => r matches WizardLintStageError::Parse {
            path: p,
            message,
        } && p@ == path@ && message@ == m,
        WizardLintStageError::Validation { path, field, .. } => r matches WizardLintStageError::Validation {
            path: p,
            field: f,
            message,
        } && p@ == path@ && f@ == field@ && message@ == m,
    }
}

/// Combine the stage failures of several packages into one: a single
/// failure as it is; otherwise the first failure's kind and context with
/// all messages joined by newlines.
pub fn combine_stage_errors(errors: Vec<WizardLintStageError>) -> (r: WizardLintStageError)
    requires
        errors@.len() > 0,
    ensures
        errors@.len() == 1 ==> r == errors@[0],
        errors@.len() > 1 ==> combined_spec(
            errors@[0],
            errors@.map_values(|e: WizardLintStageError| stage_message(e)),
            r,
        ),
{
    let mut errors = errors;
    if errors.len() == 1 {
        return errors.remove(0);
    }
    let ghost all = errors@;
    let mut messages: Vec<String> = Vec::new();
    let mut i: usize = 0;
    while i < errors.len()
        invariant
            errors@ == all,
            i <= errors.len(),
            views(messages@) == all.subrange(0, i as int).map_values(
                |e: WizardLintStageError| stage_message(e),
            ),
        decreases errors.len() - i,
    {
        push_owned(&mut messages, errors[i].message());
        assert(all.subrange(0, i + 1).map_values(|e: WizardLintStageError| stage_message(e))
            =~= all.subrange(0, i as int).map_values(|e: WizardLintStageError| stage_message(e)).push(
            stage_message(all[i as int]),
        ));
        i = i + 1;
    }
    assert(all.subrange(0, errors.len() as int) =~= all);
    let combined = join(&messages, "\n");
    match errors.remove(0) {
        WizardLintStageError::Io { path, .. } => WizardLintStageError::Io { path, message: combined },
        WizardLintStageError::Parse { path, .. } => WizardLintStageError::Parse {
            path,
            message: combined,
        },
        WizardLintStageError::Validation { path, field, .. } => WizardLintStageError::Validation {
            path,
            field,
            message: combined,
        },
    }
}

/// Outcome of `wyvern wizard ...`.
#[derive(Debug)]
pub enum WizardCmdResult {
    /// All checked pages produced no findings (or help); the stdout text.
    Clean(String),
    /// One or more findings; the full report for stdout.
    Findings(String),
    /// The packages to lint, in order.
    Lint(Vec<String>),
}

/// Failure from `wyvern wizard ...`.
#[derive(Debug)]
pub enum WizardCmdError {
    /// Bad argv (exit 2).
    Usage {
        /// Discriminated usage class for structured stderr recovery.
        kind: UsageErrorKind,
        /// Plain-text usage message.
        message: String,
    },
    /// I/O, parse, or field-validation failure.
    Stage(WizardLintStageError),
    /// Emit-boundary serialize failure.
    Emit(EmitError),
}

/// A help request word.
pub open spec fn wizard_help_word(t: Seq<char>) -> bool {
    t == "--help"@ || t == "-h"@ || t == "help"@
}

fn help_word(t: &str) -> (r: bool)
    ensures
        r == wizard_help_word(t@),
{
    str_eq(t, "--help") || str_eq(t, "-h") || str_eq(t, "help")
}

/// Decide what `wyvern wizard ARGS` asks for: help (no argument or a help
/// word first, or a help word anywhere after `lint`), the packages to lint,
/// or a usage failure.
#[verifier::loop_isolation(false)]
pub fn run_wizard_command(args: &[String]) -> (r: Result<WizardCmdResult, WizardCmdError>)
    ensures
        ({
            let a = views(args@);
            if a.len() == 0 || wizard_help_word(a[0]) {
                r matches Ok(WizardCmdResult::Clean(t)) && t@ == wizard_usage_text()
            } else if a[0] == "lint"@ {
                let rest = a.drop_first();
                if exists|k: int| 0 <= k < rest.len() && wizard_help_word(#[trigger] rest[k]) {
                    r matches Ok(WizardCmdResult::Clean(t)) && t@ == wizard_usage_text()
                } else if rest.len() == 0 {
                    r matches Err(WizardCmdError::Usage { kind, message }) && kind
                        == UsageErrorKind::Generic && message@
                        == "wyvern wizard lint requires at least one <path> argument\n"@
                        + wizard_usage_text()
                } else {
                    r matches Ok(WizardCmdResult::Lint(paths)) && views(paths@) == rest
                }
            } else {
                r matches Err(WizardCmdError::Usage { kind, message }) && kind == (
                UsageErrorKind::UnknownSubcommand {
                    domain: BuiltinDomain::Wizard,
                    token: kind->UnknownSubcommand_token,
                }) && kind->UnknownSubcommand_token@ == a[0] && message@
                    == "unknown wizard subcommand '"@ + a[0] + "'\n"@ + wizard_usage_text()
            }
        }),
{
    let ghost a = views(args@);
    if args.len() == 0 || help_word(args[0].as_str()) {
        return Ok(WizardCmdResult::Clean(wizard_usage_message()));
    }
    let first = args[0].as_str();
    if !str_eq(first, "lint") {
        let u = wizard_usage_message();
        let mut message = concat3("unknown wizard subcommand '", first, "'\n");
        push_str(&mut message, u.as_str());
        return Err(
            WizardCmdError::Usage {
                kind: UsageErrorKind::UnknownSubcommand {
                    domain: BuiltinDomain::Wizard,
                    token: owned(first),
                },
                message,
            },
        );
    }
    let (_, rest) = args.split_at(1);
    assert(views(rest@) =~= a.drop_first());
    let mut i: usize = 0;
    while i < rest.len()
        invariant
            i <= rest.len(),
            forall|k: int| 0 <= k < i ==> !wizard_help_word(#[trigger] views(rest@)[k]),
        decreases rest.len() - i,
    {
        if help_word(rest[i].as_str()) {
            assert(wizard_help_word(views(rest@)[i as int]));
            return Ok(WizardCmdResult::Clean(wizard_usage_message()));
        }
        i = i + 1;
    }
    if rest.len() == 0 {
        let u = wizard_usage_message();
        return Err(
            WizardCmdError::Usage {
                kind: UsageErrorKind::Generic,
                message: concat2(
                    "wyvern wizard lint requires at least one <path> argument\n",
                    u.as_str(),
                ),
            },
        );
    }
    let mut paths: Vec<String> = Vec::new();
    let mut j: usize = 0;
    while j < rest.len()
        invariant
            j <= rest.len(),
            views(paths@) == views(rest@).subrange(0, j as int),
        decreases rest.len() - j,
    {
        push_string(&mut paths, copy_string(&rest[j]));
        assert(views(rest@).subrange(0, j + 1) =~= views(rest@).subrange(0, j as int).push(
            rest@[j as int]@,
        ));
        j = j + 1;
    }
    assert(views(rest@).subrange(0, rest.len() as int) =~= views(rest@));
    Ok(WizardCmdResult::Lint(paths))
}

/// What linting one package gave: its finding lines and page count.
#[derive(Debug)]
pub struct PackageLint {
    /// One display line per finding.
    pub findings: Vec<String>,
    /// Number of pages checked.
    pub pages: usize,
}

/// `singular` when `n` is one, else `plural`.
pub open spec fn noun(n: nat, singular: Seq<char>, plural: Seq<char>) -> Seq<char> {
    if n == 1 {
        singular
    } else {
        plural
    }
}

/// Finding lines, each followed by a newline.
pub open spec fn lines_block(fs: Seq<Seq<char>>) -> Seq<char>
    decreases fs.len(),
{
    if fs.len() == 0 {
        Seq::empty()
    } else {
        lines_block(fs.drop_last()) + fs.last() + "\n"@
    }
}

/// The findings report: one line per finding, then the totals.
pub open spec fn findings_report(findings: Seq<Seq<char>>, pkgs: nat, pages: nat) -> Seq<char> {
    lines_block(findings) + "\n"@ + decimal(findings.len()) + " "@ + noun(
        findings.len(),
        "finding"@,
        "findings"@,
    ) + " in "@ + decimal(pkgs) + " "@ + noun(pkgs, "package"@, "packages"@) + " ("@ + decimal(
        pages,
    ) + " "@ + noun(pages, "page"@, "pages"@) + " checked)\n"@
}

/// The clean summary.
pub open spec fn clean_summary(pkgs: nat, pages: nat) -> Seq<char> {
    if pkgs == 1 {
        "Checked "@ + decimal(pages) + " "@ + noun(pages, "page"@, "pages"@)
            + " \u{2014} no findings.\n"@
    } else {
        "Checked "@ + decimal(pkgs) + " package(s), "@ + decimal(pages) + " "@ + noun(
            pages,
            "page"@,
            "pages"@,
        ) + " total \u{2014} no findings.\n"@
    }
}

/// All finding lines of successful packages, in order.
pub open spec fn all_findings(rs: Seq<Result<PackageLint, WizardLintStageError>>) -> Seq<Seq<char>>
    decreases rs.len(),
{
    if rs.len() == 0 {
        Seq::empty()
    } else {
        all_findings(rs.drop_last()) + match rs.last() {
            Ok(p) => views(p.findings@),
            Err(_) => Seq::empty(),
        }
    }
}

/// Total pages of successful packages.
pub open spec fn all_pages(rs: Seq<Result<PackageLint, WizardLintStageError>>) -> nat
    decreases rs.len(),
{
    if rs.len() == 0 {
        0
    } else {
        all_pages(rs.drop_last()) + match rs.last() {
            Ok(p) => p.pages as nat,
            Err(_) => 0nat,
        }
    }
}

/// The stage failures, in order.
pub open spec fn all_errors(rs: Seq<Result<PackageLint, WizardLintStageError>>) -> Seq<WizardLintStageError>
    decreases rs.len(),
{
    if rs.len() == 0 {
        Seq::empty()
    } else {
        all_errors(rs.drop_last()) + match rs.last() {
            Ok(_) => Seq::empty(),
            Err(e) => seq![e],
        }
    }
}

fn noun_exec(n: usize, singular: &'static str, plural: &'static str) -> (r: &'static str)
    ensures
        r@ == noun(n as nat, singular@, plural@),
{
    if n == 1 {
        singular
    } else {
        plural
    }
}

/// Report of the findings.
pub fn format_findings(findings: &Vec<String>, pkg_count: usize, page_count: usize) -> (r: String)
    ensures
        r@ == findings_report(views(findings@), pkg_count as nat, page_count as nat),
{
    let ghost fv = views(findings@);
    let mut out = String::new();
    let mut i: usize = 0;
    while i < findings.len()
        invariant
            fv == views(findings@),
            i <= findings.len(),
            out@ == lines_block(fv.subrange(0, i as int)),
        decreases findings.len() - i,
    {
        assert(fv.subrange(0, i + 1).drop_last() =~= fv.subrange(0, i as int));
        push_str(&mut out, findings[i].as_str());
        push_str(&mut out, "\n");
        i = i + 1;
    }
    assert(fv.subrange(0, findings.len() as int) =~= fv);
    push_str(&mut out, "\n");
    push_decimal(&mut out, findings.len() as u64);
    push_str(&mut out, " ");
    push_str(&mut out, noun_exec(findings.len(), "finding", "findings"));
    push_str(&mut out, " in ");
    push_decimal(&mut out, pkg_count as u64);
    push_str(&mut out, " ");
    push_str(&mut out, noun_exec(pkg_count, "package", "packages"));
    push_str(&mut out, " (");
    push_decimal(&mut out, page_count as u64);
    push_str(&mut out, " ");
    push_str(&mut out, noun_exec(page_count, "page", "pages"));
    push_str(&mut out, " checked)\n");
    out
}

/// Finish `wizard lint` from the result of linting each package (in argv
/// order): any stage failure, combined, fails the command; otherwise the
/// clean summary or the findings report.
pub fn finish_wizard_lint(results: Vec<Result<PackageLint, WizardLintStageError>>) -> (r: Result<
    WizardCmdResult,
    WizardCmdError,
>)
    requires
        results@.len() > 0,
        all_pages(results@) <= usize::MAX,
    ensures
        all_errors(results@).len() > 0 ==> (r matches Err(WizardCmdError::Stage(e)) && (all_errors(
            results@,
        ).len() == 1 ==> e == all_errors(results@)[0]) && (all_errors(results@).len() > 1
            ==> combined_spec(
            all_errors(results@)[0],
            all_errors(results@).map_values(|e: WizardLintStageError| stage_message(e)),
            e,
        ))),
        all_errors(results@).len() == 0 && all_findings(results@).len() == 0 ==> (r matches Ok(
            WizardCmdResult::Clean(t),
        ) && t@ == clean_summary(results@.len(), all_pages(results@))),
        all_errors(results@).len() == 0 && all_findings(results@).len() > 0 ==> (r matches Ok(
            WizardCmdResult::Findings(t),
        ) && t@ == findings_report(all_findings(results@), results@.len(), all_pages(results@))),
{
    let n = results.len();
    let ghost rs = results@;
    let mut findings: Vec<String> = Vec::new();
    let mut errors: Vec<WizardLintStageError> = Vec::new();
    let mut pages: usize = 0;
    let mut rest = results;
    let mut i: usize = 0;
    assert(rs.subrange(0, 0) =~= Seq::<Result<PackageLint, WizardLintStageError>>::empty());
    assert(views(findings@) =~= Seq::<Seq<char>>::empty());
    while rest.len() > 0
        invariant
            n == rs.len(),
            i + rest@.len() == n,
            rest@ == rs.subrange(i as int, n as int),
            all_pages(rs) <= usize::MAX,
            views(findings@) == all_findings(rs.subrange(0, i as int)),
            errors@ == all_errors(rs.subrange(0, i as int)),
            pages == all_pages(rs.subrange(0, i as int)),
        decreases rest@.len(),
    {
        let item = rest.remove(0);
        let ghost pre = rs.subrange(0, i as int);
        assert(rs.subrange(0, i + 1).drop_last() =~= pre);
        assert(rs.subrange(0, i + 1).last() == item);
        proof {
            lemma_pages_prefix(rs, (i + 1) as nat);
        }
        match item {
            Ok(p) => {
                let mut j: usize = 0;
                let ghost before = views(findings@);
                while j < p.findings.len()
                    invariant
                        j <= p.findings.len(),
                        views(findings@) == before + views(p.findings@).subrange(0, j as int),
                    decreases p.findings.len() - j,
                {
                    push_string(&mut findings, copy_string(&p.findings[j]));
                    assert(views(p.findings@).subrange(0, j + 1) =~= views(p.findings@).subrange(
                        0,
                        j as int,
                    ).push(p.findings@[j as int]@));
                    j = j + 1;
                }
                assert(views(p.findings@).subrange(0, p.findings.len() as int) =~= views(
                    p.findings@,
                ));
                pages = pages + p.pages;
                let ghost eb = errors@;
                assert(errors@ =~= eb + Seq::<WizardLintStageError>::empty());
            },
            Err(e) => {
                let ghost fb = views(findings@);
                assert(fb =~= fb + Seq::<Seq<char>>::empty());
                let ghost eb = errors@;
                errors.push(e);
                assert(errors@ =~= eb + seq![e]);
            },
        }
        i = i + 1;
        assert(rest@ =~= rs.subrange(i as int, n as int));
    }
    assert(rs.subrange(0, n as int) =~= rs);
    if errors.len() > 0 {
        return Err(WizardCmdError::Stage(combine_stage_errors(errors)));
    }
    if findings.len() == 0 {
        let noun_text = noun_exec(pages, "page", "pages");
        let mut t = owned("Checked ");
        if n == 1 {
            push_decimal(&mut t, pages as u64);
            push_str(&mut t, " ");
            push_str(&mut t, noun_text);
            push_str(&mut t, " \u{2014} no findings.\n");
        } else {
            push_decimal(&mut t, n as u64);
            push_str(&mut t, " package(s), ");
            push_decimal(&mut t, pages as u64);
            push_str(&mut t, " ");
            push_str(&mut t, noun_text);
            push_str(&mut t, " total \u{2014} no findings.\n");
        }
        return Ok(WizardCmdResult::Clean(t));
    }
    Ok(WizardCmdResult::Findings(format_findings(&findings, n, pages)))
}

proof fn lemma_pages_prefix(rs: Seq<Result<PackageLint, WizardLintStageError>>, k: nat)
    requires
        k <= rs.len(),
    ensures
        all_pages(rs.subrange(0, k as int)) <= all_pages(rs),
    decreases rs.len(),
{
    if k < rs.len() {
        assert(rs.drop_last().subrange(0, k as int) =~= rs.subrange(0, k as int));
        lemma_pages_prefix(rs.drop_last(), k);
    } else {
        assert(rs.subrange(0, k as int) =~= rs);
    }
}

/// Documentation pointer of `wizard lint` failures.
pub open spec fn lint_docs() -> Seq<char> {
    "skills/creating-wyvern-wizard/references/core/validation-and-lint.md"@
}

/// Envelope of a `wizard lint` stage failure.
pub open spec fn lint_stage_envelope(e: WizardLintStageError) -> EnvelopeView {
    match e {
        WizardLintStageError::Io { path, message } => EnvelopeView {
            code: ErrorCode::IoError,
            message: message@,
            field: None,
            subcode: Some("wizard_lint_io"@),
            cause: "wyvern wizard lint could not read '"@ + path@ + "'"@,
            recovery: seq![
                "Verify the path contains wizard.json and all referenced pages exist"@,
                "Run `wyvern wizard lint --help` for usage"@,
            ],
            docs: lint_docs(),
        },
        WizardLintStageError::Parse { path, message } => EnvelopeView {
            code: ErrorCode::ParseError,
            message: message@,
            field: None,
            subcode: Some("wizard_lint_parse"@),
            cause: "wizard.json at '"@ + path@ + "' is not valid JSON"@,
            recovery: seq![
                "Ensure wizard.json is valid JSON"@,
                "Check for trailing commas, unquoted keys, or truncated input"@,
                "Run `wyvern wizard lint --help` for usage"@,
            ],
            docs: lint_docs(),
        },
        WizardLintStageError::Validation { path, field, message } => EnvelopeView {
            code: ErrorCode::ValidationError,
            message: message@,
            field: Some(field@),
            subcode: Some("wizard_lint_validation"@),
            cause: "wizard.json at '"@ + path@ + "' failed field checks on '"@ + field@ + "'"@,
            recovery: seq![
                "Fix field '"@ + field@ + "' to a non-empty string"@,
                "page.id and page.html must be non-empty"@,
                "Run `wyvern wizard lint --help` for usage"@,
            ],
            docs: lint_docs(),
        },
    }
}

/// Serialize a `wizard lint` stage failure as stderr JSON.
pub fn emit_wizard_lint_stage_error(err: &WizardLintStageError) -> (r: Result<String, EmitError>)
    ensures
        r matches Ok(t) && t@ == envelope_text(lint_stage_envelope(*err)),
{
    let docs = owned("skills/creating-wyvern-wizard/references/core/validation-and-lint.md");
    let e = match err {
        WizardLintStageError::Io { path, message } => StderrEnvelope {
            code: ErrorCode::IoError,
            message: copy_string(message),
            field: None,
            subcode: Some(owned(err.subcode())),
            cause: concat3("wyvern wizard lint could not read '", path.as_str(), "'"),
            recovery: list2(
                "Verify the path contains wizard.json and all referenced pages exist",
                "Run `wyvern wizard lint --help` for usage",
            ),
            docs,
        },
        WizardLintStageError::Parse { path, message } => StderrEnvelope {
            code: ErrorCode::ParseError,
            message: copy_string(message),
            field: None,
            subcode: Some(owned(err.subcode())),
            cause: concat3("wizard.json at '", path.as_str(), "' is not valid JSON"),
            recovery: list3(
                "Ensure wizard.json is valid JSON",
                "Check for trailing commas, unquoted keys, or truncated input",
                "Run `wyvern wizard lint --help` for usage",
            ),
            docs,
        },
        WizardLintStageError::Validation { path, field, message } => {
            let mut cause = concat3("wizard.json at '", path.as_str(), "' failed field checks on '");
            push_str(&mut cause, field.as_str());
            push_str(&mut cause, "'");
            let mut rec: Vec<String> = Vec::new();
            push_string(&mut rec, concat3("Fix field '", field.as_str(), "' to a non-empty string"));
            push_owned(&mut rec, "page.id and page.html must be non-empty");
            push_owned(&mut rec, "Run `wyvern wizard lint --help` for usage");
            assert(views(rec@) =~= lint_stage_envelope(*err).recovery);
            StderrEnvelope {
                code: ErrorCode::ValidationError,
                message: copy_string(message),
                field: Some(copy_string(field)),
                subcode: Some(owned(err.subcode())),
                cause,
                recovery: rec,
                docs,
            }
        },
    };
    envelope_to_json(&e)
}

} // verus!
