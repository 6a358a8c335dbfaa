//! The `next_wizard` hop named by a wizard's finish JSON: reading the hop
//! off the finish value, loading the next `wizard.json` text, and the
//! invocation that the CLI runs next.

use vstd::prelude::*;
use crate::allowlist::{resolve_from, tries_spec, Allowlist};
use crate::errors::LoadError;
use crate::json::{JsonValue, JsonView};
use crate::json_text::{json_text_value, lemma_get_view, parse_json_text, view_get};
use crate::registry::{copy_json, opt_view};
use crate::share_resolve::{first_marked, infer_wizard_root};
use crate::text::{concat2, copy_string, owned, views};
use crate::workflow::WorkflowError;

verus! {

/// The `next_wizard` object of finish JSON, typed.
#[derive(Debug)]
pub struct NextWizardSpec {
    /// Path of the next `wizard.json` (may hold `{wyvern_share}`).
    pub path: String,
    /// UI root for the next session, when given.
    pub ui_root: Option<String>,
    /// Value deep-merged into the next wizard's `config`.
    pub input: JsonValue,
}

/// Next hop loaded from `next_wizard.path`.
#[derive(Debug)]
pub struct NextInvocation {
    /// Loaded wizard command JSON.
    pub command: JsonValue,
    /// UI root for the next host session.
    pub ui_root: String,
    /// Directory of the next `wizard.json`.
    pub wizard_dir: String,
    /// `next_wizard.input` deep-merged into the next wizard `config`.
    pub input: JsonValue,
}

/// The hop of finish JSON: no hop when `next_wizard` is absent or null;
/// otherwise its `path`, `ui_root` (absent or null: none) and `input`
/// (absent: null), or why the object is not a valid hop.
pub open spec fn next_hop_spec(finish: JsonView) -> Result<
    Option<(Seq<char>, Option<Seq<char>>, JsonView)>,
    Seq<char>,
> {
    match view_get(finish, "next_wizard"@) {
        None => Ok(None),
        Some(JsonView::Null) => Ok(None),
        Some(JsonView::Object(ms)) => {
            let nw = JsonView::Object(ms);
            let input = match view_get(nw, "input"@) {
                Some(v) => v,
                None => JsonView::Null,
            };
            match view_get(nw, "path"@) {
                None => Err("next_wizard is invalid: missing field `path`"@),
                Some(JsonView::Str(p)) => match view_get(nw, "ui_root"@) {
                    None => Ok(Some((p, None, input))),
                    Some(JsonView::Null) => Ok(Some((p, None, input))),
                    Some(JsonView::Str(u)) => Ok(Some((p, Some(u), input))),
                    Some(_) => Err("next_wizard is invalid: `ui_root` must be a string"@),
                },
                Some(_) => Err("next_wizard is invalid: `path` must be a string"@),
            }
        },
        Some(_) => Err("next_wizard is invalid: expected an object"@),
    }
}

/// The hop named by `finish`, if any. A `next_wizard` that is not a valid
/// hop is a resolution failure with an empty path. The shape checks are
/// this library's: an object with a string `path`, an optional string or
/// null `ui_root`, and any `input`; other members are ignored.
pub fn next_wizard_of(finish: &JsonValue) -> (r: Result<Option<NextWizardSpec>, WorkflowError>)
    ensures
        match next_hop_spec(finish@) {
            Ok(None) => r matches Ok(None),
            Ok(Some((p, u, i))) => r matches Ok(Some(s)) && s.path@ == p && opt_view(s.ui_root) == u
                && s.input@ == i,
            Err(c) => r matches Err(WorkflowError::Resolve { path, cause }) && path@ == ""@ && cause@
                == c,
        },
{
    proof {
        lemma_get_view(*finish, "next_wizard"@);
    }
    let next = match finish.get("next_wizard") {
        None => {
            return Ok(None);
        },
        Some(n) => n,
    };
    match next {
        JsonValue::Null => {
            return Ok(None);
        },
        JsonValue::Object(_) => {},
        _ => {
            return Err(hop_invalid("next_wizard is invalid: expected an object"));
        },
    }
    proof {
        lemma_get_view(*next, "path"@);
        lemma_get_view(*next, "ui_root"@);
        lemma_get_view(*next, "input"@);
    }
    let input = match next.get("input") {
        Some(v) => copy_json(v),
        None => JsonValue::Null,
    };
    let path = match next.get("path") {
        None => {
            return Err(hop_invalid("next_wizard is invalid: missing field `path`"));
        },
        Some(JsonValue::Str(p)) => copy_string(p),
        Some(_) => {
            return Err(hop_invalid("next_wizard is invalid: `path` must be a string"));
        },
    };
    let ui_root = match next.get("ui_root") {
        None => None,
        Some(JsonValue::Null) => None,
        Some(JsonValue::Str(u)) => Some(copy_string(u)),
        Some(_) => {
            return Err(hop_invalid("next_wizard is invalid: `ui_root` must be a string"));
        },
    };
    Ok(Some(NextWizardSpec { path, ui_root, input }))
}

fn hop_invalid(cause: &str) -> (r: WorkflowError)
    ensures
        r matches WorkflowError::Resolve { path, cause: c } && path@ == ""@ && c@ == cause@,
{
    let path = owned("");
    proof {
        reveal_strlit("");
    }
    WorkflowError::Resolve { path, cause: owned(cause) }
}

/// Message carried by a load failure.
pub open spec fn load_error_message(e: LoadError) -> Seq<char> {
    match e {
        LoadError::Parse { message } => message@,
        LoadError::Io { message, .. } => message@,
        LoadError::Usage { message, .. } => message@,
    }
}

/// The next wizard's command from what reading its `wizard.json` gave: the
/// JSON value, or the cause of the failure (the read's message, or the
/// parser's behind `wizard.json is not JSON: `).
pub open spec fn next_command_spec(text: Result<String, LoadError>) -> Result<JsonView, Seq<char>> {
    match text {
        Err(e) => Err(load_error_message(e)),
        Ok(t) => match json_text_value(t@) {
            Ok(v) => Ok(v),
            Err(m) => Err("wizard.json is not JSON: "@ + m),
        },
    }
}

/// The command in the next `wizard.json`, given what reading it gave; a
/// failure names the hop's `path`.
pub fn next_wizard_command(path: &str, text: Result<String, LoadError>) -> (r: Result<
    JsonValue,
    WorkflowError,
>)
    ensures
        match next_command_spec(text) {
            Ok(v) => r matches Ok(x) && x@ == v,
            Err(c) => r matches Err(WorkflowError::Resolve { path: p, cause }) && p@ == path@
                && cause@ == c,
        },
{
    let t = match text {
        Err(LoadError::Parse { message }) => {
            return Err(WorkflowError::Resolve { path: owned(path), cause: message });
        },
        Err(LoadError::Io { message, .. }) => {
            return Err(WorkflowError::Resolve { path: owned(path), cause: message });
        },
        Err(LoadError::Usage { message, .. }) => {
            return Err(WorkflowError::Resolve { path: owned(path), cause: message });
        },
        Ok(t) => t,
    };
    match parse_json_text(t.as_str()) {
        Ok(v) => Ok(v),
        Err(m) => Err(
            WorkflowError::Resolve {
                path: owned(path),
                cause: concat2("wizard.json is not JSON: ", m.as_str()),
            },
        ),
    }
}

/// The invocation of a `next_wizard` hop. `text` is what reading the
/// resolved `wizard.json` gave; `wizard_start` is that file's directory,
/// `ancestors` it and its parents in order, and `is_root[k]` whether
/// `ancestors[k]` holds `wizard.json` or `pages/` (the wizard directory is
/// the first such, else `wizard_start`). `canonical_roots` are the
/// allowlist's roots as the file system resolves them and `ui_canonical[i]`
/// the canonical form of the `i`-th try of the hop's `ui_root`. A read or
/// parse failure comes first; then the `ui_root` (when given) is resolved
/// through the allowlist, defaulting to the wizard directory.
pub fn resolve_next_wizard(
    allowlist: &Allowlist,
    next: NextWizardSpec,
    text: Result<String, LoadError>,
    wizard_start: &str,
    ancestors: &Vec<String>,
    is_root: &Vec<bool>,
    canonical_roots: &Vec<String>,
    ui_canonical: &Vec<Option<String>>,
) -> (r: Result<NextInvocation, WorkflowError>)
    requires
        ancestors.len() == is_root.len(),
        next.ui_root matches Some(u) ==> ui_canonical.len() == tries_spec(*allowlist, u@).len(),
    ensures
        match next_command_spec(text) {
            Err(c) => r matches Err(WorkflowError::Resolve { path, cause }) && path@ == next.path@
                && cause@ == c,
            Ok(cmd) => {
                let dir = match first_marked(is_root@, 0) {
                    Some(k) => ancestors@[k]@,
                    None => wizard_start@,
                };
                match next.ui_root {
                    None => r matches Ok(n) && n.command@ == cmd && n.wizard_dir@ == dir
                        && n.ui_root@ == dir && n.input@ == next.input@,
                    Some(u) => match resolve_from(
                        *allowlist,
                        u@,
                        views(canonical_roots@),
                        ui_canonical@.map_values(|o: Option<String>| opt_view(o)),
                        0,
                        false,
                    ) {
                        Ok(p) => r matches Ok(n) && n.command@ == cmd && n.wizard_dir@ == dir
                            && n.ui_root@ == p && n.input@ == next.input@,
                        Err((true, e)) => r matches Err(WorkflowError::PathDenied { path }) && path@
                            == e,
                        Err((false, c)) => r matches Err(WorkflowError::Resolve { path, cause })
                            && path@ == u@ && cause@ == c,
                    },
                }
            },
        },
{
    let command = match next_wizard_command(next.path.as_str(), text) {
        Ok(c) => c,
        Err(e) => {
            return Err(e);
        },
    };
    let wizard_dir = infer_wizard_root(wizard_start, ancestors, is_root);
    let ui_root = match &next.ui_root {
        Some(raw) => match allowlist.resolve_allowed(raw.as_str(), canonical_roots, ui_canonical) {
            Ok(p) => p,
            Err(e) => {
                return Err(e);
            },
        },
        None => copy_string(&wizard_dir),
    };
    Ok(NextInvocation { command, ui_root, wizard_dir, input: next.input })
}

} // verus!
