//! Paths of a wizard package for `wyvern wizard lint`: where `wizard.json`
//! and the package directory are, from what the file system shows of the
//! argument, and the lexical `..` folding applied to script paths.

use vstd::prelude::*;
use crate::allowlist::{components_of, path_components};
use crate::catalog::{path_pushed, push_path};
use crate::expand::{parent_of, path_parent, path_strip_prefix, slashes, slashes_exec, strip_path_prefix};
use crate::json::JsonValue;
use crate::registry::opt_view;
use crate::text::{concat3, copy_string, owned, str_eq, views};
use crate::wizard::WizardLintStageError;

verus! {

/// `wizard.json` and the package directory for the argument `input`, or
/// the path and message of the failure. `is_dir` and `is_file` say what
/// `input` is; `has_wizard_json` whether `input/wizard.json` is a file.
pub open spec fn wizard_paths_spec(
    input: Seq<char>,
    is_dir: bool,
    has_wizard_json: bool,
    is_file: bool,
) -> Result<(Seq<char>, Seq<char>), (Seq<char>, Seq<char>)> {
    if is_dir {
        let json = path_pushed(input, "wizard.json"@);
        if has_wizard_json {
            Ok((json, input))
        } else {
            Err((json, "error: '"@ + input + "' is a directory but contains no wizard.json"@))
        }
    } else if is_file {
        Ok((
            input,
            match path_parent(input) {
                Some(p) => p,
                None => "."@,
            },
        ))
    } else {
        Err((input, "error: '"@ + input + "' not found (expected directory or wizard.json path)"@))
    }
}

/// Locate `wizard.json` and the package directory for a lint argument.
pub fn resolve_wizard_paths(input: &str, is_dir: bool, has_wizard_json: bool, is_file: bool) -> (r:
    Result<(String, String), WizardLintStageError>)
    ensures
        match wizard_paths_spec(input@, is_dir, has_wizard_json, is_file) {
            Ok((json, dir)) => r matches Ok((j, d)) && j@ == json && d@ == dir,
            Err((p, m)) => r matches Err(WizardLintStageError::Io { path, message }) && path@ == p
                && message@ == m,
        },
{
    if is_dir {
        let json = push_path(input, "wizard.json");
        if has_wizard_json {
            Ok((json, owned(input)))
        } else {
            let message = concat3("error: '", input, "' is a directory but contains no wizard.json");
            Err(WizardLintStageError::Io { path: json, message })
        }
    } else if is_file {
        let dir = match parent_of(input) {
            Some(p) => p,
            None => owned("."),
        };
        Ok((owned(input), dir))
    } else {
        let message = concat3(
            "error: '",
            input,
            "' not found (expected directory or wizard.json path)",
        );
        Err(WizardLintStageError::Io { path: owned(input), message })
    }
}

/// A path component that names a file or directory (not the root, `.` or `..`).
pub open spec fn is_name_component(c: Seq<char>) -> bool {
    c != "/"@ && c != "."@ && c != ".."@
}

/// Components with each `..` folded into the name before it; a `..` with
/// no name before it is kept.
pub open spec fn fold_parent_dirs(cs: Seq<Seq<char>>) -> Seq<Seq<char>>
    decreases cs.len(),
{
    if cs.len() == 0 {
        Seq::empty()
    } else {
        let acc = fold_parent_dirs(cs.drop_last());
        let c = cs.last();
        if c == ".."@ && acc.len() > 0 && is_name_component(acc.last()) {
            acc.drop_last()
        } else {
            acc.push(c)
        }
    }
}

/// The path built by pushing each component in turn onto an empty path.
pub open spec fn joined_components(cs: Seq<Seq<char>>) -> Seq<char>
    decreases cs.len(),
{
    if cs.len() == 0 {
        Seq::empty()
    } else {
        path_pushed(joined_components(cs.drop_last()), cs.last())
    }
}

fn fold_exec(cs: &Vec<String>) -> (r: Vec<String>)
    ensures
        views(r@) == fold_parent_dirs(views(cs@)),
{
    let ghost v = views(cs@);
    let mut out: Vec<String> = Vec::new();
    let mut i: usize = 0;
    while i < cs.len()
        invariant
            v == views(cs@),
            i <= cs.len(),
            views(out@) == fold_parent_dirs(v.subrange(0, i as int)),
        decreases cs.len() - i,
    {
        let ghost before = views(out@);
        assert(v.subrange(0, i + 1).drop_last() =~= v.subrange(0, i as int));
        assert(v.subrange(0, i + 1).last() == cs@[i as int]@);
        let c = cs[i].as_str();
        let folds = if str_eq(c, "..") && out.len() > 0 {
            let last = out[out.len() - 1].as_str();
            !str_eq(last, "/") && !str_eq(last, ".") && !str_eq(last, "..")
        } else {
            false
        };
        if folds {
            out.pop();
            assert(views(out@) =~= before.drop_last());
        } else {
            out.push(copy_string(&cs[i]));
            assert(views(out@) =~= before.push(c@));
        }
        i = i + 1;
    }
    assert(v.subrange(0, cs.len() as int) =~= v);
    out
}

/// `path` with `..` folded lexically into the name before it, rebuilt from
/// its components.
pub fn normalize_path(path: &str) -> (r: String)
    ensures
        r@ == joined_components(fold_parent_dirs(path_components(path@))),
{
    let folded = fold_exec(&components_of(path));
    let ghost fv = views(folded@);
    let mut out = String::new();
    let mut i: usize = 0;
    assert(fv.subrange(0, 0) =~= Seq::<Seq<char>>::empty());
    while i < folded.len()
        invariant
            fv == views(folded@),
            i <= folded.len(),
            out@ == joined_components(fv.subrange(0, i as int)),
        decreases folded.len() - i,
    {
        assert(fv.subrange(0, i + 1).drop_last() =~= fv.subrange(0, i as int));
        out = push_path(out.as_str(), folded[i].as_str());
        i = i + 1;
    }
    assert(fv.subrange(0, folded.len() as int) =~= fv);
    out
}

/// `path` with `..` folded and rebuilt, as [`normalize_path`] computes it.
pub open spec fn normalized(path: Seq<char>) -> Seq<char> {
    joined_components(fold_parent_dirs(path_components(path)))
}

/// Where a page in `html_dir` finds the local script `src`: the joined path,
/// normalized.
pub fn script_path(html_dir: &str, src: &str) -> (r: String)
    ensures
        r@ == normalized(path_pushed(html_dir@, src@)),
{
    normalize_path(push_path(html_dir, src).as_str())
}

/// `path` relative to the package directory `wizard_dir`, with `/`
/// separators; `None` when it lies outside the package.
pub fn package_rel_path(wizard_dir: &str, path: &str) -> (r: Option<String>)
    ensures
        opt_view(r) == match path_strip_prefix(path@, wizard_dir@) {
            Some(rel) => Some(slashes(rel)),
            None => None,
        },
{
    match strip_path_prefix(path, wizard_dir) {
        Some(rel) => Some(slashes_exec(rel.as_str())),
        None => None,
    }
}

/// `wizard.json` declares a `workflow.post` hook: a non-empty string.
pub open spec fn has_workflow_post(doc: JsonValue) -> bool {
    match doc.spec_get("workflow"@) {
        Some(w) => match w.spec_get_str("post"@) {
            Some(p) => p.len() > 0,
            None => false,
        },
        None => false,
    }
}

/// Whether the parsed `wizard.json` declares a `workflow.post` hook.
pub fn wizard_json_has_workflow_post(doc: &JsonValue) -> (r: bool)
    ensures
        r == has_workflow_post(*doc),
{
    match doc.get("workflow") {
        Some(w) => match w.get_str("post") {
            Some(p) => p.unicode_len() > 0,
            None => false,
        },
        None => false,
    }
}

/// The failure when `wizard.json` at `path` is not JSON (`detail` is the
/// parser's message).
pub fn wizard_json_parse_error(path: &str, detail: &str) -> (r: WizardLintStageError)
    ensures
        r matches WizardLintStageError::Parse { path: p, message } && p@ == path@ && message@
            == "error: '"@ + path@ + "': invalid JSON: "@ + detail@,
{
    let head = concat3("error: '", path, "': invalid JSON: ");
    WizardLintStageError::Parse { path: owned(path), message: crate::text::concat2(head.as_str(), detail) }
}

/// The `page` object of a parsed `wizard.json` at `path`, or the failure
/// naming the missing field.
pub fn wizard_json_page<'a>(doc: &'a JsonValue, path: &str) -> (r: Result<&'a JsonValue, WizardLintStageError>)
    ensures
        match doc.spec_get("page"@) {
            Some(page) => r matches Ok(p) && *p == page,
            None => r matches Err(WizardLintStageError::Validation { path: p, field, message })
                && p@ == path@ && field@ == "page"@ && message@ == "error: '"@ + path@
                + "': missing 'page' field in wizard.json"@,
        },
{
    match doc.get("page") {
        Some(page) => Ok(page),
        None => {
            let message = concat3("error: '", path, "': missing 'page' field in wizard.json");
            Err(WizardLintStageError::Validation { path: owned(path), field: owned("page"), message })
        },
    }
}

/// The string `page.<field>` of a `wizard.json` at `path`, or the failure
/// when it is absent or not a string.
pub fn page_string_field(page: &JsonValue, path: &str, field: &str) -> (r: Result<String, WizardLintStageError>)
    ensures
        match page.spec_get_str(field@) {
            Some(v) => r matches Ok(s) && s@ == v,
            None => r matches Err(WizardLintStageError::Validation { path: p, field: f, message })
                && p@ == path@ && f@ == "page."@ + field@ && message@ == "error: '"@ + path@
                + "': wizard.json page."@ + field@ + " must be a string"@,
        },
{
    match page.get_str(field) {
        Some(v) => Ok(copy_string(v)),
        None => {
            let mut message = concat3("error: '", path, "': wizard.json page.");
            crate::text::push_str(&mut message, field);
            crate::text::push_str(&mut message, " must be a string");
            Err(WizardLintStageError::Validation {
                path: owned(path),
                field: crate::text::concat2("page.", field),
                message,
            })
        },
    }
}

/// The failure when the value of `page.<field>` is refused by its page type
/// (`detail` says why).
pub fn page_field_error(path: &str, field: &str, detail: &str) -> (r: WizardLintStageError)
    ensures
        r matches WizardLintStageError::Validation { path: p, field: f, message } && p@ == path@
            && f@ == "page."@ + field@ && message@ == "error: '"@ + path@ + "': wizard.json page."@
            + field@ + ": "@ + detail@,
{
    let mut message = concat3("error: '", path, "': wizard.json page.");
    crate::text::push_str(&mut message, field);
    crate::text::push_str(&mut message, ": ");
    crate::text::push_str(&mut message, detail);
    WizardLintStageError::Validation { path: owned(path), field: crate::text::concat2("page.", field), message }
}

} // verus!
