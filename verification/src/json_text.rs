//! JSON text read by the CLI: command input, `command_from_file` contents,
//! `wizard.json` files. serde_json parses the text; what the library does
//! with the value or the parser's message is stated here.

use vstd::prelude::*;
use crate::catalog::CommandFileType;
use crate::cli::{usage_message, usage_text, InputSource};
use crate::errors::{ExtensionError, LoadError, UsageErrorKind};
use crate::json::{key_index_from, lookup, member_index_from, members_view, JsonValue, JsonView};
use crate::registry::opt_view;
use crate::text::{concat2, concat3, trim_spec, trim_string};
use crate::wizard::WizardLintStageError;
use crate::wizard_paths::wizard_json_parse_error;

verus! {

#[verifier::external_type_specification]
#[verifier::external_body]
pub struct ExSerdeJsonValue(serde_json::Value);

/// What serde_json makes of JSON text: the value, or its error message.
pub uninterp spec fn json_text_value(text: Seq<char>) -> Result<JsonView, Seq<char>>;

/// Converts a serde_json value into the library's model one for one: each
/// variant to the same variant, numbers as serde_json displays them, array
/// items and object members (in the map's order) converted likewise. Nothing
/// is promised of the result here; [`parse_json_text`] names it.
#[verifier::external_body]
fn json_from_serde(v: &serde_json::Value) -> JsonValue {
    match v {
        serde_json::Value::Null => JsonValue::Null,
        serde_json::Value::Bool(b) => JsonValue::Bool(*b),
        serde_json::Value::Number(n) => JsonValue::Number(n.to_string()),
        serde_json::Value::String(s) => JsonValue::Str(s.clone()),
        serde_json::Value::Array(items) => JsonValue::Array(items.iter().map(json_from_serde).collect()),
        serde_json::Value::Object(map) => JsonValue::Object(
            map.iter().map(|(k, v)| (k.clone(), json_from_serde(v))).collect(),
        ),
    }
}

/// Calls `serde_json::from_str::<serde_json::Value>` on `text` and converts
/// the value, or the error to its message. The result is named by
/// [`json_text_value`], a function of the text alone.
#[verifier::external_body]
pub(crate) fn parse_json_text(text: &str) -> (r: Result<JsonValue, String>)
    ensures
        match r {
            Ok(v) => json_text_value(text@) == Ok::<JsonView, Seq<char>>(v@),
            Err(e) => json_text_value(text@) == Err::<JsonView, Seq<char>>(e@),
        },
{
    serde_json::from_str::<serde_json::Value>(text).map(|v| json_from_serde(&v)).map_err(|e| e.to_string())
}

/// The member `k` of an object view.
pub open spec fn view_get(v: JsonView, k: Seq<char>) -> Option<JsonView> {
    match v {
        JsonView::Object(ms) => lookup(ms, k),
        _ => None,
    }
}

/// The string member `k` of an object view.
pub open spec fn view_get_str(v: JsonView, k: Seq<char>) -> Option<Seq<char>> {
    match view_get(v, k) {
        Some(JsonView::Str(s)) => Some(s),
        _ => None,
    }
}

proof fn lemma_member_index(ms: Seq<(String, JsonValue)>, k: Seq<char>, i: int)
    ensures
        member_index_from(ms, k, i) == key_index_from(members_view(ms), k, i),
    decreases ms.len() - i,
{
    if 0 <= i < ms.len() {
        lemma_member_index(ms, k, i + 1);
    }
}

proof fn lemma_member_index_bounds(ms: Seq<(String, JsonValue)>, k: Seq<char>, i: int)
    ensures
        member_index_from(ms, k, i) matches Some(j) ==> 0 <= j < ms.len() && j >= i,
    decreases ms.len() - i,
{
    if 0 <= i < ms.len() {
        lemma_member_index_bounds(ms, k, i + 1);
    }
}

/// Looking a member up on a value and on its view agree.
pub(crate) proof fn lemma_get_view(x: JsonValue, k: Seq<char>)
    ensures
        match x.spec_get(k) {
            Some(y) => view_get(x@, k) == Some(y@),
            None => view_get(x@, k) is None,
        },
        x.spec_get_str(k) == view_get_str(x@, k),
{
    if let JsonValue::Object(ms) = x {
        crate::json::lemma_object_view(ms);
        lemma_member_index(ms@, k, 0);
        if let Some(i) = member_index_from(ms@, k, 0) {
            lemma_member_index_bounds(ms@, k, 0);
            assert(members_view(ms@)[i].1 == ms@[i].1@);
            match ms@[i].1 {
                JsonValue::Str(s) => {},
                _ => {},
            }
        }
    }
}

/// The command of CLI input: stdin text that is only whitespace is the
/// generic usage failure; otherwise the JSON value of `text` (what was read
/// for `source`: the argument itself when inline), or a parse failure with
/// the parser's message.
pub fn load_command_text(source: &InputSource, text: &str) -> (r: Result<JsonValue, LoadError>)
    ensures
        if *source is Stdin && trim_spec(text@).len() == 0 {
            r matches Err(LoadError::Usage { kind: UsageErrorKind::Generic, message }) && message@
                == usage_text()
        } else {
            match json_text_value(text@) {
                Ok(v) => r matches Ok(x) && x@ == v,
                Err(m) => r matches Err(LoadError::Parse { message }) && message@ == m,
            }
        },
{
    if let InputSource::Stdin = source {
        let t = trim_string(text);
        if t.unicode_len() == 0 {
            return Err(LoadError::Usage { kind: UsageErrorKind::Generic, message: usage_message() });
        }
    }
    match parse_json_text(text) {
        Ok(v) => Ok(v),
        Err(message) => Err(LoadError::Parse { message }),
    }
}

/// What the catalog learns from the text of a static `command_from_file`:
/// its string `type` member (if any) when the text is JSON, else that the
/// file is unreadable.
pub fn command_type_from_text(text: &str) -> (r: CommandFileType)
    ensures
        match json_text_value(text@) {
            Ok(v) => r matches CommandFileType::Found(t) && opt_view(t) == view_get_str(v, "type"@),
            Err(_) => r is Unreadable,
        },
{
    match parse_json_text(text) {
        Ok(v) => {
            proof {
                lemma_get_view(v, "type"@);
            }
            match v.get_str("type") {
                Some(t) => CommandFileType::Found(Some(crate::text::copy_string(t))),
                None => CommandFileType::Found(None),
            }
        },
        Err(_) => CommandFileType::Unreadable,
    }
}

/// The command in the text of the `command_from_file` file at `path`, or
/// the I/O failure when it is not JSON.
pub fn command_file_value(path: &str, text: &str) -> (r: Result<JsonValue, ExtensionError>)
    ensures
        match json_text_value(text@) {
            Ok(v) => r matches Ok(x) && x@ == v,
            Err(m) => r matches Err(ExtensionError::Io { message }) && message@
                == "command_from_file '"@ + path@ + "' is not JSON: "@ + m,
        },
{
    match parse_json_text(text) {
        Ok(v) => Ok(v),
        Err(m) => Err(crate::expand::command_file_json_error(path, m.as_str())),
    }
}

/// The parsed `wizard.json` at `path`, or the parse failure.
pub fn wizard_json_value(path: &str, text: &str) -> (r: Result<JsonValue, WizardLintStageError>)
    ensures
        match json_text_value(text@) {
            Ok(v) => r matches Ok(x) && x@ == v,
            Err(m) => r matches Err(WizardLintStageError::Parse { path: p, message }) && p@ == path@
                && message@ == "error: '"@ + path@ + "': invalid JSON: "@ + m,
        },
{
    match parse_json_text(text) {
        Ok(v) => Ok(v),
        Err(m) => Err(wizard_json_parse_error(path, m.as_str())),
    }
}

} // verus!
