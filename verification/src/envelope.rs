//! The structured stderr error envelope and its JSON text.

use vstd::prelude::*;

use crate::errors::{code_family, code_name, EmitError, ErrorCode};
use crate::text::{copy_string, owned, push_str, views};

verus! {

/// Lower-case hexadecimal digit of `n` (for `n < 16`).
pub open spec fn hex_digit(n: int) -> char {
    if n < 10 {
        ((48 + n) as u32) as char
    } else {
        ((87 + n) as u32) as char
    }
}

/// How serde_json writes one character inside a JSON string: `"` and `\`
/// after a backslash; backspace, tab, line feed, form feed and carriage
/// return as `\b`, `\t`, `\n`, `\f`, `\r`; any other character below
/// U+0020 as `\u00` and two lower-case hex digits; every other character
/// as itself.
pub open spec fn json_escape(c: char) -> Seq<char> {
    let n = c as int;
    if c == '"' {
        seq!['\\', '"']
    } else if c == '\\' {
        seq!['\\', '\\']
    } else if n == 8 {
        seq!['\\', 'b']
    } else if n == 9 {
        seq!['\\', 't']
    } else if n == 10 {
        seq!['\\', 'n']
    } else if n == 12 {
        seq!['\\', 'f']
    } else if n == 13 {
        seq!['\\', 'r']
    } else if n < 32 {
        seq!['\\', 'u', '0', '0', hex_digit(n / 16), hex_digit(n % 16)]
    } else {
        seq![c]
    }
}

/// The characters of `s`, each escaped as [`json_escape`] says.
pub open spec fn json_escaped(s: Seq<char>) -> Seq<char>
    decreases s.len(),
{
    if s.len() == 0 {
        Seq::empty()
    } else {
        json_escaped(s.drop_last()) + json_escape(s.last())
    }
}

/// JSON text of a string value, as `serde_json::to_string` writes it: the
/// escaped characters between double quotes.
pub open spec fn json_quoted(s: Seq<char>) -> Seq<char> {
    seq!['"'] + json_escaped(s) + seq!['"']
}

/// Calls `serde_json::to_string` on `s`: the result is `Ok`, holding the
/// JSON string literal of `s` as [`json_quoted`] states it (serde_json's
/// `format_escaped_str` and its escape table). For a `str` serde_json writes the escaped
/// text into a `Vec<u8>`, and its only error path is that writer's I/O
/// error, which appending to a vector does not produce; the `Err` arm only
/// converts the error's type.
#[verifier::external_body]
fn quote_json(s: &str) -> (r: Result<String, String>)
    ensures
        r is Ok,
        r matches Ok(t) ==> t@ == json_quoted(s@),
{
    serde_json::to_string(s).map_err(|e| e.to_string())
}

/// Structured stderr error: machine code, message, optional field and
/// sub-code, cause, recovery steps and documentation pointer.
#[derive(Debug)]
pub struct StderrEnvelope {
    /// Machine error code.
    pub code: ErrorCode,
    /// Human-readable message.
    pub message: String,
    /// Offending field, when there is one.
    pub field: Option<String>,
    /// Finer-grained failure class, when there is one.
    pub subcode: Option<String>,
    /// Why it failed.
    pub cause: String,
    /// What to do about it, in order.
    pub recovery: Vec<String>,
    /// Documentation pointer.
    pub docs: String,
}

/// Mathematical form of a [`StderrEnvelope`].
pub struct EnvelopeView {
    pub code: ErrorCode,
    pub message: Seq<char>,
    pub field: Option<Seq<char>>,
    pub subcode: Option<Seq<char>>,
    pub cause: Seq<char>,
    pub recovery: Seq<Seq<char>>,
    pub docs: Seq<char>,
}

impl View for StderrEnvelope {
    type V = EnvelopeView;

    open spec fn view(&self) -> EnvelopeView {
        EnvelopeView {
            code: self.code,
            message: self.message@,
            field: match self.field {
                Some(f) => Some(f@),
                None => None,
            },
            subcode: match self.subcode {
                Some(s) => Some(s@),
                None => None,
            },
            cause: self.cause@,
            recovery: views(self.recovery@),
            docs: self.docs@,
        }
    }
}

/// An envelope without field or sub-code.
pub open spec fn plain_envelope(
    code: ErrorCode,
    message: Seq<char>,
    cause: Seq<char>,
    recovery: Seq<Seq<char>>,
    docs: Seq<char>,
) -> EnvelopeView {
    EnvelopeView { code, message, field: None, subcode: None, cause, recovery, docs }
}

/// JSON array text of quoted strings.
pub open spec fn quoted_list(items: Seq<Seq<char>>) -> Seq<char>
    decreases items.len(),
{
    if items.len() == 0 {
        Seq::empty()
    } else if items.len() == 1 {
        json_quoted(items[0])
    } else {
        quoted_list(items.drop_last()) + ","@ + json_quoted(items.last())
    }
}

/// Optional `"key":value` member, with its leading comma.
pub open spec fn opt_member(key: Seq<char>, value: Option<Seq<char>>) -> Seq<char> {
    match value {
        Some(v) => ","@ + json_quoted(key) + ":"@ + json_quoted(v),
        None => Seq::empty(),
    }
}

/// The JSON text of an envelope: `error` (family), `code`, `message`, then
/// `field` and `subcode` when present, `cause`, `recovery` and `docs`.
pub open spec fn envelope_text(e: EnvelopeView) -> Seq<char> {
    "{"@ + json_quoted("error"@) + ":"@ + json_quoted(code_family(e.code)) + ","@ + json_quoted(
        "code"@,
    ) + ":"@ + json_quoted(code_name(e.code)) + ","@ + json_quoted("message"@) + ":"@
        + json_quoted(e.message) + opt_member("field"@, e.field) + opt_member(
        "subcode"@,
        e.subcode,
    ) + ","@ + json_quoted("cause"@) + ":"@ + json_quoted(e.cause) + ","@ + json_quoted(
        "recovery"@,
    ) + ":["@ + quoted_list(e.recovery) + "],"@ + json_quoted("docs"@) + ":"@ + json_quoted(
        e.docs,
    ) + "}"@
}

fn push_quoted(out: &mut String, s: &str) -> (r: Result<(), EmitError>)
    ensures
        r is Ok,
        final(out)@ == old(out)@ + json_quoted(s@),
{
    match quote_json(s) {
        Ok(q) => {
            push_str(out, q.as_str());
            Ok(())
        },
        Err(message) => Err(EmitError::Serialize { message }),
    }
}

fn push_member(out: &mut String, key: &str, value: &str) -> (r: Result<(), EmitError>)
    ensures
        r is Ok,
        final(out)@ == old(out)@ + json_quoted(key@) + ":"@ + json_quoted(value@),
{
    let ghost o = out@;
    push_quoted(out, key)?;
    push_str(out, ":");
    push_quoted(out, value)?;
    assert(out@ =~= o + json_quoted(key@) + ":"@ + json_quoted(value@));
    Ok(())
}

/// Serialize an envelope as one line of JSON.
pub fn envelope_to_json(e: &StderrEnvelope) -> (r: Result<String, EmitError>)
    ensures
        r matches Ok(t) && t@ == envelope_text(e@),
{
    let ghost ev = e@;
    let mut out = owned("{");
    push_member(&mut out, "error", e.code.family())?;
    push_str(&mut out, ",");
    push_member(&mut out, "code", e.code.name())?;
    push_str(&mut out, ",");
    push_member(&mut out, "message", e.message.as_str())?;
    let ghost before_opt = out@;
    if let Some(f) = &e.field {
        push_str(&mut out, ",");
        push_member(&mut out, "field", f.as_str())?;
    }
    assert(out@ =~= before_opt + opt_member("field"@, ev.field));
    let ghost before_sub = out@;
    if let Some(s) = &e.subcode {
        push_str(&mut out, ",");
        push_member(&mut out, "subcode", s.as_str())?;
    }
    assert(out@ =~= before_sub + opt_member("subcode"@, ev.subcode));
    push_str(&mut out, ",");
    push_member(&mut out, "cause", e.cause.as_str())?;
    push_str(&mut out, ",");
    push_quoted(&mut out, "recovery")?;
    push_str(&mut out, ":[");
    let ghost before_list = out@;
    let ghost rv = views(e.recovery@);
    let mut i: usize = 0;
    while i < e.recovery.len()
        invariant
            rv == views(e.recovery@),
            i <= e.recovery.len(),
            out@ == before_list + quoted_list(rv.subrange(0, i as int)),
        decreases e.recovery.len() - i,
    {
        let ghost prev = out@;
        assert(rv.subrange(0, i + 1).drop_last() =~= rv.subrange(0, i as int));
        if i > 0 {
            push_str(&mut out, ",");
        } else {
            assert(quoted_list(rv.subrange(0, 0)) =~= Seq::<char>::empty());
        }
        push_quoted(&mut out, e.recovery[i].as_str())?;
        i = i + 1;
        assert(out@ =~= before_list + quoted_list(rv.subrange(0, i as int)));
    }
    assert(rv.subrange(0, e.recovery.len() as int) =~= rv);
    push_str(&mut out, "],");
    push_member(&mut out, "docs", e.docs.as_str())?;
    push_str(&mut out, "}");
    assert(out@ =~= envelope_text(ev));
    Ok(out)
}

/// Append an owned copy of `s` to a list of strings.
pub fn push_owned(v: &mut Vec<String>, s: &str)
    ensures
        views(final(v)@) == views(old(v)@).push(s@),
{
    let ghost before = views(v@);
    v.push(owned(s));
    assert(views(v@) =~= before.push(s@));
}

/// Append `s` to a list of strings.
pub fn push_string(v: &mut Vec<String>, s: String)
    ensures
        views(final(v)@) == views(old(v)@).push(s@),
{
    let ghost before = views(v@);
    let ghost sv = s@;
    v.push(s);
    assert(views(v@) =~= before.push(sv));
}

/// An envelope without field or sub-code.
pub fn new_envelope(
    code: ErrorCode,
    message: String,
    cause: String,
    recovery: Vec<String>,
    docs: &str,
) -> (r: StderrEnvelope)
    ensures
        r@ == plain_envelope(code, message@, cause@, views(recovery@), docs@),
{
    StderrEnvelope { code, message, field: None, subcode: None, cause, recovery, docs: owned(docs) }
}

/// A copy of an envelope.
pub fn copy_envelope(e: &StderrEnvelope) -> (r: StderrEnvelope)
    ensures
        r@ == e@,
{
    let mut recovery: Vec<String> = Vec::new();
    let mut i: usize = 0;
    while i < e.recovery.len()
        invariant
            i <= e.recovery.len(),
            views(recovery@) == views(e.recovery@).subrange(0, i as int),
        decreases e.recovery.len() - i,
    {
        push_string(&mut recovery, copy_string(&e.recovery[i]));
        assert(views(e.recovery@).subrange(0, i + 1) =~= views(e.recovery@).subrange(
            0,
            i as int,
        ).push(e.recovery@[i as int]@));
        i = i + 1;
    }
    assert(views(e.recovery@).subrange(0, e.recovery.len() as int) =~= views(e.recovery@));
    StderrEnvelope {
        code: e.code,
        message: copy_string(&e.message),
        field: match &e.field {
            Some(f) => Some(copy_string(f)),
            None => None,
        },
        subcode: match &e.subcode {
            Some(s) => Some(copy_string(s)),
            None => None,
        },
        cause: copy_string(&e.cause),
        recovery,
        docs: copy_string(&e.docs),
    }
}

/// A list of one string.
pub fn list1(a: &str) -> (r: Vec<String>)
    ensures
        views(r@) == seq![a@],
{
    let mut v: Vec<String> = Vec::new();
    push_owned(&mut v, a);
    assert(views(v@) =~= seq![a@]);
    v
}

/// A list of two strings.
pub fn list2(a: &str, b: &str) -> (r: Vec<String>)
    ensures
        views(r@) == seq![a@, b@],
{
    let mut v = list1(a);
    push_owned(&mut v, b);
    assert(views(v@) =~= seq![a@, b@]);
    v
}

/// A list of three strings.
pub fn list3(a: &str, b: &str, c: &str) -> (r: Vec<String>)
    ensures
        views(r@) == seq![a@, b@, c@],
{
    let mut v = list2(a, b);
    push_owned(&mut v, c);
    assert(views(v@) =~= seq![a@, b@, c@]);
    v
}

/// A list of four strings.
pub fn list4(a: &str, b: &str, c: &str, d: &str) -> (r: Vec<String>)
    ensures
        views(r@) == seq![a@, b@, c@, d@],
{
    let mut v = list3(a, b, c);
    push_owned(&mut v, d);
    assert(views(v@) =~= seq![a@, b@, c@, d@]);
    v
}

} // verus!
