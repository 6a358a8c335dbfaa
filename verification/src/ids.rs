//! Validated identifier newtypes for the extension registry.
//!
//! Each identifier holds the trimmed, non-empty form of its input; the type
//! invariant records that, and every constructor states exactly when it
//! succeeds.

use vstd::prelude::*;

use crate::text::{
    concat3, copy_string, is_empty_str, lemma_trim_idempotent, owned, str_contains_char, str_eq,
    trim_spec, trim_string,
};

verus! {

/// A trimmed, non-empty token.
pub open spec fn is_clean_token(s: Seq<char>) -> bool {
    s.len() > 0 && trim_spec(s) == s
}

/// A token with a path separator.
pub open spec fn has_path_separator(s: Seq<char>) -> bool {
    s.contains('/') || s.contains('\\')
}

/// Shared constructor core: trim and reject empty input.
fn trimmed_nonempty(s: &str) -> (r: Option<String>)
    ensures
        r is Some <==> trim_spec(s@).len() > 0,
        r matches Some(t) ==> t@ == trim_spec(s@) && is_clean_token(t@),
{
    let t = trim_string(s);
    proof {
        lemma_trim_idempotent(s@);
    }
    if is_empty_str(t.as_str()) {
        None
    } else {
        Some(t)
    }
}

/// Failure message from a rejected identifier.
#[derive(Debug, Clone, PartialEq, Eq)]
pub struct ExtensionIdError(String);

impl View for ExtensionIdError {
    type V = Seq<char>;

    closed spec fn view(&self) -> Seq<char> {
        self.0@
    }
}

impl ExtensionIdError {
    /// The failure message.
    pub fn message(&self) -> (r: &str)
        ensures
            r@ == self@,
    {
        self.0.as_str()
    }
}

/// Validated, non-empty extension identifier (stored trimmed).
#[derive(Debug, PartialEq, Eq, Hash)]
pub struct ExtensionId(String);

impl View for ExtensionId {
    type V = Seq<char>;

    closed spec fn view(&self) -> Seq<char> {
        self.0@
    }
}

impl ExtensionId {
    #[verifier::type_invariant]
    spec fn inv(self) -> bool {
        is_clean_token(self.0@)
    }


    /// Build an id from a string: trimmed; fails when nothing but whitespace.
    pub fn try_from(s: String) -> (r: Result<Self, ExtensionIdError>)
        ensures
            r is Ok <==> trim_spec(s@).len() > 0,
            r matches Ok(id) ==> id@ == trim_spec(s@),
            r matches Err(e) ==> e@ == "extension id must not be empty or whitespace"@,
    {
        match trimmed_nonempty(s.as_str()) {
            Some(t) => Ok(ExtensionId(t)),
            None => Err(ExtensionIdError(owned("extension id must not be empty or whitespace"))),
        }
    }

    /// The id as a string slice.
    pub fn as_str(&self) -> (r: &str)
        ensures
            r@ == self@,
            is_clean_token(self@),
    {
        proof {
            use_type_invariant(self);
        }
        self.0.as_str()
    }

    /// An owned copy with the same text.
    pub fn copy(&self) -> (r: Self)
        ensures
            r@ == self@,
    {
        proof {
            use_type_invariant(self);
        }
        ExtensionId(copy_string(&self.0))
    }

    /// Text equality.
    pub fn same(&self, other: &Self) -> (r: bool)
        ensures
            r == (self@ == other@),
    {
        str_eq(self.0.as_str(), other.0.as_str())
    }
}

/// Declared `{arg:name}` flag name (no leading dashes).
#[derive(Debug, PartialEq, Eq, Hash, PartialOrd, Ord)]
pub struct ArgName(String);

impl View for ArgName {
    type V = Seq<char>;

    closed spec fn view(&self) -> Seq<char> {
        self.0@
    }
}

impl ArgName {
    #[verifier::type_invariant]
    spec fn inv(self) -> bool {
        is_clean_token(self.0@)
    }


    /// Wrap a flag name after trim; `None` when it is empty or whitespace.
    pub fn new(name: &str) -> (r: Option<Self>)
        ensures
            r is Some <==> trim_spec(name@).len() > 0,
            r matches Some(n) ==> n@ == trim_spec(name@),
    {
        match trimmed_nonempty(name) {
            Some(t) => Some(ArgName(t)),
            None => None,
        }
    }

    /// Same as [`ArgName::new`] with an error message on failure.
    pub fn try_from(s: String) -> (r: Result<Self, ExtensionIdError>)
        ensures
            r is Ok <==> trim_spec(s@).len() > 0,
            r matches Ok(n) ==> n@ == trim_spec(s@),
            r matches Err(e) ==> e@ == "arg name must not be empty or whitespace"@,
    {
        match trimmed_nonempty(s.as_str()) {
            Some(t) => Ok(ArgName(t)),
            None => Err(ExtensionIdError(owned("arg name must not be empty or whitespace"))),
        }
    }

    /// The flag name as a string slice.
    pub fn as_str(&self) -> (r: &str)
        ensures
            r@ == self@,
            is_clean_token(self@),
    {
        proof {
            use_type_invariant(self);
        }
        self.0.as_str()
    }

    /// An owned copy with the same text.
    pub fn copy(&self) -> (r: Self)
        ensures
            r@ == self@,
    {
        proof {
            use_type_invariant(self);
        }
        ArgName(copy_string(&self.0))
    }

    /// Text equality.
    pub fn same(&self, other: &Self) -> (r: bool)
        ensures
            r == (self@ == other@),
    {
        str_eq(self.0.as_str(), other.0.as_str())
    }
}

/// Bare PATH binary name (non-empty, no path separators).
#[derive(Debug, PartialEq, Eq, Hash, PartialOrd, Ord)]
pub struct BinaryName(String);

impl View for BinaryName {
    type V = Seq<char>;

    closed spec fn view(&self) -> Seq<char> {
        self.0@
    }
}

impl BinaryName {
    #[verifier::type_invariant]
    spec fn inv(self) -> bool {
        is_clean_token(self.0@) && !has_path_separator(self.0@)
    }


    /// Build a binary name: trimmed; rejects empty input and anything with `/` or `\`.
    pub fn try_from(s: String) -> (r: Result<Self, ExtensionIdError>)
        ensures
            r is Ok <==> (trim_spec(s@).len() > 0 && !has_path_separator(trim_spec(s@))),
            r matches Ok(n) ==> n@ == trim_spec(s@),
            r matches Err(e) ==> (if trim_spec(s@).len() == 0 {
                e@ == "binary name must not be empty or whitespace"@
            } else {
                e@ == "'"@ + trim_spec(s@) + "' looks like a path; use bare binary name"@
            }),
    {
        match trimmed_nonempty(s.as_str()) {
            None => Err(ExtensionIdError(owned("binary name must not be empty or whitespace"))),
            Some(t) => {
                if str_contains_char(t.as_str(), '/') || str_contains_char(t.as_str(), '\\') {
                    Err(
                        ExtensionIdError(
                            concat3("'", t.as_str(), "' looks like a path; use bare binary name"),
                        ),
                    )
                } else {
                    Ok(BinaryName(t))
                }
            },
        }
    }

    /// The binary name as a string slice.
    pub fn as_str(&self) -> (r: &str)
        ensures
            r@ == self@,
            is_clean_token(self@),
    {
        proof {
            use_type_invariant(self);
        }
        self.0.as_str()
    }

    /// An owned copy with the same text.
    pub fn copy(&self) -> (r: Self)
        ensures
            r@ == self@,
    {
        proof {
            use_type_invariant(self);
        }
        BinaryName(copy_string(&self.0))
    }
}

/// Non-empty match token (suffix, filename, or argv prefix element).
#[derive(Debug, PartialEq, Eq, Hash)]
pub struct MatchToken(String);

impl View for MatchToken {
    type V = Seq<char>;

    closed spec fn view(&self) -> Seq<char> {
        self.0@
    }
}

impl MatchToken {
    #[verifier::type_invariant]
    spec fn inv(self) -> bool {
        is_clean_token(self.0@)
    }


    /// Build a match token: trimmed; fails when nothing but whitespace.
    pub fn try_from(s: String) -> (r: Result<Self, ExtensionIdError>)
        ensures
            r is Ok <==> trim_spec(s@).len() > 0,
            r matches Ok(t) ==> t@ == trim_spec(s@),
            r matches Err(e) ==> e@ == "match token must not be empty or whitespace"@,
    {
        match trimmed_nonempty(s.as_str()) {
            Some(t) => Ok(MatchToken(t)),
            None => Err(ExtensionIdError(owned("match token must not be empty or whitespace"))),
        }
    }

    /// The token as a string slice.
    pub fn as_str(&self) -> (r: &str)
        ensures
            r@ == self@,
            is_clean_token(self@),
    {
        proof {
            use_type_invariant(self);
        }
        self.0.as_str()
    }

    /// An owned copy with the same text.
    pub fn copy(&self) -> (r: Self)
        ensures
            r@ == self@,
    {
        proof {
            use_type_invariant(self);
        }
        MatchToken(copy_string(&self.0))
    }
}

} // verus!
