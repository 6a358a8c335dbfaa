//! Extension registry model: entries, merge by id, and `extends` resolution.

use vstd::prelude::*;

use crate::ids::{ArgName, BinaryName, ExtensionId, MatchToken};
use crate::json::{JsonValue, JsonView};
use crate::text::{concat3, concat5, copy_string, owned, views};

verus! {

/// Whether a catalog entry came from shipped defaults or a project file.
#[derive(Debug, Clone, Copy, PartialEq, Eq)]
pub enum SkillSource {
    /// Built-in `share/wyvern/extensions.json` (or compiled fallback).
    Shipped,
    /// Project `.wyvern/extensions.json` (trusted preexec).
    Project,
}

/// Wire / help label of a [`SkillSource`].
pub open spec fn source_label(s: SkillSource) -> Seq<char> {
    match s {
        SkillSource::Shipped => "shipped"@,
        SkillSource::Project => "project"@,
    }
}

impl SkillSource {
    /// Stable wire / help label (`shipped` or `project`).
    pub fn as_str(self) -> (r: &'static str)
        ensures
            r@ == source_label(self),
    {
        match self {
            SkillSource::Shipped => "shipped",
            SkillSource::Project => "project",
        }
    }
}

/// Stdout capture mode for [`PreexecSpec`].
#[derive(Debug, Clone, Copy, PartialEq, Eq)]
pub enum StdoutCapture {
    /// Capture stdout as markdown text and inject as `{preexec.stdout}`.
    Markdown,
}

/// Match fields from the registry schema.
#[derive(Debug)]
pub struct MatchSpec {
    /// Single positional ends with this suffix (`.md`).
    pub positional_suffix: Option<MatchToken>,
    /// Exact basename match (`wizard.json`).
    pub filename: Option<MatchToken>,
    /// First N argv tokens (`["compose", "render"]`).
    pub argv_prefix: Option<Vec<MatchToken>>,
    /// Token after prefix matches this suffix.
    pub arg_suffix: Option<MatchToken>,
}

/// Preexec subprocess declaration.
#[derive(Debug)]
pub struct PreexecSpec {
    /// Executable name or path (phase-1 expanded).
    pub cmd: String,
    /// Argv tokens (phase-1 expanded; `{arg:name:repeat}` splices).
    pub args: Vec<String>,
    /// Binaries that must be on `PATH` or the extension does not match.
    pub requires: Vec<BinaryName>,
    /// Stdout capture mode.
    pub stdout: Option<StdoutCapture>,
}

/// Host template object (`ui_root` only).
#[derive(Debug)]
pub struct HostExpandSpec {
    /// Template for the host `ui_root` override.
    pub ui_root: Option<String>,
}

/// Expand templates for command JSON and host overrides.
#[derive(Debug)]
pub struct ExpandSpec {
    /// Inline Command JSON after phase-2 substitution.
    pub command: Option<JsonValue>,
    /// Load Command JSON from this path template.
    pub command_from_file: Option<String>,
    /// Catalog hint for the command type of `command_from_file`.
    pub command_type: Option<String>,
    /// Host overrides.
    pub host: Option<HostExpandSpec>,
}

/// One registry entry after merge and `extends` resolution.
#[derive(Debug)]
pub struct ExtensionDef {
    /// Stable extension id (merge key).
    pub id: ExtensionId,
    /// Argv match rule.
    pub match_spec: MatchSpec,
    /// Optional parent id whose preexec/expand are reused.
    pub extends: Option<ExtensionId>,
    /// One-line agent-facing summary.
    pub description: Option<String>,
    /// Copy-paste argv examples.
    pub examples: Vec<String>,
    /// Optional subprocess step before command expand.
    pub preexec: Option<PreexecSpec>,
    /// Command + host template expansion.
    pub expand: Option<ExpandSpec>,
    /// Load origin.
    pub source: SkillSource,
}

/// Required binaries of an entry (`preexec.requires`, or none).
pub open spec fn spec_requires(ext: ExtensionDef) -> Seq<BinaryName> {
    match ext.preexec {
        Some(p) => p.requires@,
        None => Seq::empty(),
    }
}

/// A match spec names at least one match field.
pub open spec fn spec_has_match_field(spec: MatchSpec) -> bool {
    ||| spec.positional_suffix is Some
    ||| spec.filename is Some
    ||| (spec.argv_prefix matches Some(p) && p@.len() > 0)
    ||| spec.arg_suffix is Some
}

/// Views of optional text.
pub open spec fn opt_view(o: Option<String>) -> Option<Seq<char>> {
    match o {
        Some(s) => Some(s@),
        None => None,
    }
}

/// Views of an optional id.
pub open spec fn opt_id_view(o: Option<ExtensionId>) -> Option<Seq<char>> {
    match o {
        Some(s) => Some(s@),
        None => None,
    }
}

/// Views of an optional token.
pub open spec fn opt_token_view(o: Option<MatchToken>) -> Option<Seq<char>> {
    match o {
        Some(s) => Some(s@),
        None => None,
    }
}

/// Views of a token list.
pub open spec fn tokens_view(v: Seq<MatchToken>) -> Seq<Seq<char>> {
    v.map_values(|t: MatchToken| t@)
}

/// Views of a binary-name list.
pub open spec fn binaries_view(v: Seq<BinaryName>) -> Seq<Seq<char>> {
    v.map_values(|t: BinaryName| t@)
}

/// Views of an id list.
pub open spec fn ids_view(v: Seq<ExtensionId>) -> Seq<Seq<char>> {
    v.map_values(|t: ExtensionId| t@)
}

/// Mathematical form of a [`MatchSpec`].
pub struct MatchView {
    pub positional_suffix: Option<Seq<char>>,
    pub filename: Option<Seq<char>>,
    pub argv_prefix: Option<Seq<Seq<char>>>,
    pub arg_suffix: Option<Seq<char>>,
}

impl View for MatchSpec {
    type V = MatchView;

    open spec fn view(&self) -> MatchView {
        MatchView {
            positional_suffix: opt_token_view(self.positional_suffix),
            filename: opt_token_view(self.filename),
            argv_prefix: match self.argv_prefix {
                Some(p) => Some(tokens_view(p@)),
                None => None,
            },
            arg_suffix: opt_token_view(self.arg_suffix),
        }
    }
}

/// Mathematical form of a [`PreexecSpec`].
pub struct PreexecView {
    pub cmd: Seq<char>,
    pub args: Seq<Seq<char>>,
    pub requires: Seq<Seq<char>>,
    pub stdout: Option<StdoutCapture>,
}

impl View for PreexecSpec {
    type V = PreexecView;

    open spec fn view(&self) -> PreexecView {
        PreexecView {
            cmd: self.cmd@,
            args: views(self.args@),
            requires: binaries_view(self.requires@),
            stdout: self.stdout,
        }
    }
}

/// Mathematical form of an [`ExpandSpec`].
pub struct ExpandView {
    pub command: Option<JsonView>,
    pub command_from_file: Option<Seq<char>>,
    pub command_type: Option<Seq<char>>,
    pub host: Option<Option<Seq<char>>>,
}

impl View for ExpandSpec {
    type V = ExpandView;

    open spec fn view(&self) -> ExpandView {
        ExpandView {
            command: match self.command {
                Some(c) => Some(c@),
                None => None,
            },
            command_from_file: opt_view(self.command_from_file),
            command_type: opt_view(self.command_type),
            host: match self.host {
                Some(h) => Some(opt_view(h.ui_root)),
                None => None,
            },
        }
    }
}

/// Mathematical form of an [`ExtensionDef`].
pub struct DefView {
    pub id: Seq<char>,
    pub match_spec: MatchView,
    pub extends: Option<Seq<char>>,
    pub description: Option<Seq<char>>,
    pub examples: Seq<Seq<char>>,
    pub preexec: Option<PreexecView>,
    pub expand: Option<ExpandView>,
    pub source: SkillSource,
}

impl View for ExtensionDef {
    type V = DefView;

    open spec fn view(&self) -> DefView {
        DefView {
            id: self.id@,
            match_spec: self.match_spec@,
            extends: opt_id_view(self.extends),
            description: opt_view(self.description),
            examples: views(self.examples@),
            preexec: match self.preexec {
                Some(p) => Some(p@),
                None => None,
            },
            expand: match self.expand {
                Some(e) => Some(e@),
                None => None,
            },
            source: self.source,
        }
    }
}

/// Views of a list of entries.
pub open spec fn defs_view(v: Seq<ExtensionDef>) -> Seq<DefView> {
    v.map_values(|d: ExtensionDef| d@)
}

impl ExtensionDef {
    /// Required binaries advertised for `extensions list` and match-time skip.
    pub fn required_binaries(&self) -> (r: &[BinaryName])
        ensures
            r@ == spec_requires(*self),
    {
        match &self.preexec {
            Some(p) => p.requires.as_slice(),
            None => &[],
        }
    }
}

/// Whether `spec` has any match field.
pub fn has_match_field(spec: &MatchSpec) -> (r: bool)
    ensures
        r == spec_has_match_field(*spec),
{
    spec.positional_suffix.is_some() || spec.filename.is_some() || match &spec.argv_prefix {
        Some(p) => p.len() > 0,
        None => false,
    } || spec.arg_suffix.is_some()
}

/// Copies of owned text fields.
pub fn copy_strings(v: &Vec<String>) -> (r: Vec<String>)
    ensures
        r@.len() == v@.len(),
        forall|i: int| 0 <= i < v@.len() ==> #[trigger] r@[i]@ == v@[i]@,
        views(r@) == views(v@),
{
    let mut r: Vec<String> = Vec::new();
    let mut i: usize = 0;
    while i < v.len()
        invariant
            i <= v.len(),
            r@.len() == i,
            forall|k: int| 0 <= k < i ==> #[trigger] r@[k]@ == v@[k]@,
        decreases v.len() - i,
    {
        r.push(copy_string(&v[i]));
        i = i + 1;
    }
    assert(views(r@) =~= views(v@));
    r
}

/// Copy of an optional string.
pub fn copy_opt_string(v: &Option<String>) -> (r: Option<String>)
    ensures
        r is Some == v is Some,
        r matches Some(s) ==> s@ == v->0@,
{
    match v {
        Some(s) => Some(copy_string(s)),
        None => None,
    }
}

/// Copy of an optional id.
pub fn copy_opt_id(v: &Option<ExtensionId>) -> (r: Option<ExtensionId>)
    ensures
        r is Some == v is Some,
        r matches Some(s) ==> s@ == v->0@,
{
    match v {
        Some(s) => Some(s.copy()),
        None => None,
    }
}

/// Copy of an optional match token.
pub fn copy_opt_token(v: &Option<MatchToken>) -> (r: Option<MatchToken>)
    ensures
        r is Some == v is Some,
        r matches Some(s) ==> s@ == v->0@,
{
    match v {
        Some(s) => Some(s.copy()),
        None => None,
    }
}

/// Copy of a token list.
pub fn copy_tokens(v: &Vec<MatchToken>) -> (r: Vec<MatchToken>)
    ensures
        r@.len() == v@.len(),
        forall|i: int| 0 <= i < v@.len() ==> #[trigger] r@[i]@ == v@[i]@,
        tokens_view(r@) == tokens_view(v@),
{
    let mut r: Vec<MatchToken> = Vec::new();
    let mut i: usize = 0;
    while i < v.len()
        invariant
            i <= v.len(),
            r@.len() == i,
            forall|k: int| 0 <= k < i ==> #[trigger] r@[k]@ == v@[k]@,
        decreases v.len() - i,
    {
        r.push(v[i].copy());
        i = i + 1;
    }
    assert(tokens_view(r@) =~= tokens_view(v@));
    r
}

/// Copy of a binary-name list.
pub fn copy_binaries(v: &[BinaryName]) -> (r: Vec<BinaryName>)
    ensures
        r@.len() == v@.len(),
        forall|i: int| 0 <= i < v@.len() ==> #[trigger] r@[i]@ == v@[i]@,
        binaries_view(r@) == binaries_view(v@),
{
    let mut r: Vec<BinaryName> = Vec::new();
    let mut i: usize = 0;
    while i < v.len()
        invariant
            i <= v.len(),
            r@.len() == i,
            forall|k: int| 0 <= k < i ==> #[trigger] r@[k]@ == v@[k]@,
        decreases v.len() - i,
    {
        r.push(v[i].copy());
        i = i + 1;
    }
    assert(binaries_view(r@) =~= binaries_view(v@));
    r
}

/// Copy of a JSON value.
#[verifier::loop_isolation(false)]
pub fn copy_json(v: &JsonValue) -> (r: JsonValue)
    ensures
        r@ == v@,
    decreases v,
{
    match v {
        JsonValue::Null => JsonValue::Null,
        JsonValue::Bool(b) => JsonValue::Bool(*b),
        JsonValue::Number(n) => JsonValue::Number(copy_string(n)),
        JsonValue::Str(s) => JsonValue::Str(copy_string(s)),
        JsonValue::Array(items) => {
            let mut out: Vec<JsonValue> = Vec::new();
            let mut i: usize = 0;
            while i < items.len()
                invariant
                    i <= items.len(),
                    out@.len() == i,
                    forall|k: int| 0 <= k < i ==> (#[trigger] out@[k])@ == items@[k]@,
                decreases items.len() - i,
            {
                proof {
                    assert(decreases_to!(*v => *items));
                    assert(decreases_to!(*items => items@));
                    assert(decreases_to!(items@ => items@[i as int]));
                }
                let c = copy_json(&items[i]);
                out.push(c);
                i = i + 1;
            }
            let r = JsonValue::Array(out);
            assert(r@->Array_0 =~= v@->Array_0);
            r
        },
        JsonValue::Object(members) => {
            let mut out: Vec<(String, JsonValue)> = Vec::new();
            let mut i: usize = 0;
            while i < members.len()
                invariant
                    i <= members.len(),
                    out@.len() == i,
                    forall|k: int|
                        0 <= k < i ==> (#[trigger] out@[k]).0@ == members@[k].0@ && out@[k].1@
                            == members@[k].1@,
                decreases members.len() - i,
            {
                proof {
                    assert(decreases_to!(*v => *members));
                    assert(decreases_to!(*members => members@));
                    assert(decreases_to!(members@ => members@[i as int]));
                    assert(decreases_to!(members@[i as int] => members@[i as int].1));
                }
                let key = copy_string(&members[i].0);
                let val = copy_json(&members[i].1);
                out.push((key, val));
                i = i + 1;
            }
            let r = JsonValue::Object(out);
            assert(r@->Object_0 =~= v@->Object_0);
            r
        },
    }
}

/// Copy of a match spec.
pub fn copy_match_spec(m: &MatchSpec) -> (r: MatchSpec)
    ensures
        r@ == m@,
{
    MatchSpec {
        positional_suffix: copy_opt_token(&m.positional_suffix),
        filename: copy_opt_token(&m.filename),
        argv_prefix: match &m.argv_prefix {
            Some(p) => Some(copy_tokens(p)),
            None => None,
        },
        arg_suffix: copy_opt_token(&m.arg_suffix),
    }
}

/// Copy of a preexec spec.
pub fn copy_preexec(p: &PreexecSpec) -> (r: PreexecSpec)
    ensures
        r@ == p@,
{
    PreexecSpec {
        cmd: copy_string(&p.cmd),
        args: copy_strings(&p.args),
        requires: copy_binaries(p.requires.as_slice()),
        stdout: p.stdout,
    }
}

/// Copy of an optional preexec spec.
pub fn copy_opt_preexec(p: &Option<PreexecSpec>) -> (r: Option<PreexecSpec>)
    ensures
        r is Some == p is Some,
        r matches Some(x) ==> x@ == p->0@,
{
    match p {
        Some(x) => Some(copy_preexec(x)),
        None => None,
    }
}

/// Copy of an expand spec.
pub fn copy_expand(e: &ExpandSpec) -> (r: ExpandSpec)
    ensures
        r@ == e@,
{
    ExpandSpec {
        command: match &e.command {
            Some(c) => Some(copy_json(c)),
            None => None,
        },
        command_from_file: copy_opt_string(&e.command_from_file),
        command_type: copy_opt_string(&e.command_type),
        host: match &e.host {
            Some(h) => Some(HostExpandSpec { ui_root: copy_opt_string(&h.ui_root) }),
            None => None,
        },
    }
}

/// Copy of an optional expand spec.
pub fn copy_opt_expand(e: &Option<ExpandSpec>) -> (r: Option<ExpandSpec>)
    ensures
        r is Some == e is Some,
        r matches Some(x) ==> x@ == e->0@,
{
    match e {
        Some(x) => Some(copy_expand(x)),
        None => None,
    }
}

/// Copy of a registry entry.
pub fn copy_def(d: &ExtensionDef) -> (r: ExtensionDef)
    ensures
        r@ == d@,
{
    ExtensionDef {
        id: d.id.copy(),
        match_spec: copy_match_spec(&d.match_spec),
        extends: copy_opt_id(&d.extends),
        description: copy_opt_string(&d.description),
        examples: copy_strings(&d.examples),
        preexec: copy_opt_preexec(&d.preexec),
        expand: copy_opt_expand(&d.expand),
        source: d.source,
    }
}

} // verus!
