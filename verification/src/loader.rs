//! The merged, `extends`-resolved extension registry and the checks a parsed
//! registry file must pass.

use vstd::prelude::*;

use crate::errors::ExtensionError;
use crate::extends::{
    apply_extends, apply_spec, has_id, index_of_id, lemma_apply_keeps_entries, lemma_index_of_id,
    lemma_merge_in_place, lemma_merge_project_wins, merge_by_id, merge_spec,
};
use crate::registry::{
    copy_def, defs_view, has_match_field, spec_has_match_field, tokens_view, DefView,
    ExtensionDef, MatchView, SkillSource,
};
use crate::expand::FileRead;
use crate::text::{concat2, concat3, decimal, push_decimal, push_str};

verus! {

/// Most bytes of a registry file.
pub const MAX_REGISTRY_BYTES: usize = 1048576;

/// The text of the registry file at `path`: a failed read is an
/// `ExtensionError::Io` failure; a file over the limit or not UTF-8 is an
/// invalid registry.
pub fn registry_file_text(path: &str, read: FileRead) -> (r: Result<String, ExtensionError>)
    ensures
        match read {
            FileRead::Failed(d) => r matches Err(ExtensionError::Io { message }) && message@
                == "could not read '"@ + path@ + "': "@ + d@,
            FileRead::Read { len, text } => if len > MAX_REGISTRY_BYTES {
                r matches Err(ExtensionError::InvalidRegistry { message }) && message@
                    == "registry file '"@ + path@ + "' exceeds maximum of "@ + decimal(
                    MAX_REGISTRY_BYTES as nat,
                ) + " bytes"@
            } else {
                match text {
                    Ok(t) => r matches Ok(s) && s@ == t@,
                    Err(d) => r matches Err(ExtensionError::InvalidRegistry { message }) && message@
                        == "registry file '"@ + path@ + "' is not valid UTF-8: "@ + d@,
                }
            },
        },
{
    match read {
        FileRead::Failed(d) => {
            let head = concat3("could not read '", path, "': ");
            Err(ExtensionError::Io { message: concat2(head.as_str(), d.as_str()) })
        },
        FileRead::Read { len, text } => {
            if len > MAX_REGISTRY_BYTES {
                let mut message = concat3("registry file '", path, "' exceeds maximum of ");
                push_decimal(&mut message, MAX_REGISTRY_BYTES as u64);
                push_str(&mut message, " bytes");
                Err(ExtensionError::InvalidRegistry { message })
            } else {
                match text {
                    Ok(t) => Ok(t),
                    Err(d) => {
                        let head = concat3("registry file '", path, "' is not valid UTF-8: ");
                        Err(ExtensionError::InvalidRegistry { message: concat2(head.as_str(), d.as_str()) })
                    },
                }
            }
        },
    }
}

/// The failure when registry text from `origin` is not JSON of the registry
/// file's shape (`detail` is the parser's message).
pub fn registry_json_error(origin: &str, detail: &str) -> (r: ExtensionError)
    ensures
        r matches ExtensionError::InvalidRegistry { message } && message@ == "invalid JSON in "@
            + origin@ + ": "@ + detail@,
{
    let head = concat3("invalid JSON in ", origin, ": ");
    ExtensionError::InvalidRegistry { message: concat2(head.as_str(), detail) }
}

/// The failure when `WYVERN_SHARE` is set but its `extensions.json` (at
/// `path`) is missing or not a file.
pub fn share_defaults_missing_error(path: &str) -> (r: ExtensionError)
    ensures
        r matches ExtensionError::InvalidRegistry { message } && message@
            == "WYVERN_SHARE is set but '"@ + path@ + "' is missing or not a file"@,
{
    ExtensionError::InvalidRegistry {
        message: concat3("WYVERN_SHARE is set but '", path, "' is missing or not a file"),
    }
}

/// A match rule names at least one field.
pub open spec fn match_view_has_field(m: MatchView) -> bool {
    ||| m.positional_suffix is Some
    ||| m.filename is Some
    ||| (m.argv_prefix matches Some(p) && p.len() > 0)
    ||| m.arg_suffix is Some
}

/// An entry that can never match: no match field and no parent to inherit from.
pub open spec fn unmatchable(d: DefView) -> bool {
    !match_view_has_field(d.match_spec) && d.extends is None
}

/// Message for a registry file with another schema version.
pub open spec fn version_message(version: nat, origin: Seq<char>) -> Seq<char> {
    "unsupported registry version "@ + decimal(version) + " in "@ + origin + " (expected 1)"@
}

/// Message for an entry without match fields.
pub open spec fn no_match_message(id: Seq<char>, origin: Seq<char>) -> Seq<char> {
    "extension '"@ + id + "' in "@ + origin + " has no match fields"@
}

/// Outcome of the checks on a parsed registry file: the version must be 1
/// and the first unmatchable entry, if any, is reported.
pub open spec fn registry_check(version: nat, d: Seq<DefView>, origin: Seq<char>) -> Result<
    (),
    Seq<char>,
> {
    if version != 1 {
        Err(version_message(version, origin))
    } else if exists|i: int| 0 <= i < d.len() && unmatchable(#[trigger] d[i]) {
        let i = choose|i: int|
            0 <= i < d.len() && unmatchable(#[trigger] d[i]) && forall|k: int|
                0 <= k < i ==> !unmatchable(#[trigger] d[k]);
        Err(no_match_message(d[i].id, origin))
    } else {
        Ok(())
    }
}

proof fn lemma_first_unmatchable(d: Seq<DefView>, i: int)
    requires
        0 <= i < d.len(),
        unmatchable(d[i]),
        forall|k: int| 0 <= k < i ==> !unmatchable(#[trigger] d[k]),
    ensures
        (choose|j: int|
            0 <= j < d.len() && unmatchable(#[trigger] d[j]) && forall|k: int|
                0 <= k < j ==> !unmatchable(#[trigger] d[k])) == i,
{
    let j = choose|j: int|
        0 <= j < d.len() && unmatchable(#[trigger] d[j]) && forall|k: int|
            0 <= k < j ==> !unmatchable(#[trigger] d[k]);
    assert(0 <= j < d.len() && unmatchable(d[j]) && forall|k: int|
        0 <= k < j ==> !unmatchable(#[trigger] d[k]));
    if j < i {
        assert(!unmatchable(d[j]));
    }
    if j > i {
        assert(!unmatchable(d[i]));
    }
}

/// Check a parsed registry file (`version` and entries) loaded from `origin`.
#[verifier::loop_isolation(false)]
pub fn validate_registry(version: u32, extensions: Vec<ExtensionDef>, origin: &str) -> (r: Result<
    Vec<ExtensionDef>,
    ExtensionError,
>)
    ensures
        match r {
            Ok(v) => registry_check(version as nat, defs_view(extensions@), origin@) == Ok::<
                (),
                Seq<char>,
            >(()) && v@ == extensions@,
            Err(e) => match e {
                ExtensionError::InvalidRegistry { message } => registry_check(
                    version as nat,
                    defs_view(extensions@),
                    origin@,
                ) == Err::<(), Seq<char>>(message@),
                _ => false,
            },
        },
{
    let ghost d = defs_view(extensions@);
    if version != 1 {
        let mut message = String::new();
        push_str(&mut message, "unsupported registry version ");
        push_decimal(&mut message, version as u64);
        push_str(&mut message, " in ");
        push_str(&mut message, origin);
        push_str(&mut message, " (expected 1)");
        assert(message@ =~= version_message(version as nat, origin@));
        return Err(ExtensionError::InvalidRegistry { message });
    }
    let mut i: usize = 0;
    while i < extensions.len()
        invariant
            d == defs_view(extensions@),
            i <= extensions.len(),
            forall|k: int| 0 <= k < i ==> !unmatchable(#[trigger] d[k]),
        decreases extensions.len() - i,
    {
        let ext = &extensions[i];
        let has_field = has_match_field(&ext.match_spec);
        assert(d[i as int] == ext@);
        assert(has_field == match_view_has_field(d[i as int].match_spec)) by {
            assert(ext.match_spec.argv_prefix matches Some(p) ==> tokens_view(p@).len() == p@.len());
        }
        if !has_field && ext.extends.is_none() {
            let mut message = concat3("extension '", ext.id.as_str(), "' in ");
            push_str(&mut message, origin);
            push_str(&mut message, " has no match fields");
            proof {
                lemma_first_unmatchable(d, i as int);
                assert(message@ =~= no_match_message(d[i as int].id, origin@));
            }
            return Err(ExtensionError::InvalidRegistry { message });
        }
        i = i + 1;
    }
    Ok(extensions)
}

/// Merged extensions in match order.
#[derive(Debug)]
pub struct ExtensionRegistry {
    extensions: Vec<ExtensionDef>,
}

impl View for ExtensionRegistry {
    type V = Seq<DefView>;

    closed spec fn view(&self) -> Seq<DefView> {
        defs_view(self.extensions@)
    }
}

impl ExtensionRegistry {
    /// The view is the view of the entries.
    pub proof fn lemma_view_entries(&self)
        ensures
            self@ == defs_view(self.spec_entries()),
    {
    }
}

/// Project entries, marked as coming from a project file.
pub open spec fn mark_project(p: Seq<DefView>) -> Seq<DefView> {
    p.map_values(|d: DefView| DefView { source: SkillSource::Project, ..d })
}

/// The registry made of `defaults` overridden by `project`, after `extends`.
pub open spec fn registry_spec(d: Seq<DefView>, p: Seq<DefView>) -> Result<Seq<DefView>, Seq<char>> {
    apply_spec(merge_spec(d, mark_project(p)))
}

impl ExtensionRegistry {
    /// Build the registry from one checked registry file (resolving `extends`).
    pub fn from_entries(extensions: Vec<ExtensionDef>) -> (r: Result<Self, ExtensionError>)
        ensures
            match r {
                Ok(reg) => apply_spec(defs_view(extensions@)) == Ok::<Seq<DefView>, Seq<char>>(
                    reg@,
                ),
                Err(e) => match e {
                    ExtensionError::InvalidRegistry { message } => apply_spec(
                        defs_view(extensions@),
                    ) == Err::<Seq<DefView>, Seq<char>>(message@),
                    _ => false,
                },
            },
    {
        match apply_extends(extensions) {
            Ok(v) => Ok(ExtensionRegistry { extensions: v }),
            Err(e) => Err(e),
        }
    }

    /// Build the registry from shipped defaults and project entries: project
    /// entries are marked as such, override defaults by id in place, and
    /// `extends` is resolved after the merge.
    pub fn from_sources(defaults: Vec<ExtensionDef>, project: Vec<ExtensionDef>) -> (r: Result<
        Self,
        ExtensionError,
    >)
        ensures
            match r {
                Ok(reg) => registry_spec(defs_view(defaults@), defs_view(project@)) == Ok::<
                    Seq<DefView>,
                    Seq<char>,
                >(reg@),
                Err(e) => match e {
                    ExtensionError::InvalidRegistry { message } => registry_spec(
                        defs_view(defaults@),
                        defs_view(project@),
                    ) == Err::<Seq<DefView>, Seq<char>>(message@),
                    _ => false,
                },
            },
    {
        let ghost p = defs_view(project@);
        let mut marked: Vec<ExtensionDef> = Vec::new();
        let mut i: usize = 0;
        while i < project.len()
            invariant
                p == defs_view(project@),
                i <= project.len(),
                defs_view(marked@) == mark_project(p.subrange(0, i as int)),
            decreases project.len() - i,
        {
            let mut e = copy_def(&project[i]);
            e.source = SkillSource::Project;
            let ghost before = defs_view(marked@);
            let ghost ev = e@;
            marked.push(e);
            assert(defs_view(marked@) =~= before.push(ev));
            assert(mark_project(p.subrange(0, i + 1)) =~= mark_project(p.subrange(0, i as int)).push(
                ev,
            ));
            i = i + 1;
        }
        assert(p.subrange(0, project.len() as int) =~= p);
        let merged = merge_by_id(defaults, marked);
        Self::from_entries(merged)
    }

    /// The entries themselves, in match order.
    pub closed spec fn spec_entries(&self) -> Seq<ExtensionDef> {
        self.extensions@
    }

    /// Merged extensions in match order.
    pub fn extensions(&self) -> (r: &[ExtensionDef])
        ensures
            defs_view(r@) == self@,
            r@ == self.spec_entries(),
    {
        self.extensions.as_slice()
    }
}

/// A project file that only overrides existing ids replaces entries in
/// place: the loaded registry has as many entries as the defaults, with the
/// defaults' ids in the defaults' order.
pub proof fn lemma_override_in_place(d: Seq<DefView>, p: Seq<DefView>)
    requires
        forall|j: int| 0 <= j < p.len() ==> has_id(d, #[trigger] p[j].id),
    ensures
        registry_spec(d, p) matches Ok(r) ==> r.len() == d.len() && forall|i: int|
            0 <= i < d.len() ==> #[trigger] r[i].id == d[i].id,
{
    let q = mark_project(p);
    assert forall|j: int| 0 <= j < q.len() implies has_id(d, #[trigger] q[j].id) by {
        assert(q[j].id == p[j].id);
    }
    lemma_merge_in_place(d, q);
    crate::extends::lemma_merge_keeps_default_ids(d, q);
    lemma_apply_keeps_entries(merge_spec(d, q));
}

/// A project entry overrides the default with the same id: in the loaded
/// registry, the first entry with that id has the project entry's match
/// rule and is marked as coming from the project.
pub proof fn lemma_project_entry_wins(d: Seq<DefView>, p: Seq<DefView>, j: int)
    requires
        0 <= j < p.len(),
        forall|a: int, b: int|
            0 <= a < p.len() && 0 <= b < p.len() && a != b ==> #[trigger] p[a].id != #[trigger] p[b].id,
    ensures
        registry_spec(d, p) matches Ok(r) ==> exists|k: int|
            0 <= k < r.len() && #[trigger] r[k].id == p[j].id && r[k].match_spec == p[j].match_spec
                && r[k].source == SkillSource::Project,
{
    let q = mark_project(p);
    assert forall|a: int, b: int|
        0 <= a < q.len() && 0 <= b < q.len() && a != b implies #[trigger] q[a].id
        != #[trigger] q[b].id by {
        assert(q[a].id == p[a].id && q[b].id == p[b].id);
    }
    lemma_merge_project_wins(d, q);
    let m = merge_spec(d, q);
    assert(index_of_id(m, q[j].id) matches Some(k) && m[k] == q[j]);
    lemma_index_of_id(m, q[j].id);
    lemma_apply_keeps_entries(m);
    if let Ok(r) = registry_spec(d, p) {
        let k = index_of_id(m, q[j].id)->Some_0;
        assert(r[k].id == m[k].id);
    }
}

} // verus!
