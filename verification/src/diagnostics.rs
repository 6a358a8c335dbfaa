//! Near-miss classification of an argv that matched no extension, and its
//! stderr envelope.

use vstd::prelude::*;

use crate::catalog::{
    build_skill_record, card_text, format_skill_card, invocation_line, invocation_spec, record_spec,
    CommandFileType, RecordView, SkillRecord,
};
use crate::extends::{index_of_id, lemma_index_of_id};
use crate::envelope::{
    envelope_text, envelope_to_json, list3, list4, new_envelope, plain_envelope, push_owned,
    push_string, EnvelopeView,
};
use crate::errors::{EmitError, ErrorCode};
use crate::ids::{BinaryName, ExtensionId};
use crate::loader::ExtensionRegistry;
use crate::matching::{
    ends_with_suffix, path_file_name, prefix_matches, skipped_view, stem_split, RequiresProbe,
    SkippedExtension,
};
use crate::registry::{binaries_view, defs_view, opt_view, tokens_view, DefView, ExtensionDef};
use crate::skill_args::{args_view, declared_args_spec, declared_skill_args};
use crate::template::{find_char, substring};
use crate::skill_args::dedup;
use crate::text::{
    split_words, words_from,
    ascii_lower, chars_of, concat2, concat3, copy_string, decimal, ends_with_ci, find_char_from,
    join, join_spec, lemma_find_char_from, owned, push_decimal, push_str, starts_with,
    str_contains_char, str_eq, str_starts_with, u64_to_decimal, views,
};

verus! {

/// The extension of a path, as std's `Path::extension` documents it: none
/// without a file name or a `.` past its first character, else the part of
/// the file name after its last `.`.
pub open spec fn path_extension(path: Seq<char>) -> Option<Seq<char>> {
    match path_file_name(path) {
        Some(name) => match stem_split(name) {
            Some(k) => Some(name.subrange(k + 1, name.len() as int)),
            None => None,
        },
        None => None,
    }
}

/// Calls `std::path::Path::extension` on `path`, converted to a `String`.
#[verifier::external_body]
pub(crate) fn extension_of(path: &str) -> (r: Option<String>)
    ensures
        opt_view(r) == path_extension(path@),
{
    std::path::Path::new(path).extension().and_then(|e| e.to_str()).map(|e| e.to_string())
}

/// A token naming a `.json` file (any ASCII case).
pub open spec fn is_json_file(token: Seq<char>) -> bool {
    match path_extension(token) {
        Some(e) => e.map_values(|c: char| ascii_lower(c)) == "json"@,
        None => false,
    }
}

/// A token that looks like a path: a separator or an extension.
pub open spec fn looks_path_like(token: Seq<char>) -> bool {
    token.contains('/') || token.contains('\\') || path_extension(token) is Some
}

pub(crate) fn is_json_file_exec(token: &str) -> (r: bool)
    ensures
        r == is_json_file(token@),
{
    proof {
        reveal_strlit("json");
    }
    match extension_of(token) {
        Some(e) => {
            let v = chars_of(e.as_str());
            if v.len() != 4 {
                assert(e@.map_values(|c: char| ascii_lower(c)).len() != "json"@.len());
                return false;
            }
            let ok = crate::text::char_ascii_lower(v[0]) == 'j' && crate::text::char_ascii_lower(
                v[1],
            ) == 's' && crate::text::char_ascii_lower(v[2]) == 'o'
                && crate::text::char_ascii_lower(v[3]) == 'n';
            if ok {
                assert(e@.map_values(|c: char| ascii_lower(c)) =~= "json"@);
            } else {
                assert(e@.map_values(|c: char| ascii_lower(c)) != "json"@) by {
                    let m = e@.map_values(|c: char| ascii_lower(c));
                    if m == "json"@ {
                        assert(m[0] == 'j' && m[1] == 's' && m[2] == 'o' && m[3] == 'n');
                    }
                }
            }
            ok
        },
        None => false,
    }
}

fn looks_path_like_exec(token: &str) -> (r: bool)
    ensures
        r == looks_path_like(token@),
{
    str_contains_char(token, '/') || str_contains_char(token, '\\') || extension_of(token).is_some()
}

/// Why remainder argv did not match an extension.
#[derive(Debug)]
pub enum NearMissKind {
    /// Path or token is not a known suffix, filename, or prefix.
    UnknownInput {
        /// Offending argv token.
        token: String,
    },
    /// First prefix tokens matched; later prefix tokens are missing.
    IncompletePrefix {
        /// Extension that owns the full prefix.
        extension_id: ExtensionId,
        /// The full prefix to type (for example `compose render`).
        hint: String,
    },
    /// Full prefix matched; the required suffix path is absent.
    BarePrefix {
        /// Extension that owns the prefix.
        extension_id: ExtensionId,
        /// Invocation line including the missing suffix placeholder.
        usage: String,
    },
    /// A path would match, but every candidate was skipped for `requires`.
    SkippedRequires {
        /// Path token that would have matched.
        path: String,
        /// Skipped candidates and their missing binaries.
        skipped: Vec<SkippedExtension>,
    },
}

/// Mathematical form of a [`NearMissKind`].
pub enum NearMissView {
    UnknownInput(Seq<char>),
    IncompletePrefix(Seq<char>, Seq<char>),
    BarePrefix(Seq<char>, Seq<char>),
    SkippedRequires(Seq<char>, Seq<(Seq<char>, Seq<Seq<char>>)>),
}

/// View of a near-miss.
pub open spec fn near_miss_view(k: NearMissKind) -> NearMissView {
    match k {
        NearMissKind::UnknownInput { token } => NearMissView::UnknownInput(token@),
        NearMissKind::IncompletePrefix { extension_id, hint } => NearMissView::IncompletePrefix(
            extension_id@,
            hint@,
        ),
        NearMissKind::BarePrefix { extension_id, usage } => NearMissView::BarePrefix(
            extension_id@,
            usage@,
        ),
        NearMissKind::SkippedRequires { path, skipped } => NearMissView::SkippedRequires(
            path@,
            skipped_view(skipped@),
        ),
    }
}

impl NearMissKind {
    /// Process exit code: `2` for unknown input, `4` otherwise.
    pub fn exit_code(&self) -> (r: i32)
        ensures
            r == (if *self is UnknownInput {
                2i32
            } else {
                4i32
            }),
    {
        match self {
            NearMissKind::UnknownInput { .. } => ErrorCode::ParseError.exit_code(),
            _ => ErrorCode::ValidationError.exit_code(),
        }
    }
}

/// Best candidate among the first `n`: (index, claimed length); the longest
/// claim wins, the first among equal claims.
pub open spec fn best_by(c: Seq<Option<nat>>, n: nat) -> Option<(int, nat)>
    decreases n,
{
    if n == 0 || n > c.len() {
        None
    } else {
        let prev = best_by(c, (n - 1) as nat);
        match c[n - 1] {
            Some(len) => match prev {
                Some((i, bl)) => if len > bl {
                    Some(((n - 1) as int, len))
                } else {
                    prev
                },
                None => Some(((n - 1) as int, len)),
            },
            None => prev,
        }
    }
}

proof fn lemma_best_by_bounds(c: Seq<Option<nat>>, n: nat)
    ensures
        best_by(c, n) matches Some((i, l)) ==> 0 <= i < n && i < c.len() && c[i] == Some(l),
    decreases n,
{
    if n > 0 {
        lemma_best_by_bounds(c, (n - 1) as nat);
    }
}

/// Prefix length of an entry whose full prefix matches argv but whose
/// suffix path is missing from the tokens after it.
pub open spec fn bare_claim(d: DefView, argv: Seq<Seq<char>>) -> Option<nat> {
    match d.match_spec.argv_prefix {
        Some(prefix) => match d.match_spec.arg_suffix {
            Some(sfx) => if prefix_matches(prefix, argv) && !(exists|k: int|
                prefix.len() <= k < argv.len() && ends_with_ci(#[trigger] argv[k], sfx)) {
                Some(prefix.len())
            } else {
                None
            },
            None => None,
        },
        None => None,
    }
}

/// Prefix length of an entry whose non-empty prefix argv begins but does
/// not complete.
pub open spec fn incomplete_claim(d: DefView, argv: Seq<Seq<char>>) -> Option<nat> {
    match d.match_spec.argv_prefix {
        Some(prefix) => if prefix.len() > 0 && argv.len() > 0 && argv.len() < prefix.len()
            && prefix_matches(argv, prefix) {
            Some(prefix.len())
        } else {
            None
        },
        None => None,
    }
}

/// Classification of a no-match argv: `None` lets input loading run (empty
/// argv, inline JSON, a flag, a `.json` file); skipped candidates come
/// first, then a bare prefix, then an incomplete prefix, else unknown input.
pub open spec fn classify_spec(
    exts: Seq<ExtensionDef>,
    argv: Seq<Seq<char>>,
    skipped: Seq<(Seq<char>, Seq<Seq<char>>)>,
) -> Option<NearMissView> {
    let dv = defs_view(exts);
    if argv.len() == 0 {
        None
    } else if argv.len() == 1 && (starts_with(argv[0], "{"@) || starts_with(argv[0], "["@)
        || starts_with(argv[0], "-"@) || is_json_file(argv[0])) {
        None
    } else if skipped.len() > 0 {
        let path = if exists|k: int| 0 <= k < argv.len() && looks_path_like(#[trigger] argv[k]) {
            argv[choose|k: int|
                0 <= k < argv.len() && looks_path_like(#[trigger] argv[k]) && forall|j: int|
                    0 <= j < k ==> !looks_path_like(#[trigger] argv[j])]
        } else {
            argv[0]
        };
        Some(NearMissView::SkippedRequires(path, skipped))
    } else {
        match best_by(dv.map_values(|d: DefView| bare_claim(d, argv)), dv.len()) {
            Some((i, _)) => Some(
                NearMissView::BarePrefix(
                    dv[i].id,
                    invocation_spec(dv[i].match_spec, declared_args_spec(dv[i])),
                ),
            ),
            None => match best_by(dv.map_values(|d: DefView| incomplete_claim(d, argv)), dv.len()) {
                Some((i, _)) => Some(
                    NearMissView::IncompletePrefix(
                        dv[i].id,
                        join_spec(dv[i].match_spec.argv_prefix->Some_0, " "@),
                    ),
                ),
                None => Some(NearMissView::UnknownInput(argv[0])),
            },
        }
    }
}

proof fn lemma_best_by_some(c: Seq<Option<nat>>, n: nat, k: int)
    requires
        0 <= k < n <= c.len(),
        c[k] is Some,
    ensures
        best_by(c, n) matches Some((i, l)) && l >= c[k]->Some_0,
    decreases n,
{
    if k < n - 1 {
        lemma_best_by_some(c, (n - 1) as nat, k);
    }
}

proof fn lemma_best_by_none(c: Seq<Option<nat>>, n: nat)
    requires
        n <= c.len(),
        forall|k: int| 0 <= k < n ==> #[trigger] c[k] is None,
    ensures
        best_by(c, n) is None,
    decreases n,
{
    if n > 0 {
        lemma_best_by_none(c, (n - 1) as nat);
    }
}

/// An argv that is a non-empty proper beginning of some entry's argv
/// prefix is an incomplete prefix, whatever its length, when it completes
/// no entry's prefix, no candidate was skipped, and it is not input that
/// loading takes over (inline JSON, a flag, a `.json` file). The diagnostic
/// names an entry whose prefix argv begins, at least as long as that one,
/// and hints that full prefix.
pub proof fn lemma_proper_prefix_is_incomplete(exts: Seq<ExtensionDef>, argv: Seq<Seq<char>>, j: int)
    requires
        0 <= j < exts.len(),
        exts[j]@.match_spec.argv_prefix matches Some(p) && 0 < argv.len() < p.len() && forall|k: int|
            0 <= k < argv.len() ==> #[trigger] argv[k] == p[k],
        !(argv.len() == 1 && (starts_with(argv[0], "{"@) || starts_with(argv[0], "["@) || starts_with(
            argv[0],
            "-"@,
        ) || is_json_file(argv[0]))),
        forall|e: int|
            0 <= e < exts.len() ==> ((#[trigger] exts[e]@).match_spec.argv_prefix matches Some(q)
                ==> !prefix_matches(q, argv)),
    ensures
        classify_spec(exts, argv, Seq::empty()) matches Some(NearMissView::IncompletePrefix(id, hint))
            && exists|e: int|
            {
                &&& 0 <= e < exts.len()
                &&& (#[trigger] exts[e]@).id == id
                &&& exts[e]@.match_spec.argv_prefix matches Some(q)
                &&& argv.len() < q.len()
                &&& prefix_matches(argv, q)
                &&& q.len() >= exts[j]@.match_spec.argv_prefix->Some_0.len()
                &&& hint == join_spec(q, " "@)
            },
{
    let dv = defs_view(exts);
    let bare = dv.map_values(|d: DefView| bare_claim(d, argv));
    let inc = dv.map_values(|d: DefView| incomplete_claim(d, argv));
    assert forall|k: int| 0 <= k < dv.len() implies #[trigger] bare[k] is None by {
        assert(dv[k] == exts[k]@);
    }
    lemma_best_by_none(bare, dv.len());
    let p = exts[j]@.match_spec.argv_prefix->Some_0;
    assert(dv[j] == exts[j]@);
    assert(prefix_matches(argv, p));
    assert(inc[j] == Some(p.len()));
    lemma_best_by_some(inc, dv.len(), j);
    lemma_best_by_bounds(inc, dv.len());
    let (i, l) = best_by(inc, dv.len())->Some_0;
    assert(dv[i] == exts[i]@);
    assert(inc[i] == incomplete_claim(dv[i], argv));
}

fn copy_skipped(v: &Vec<SkippedExtension>) -> (r: Vec<SkippedExtension>)
    ensures
        skipped_view(r@) == skipped_view(v@),
{
    let mut out: Vec<SkippedExtension> = Vec::new();
    let mut i: usize = 0;
    while i < v.len()
        invariant
            i <= v.len(),
            skipped_view(out@) == skipped_view(v@).subrange(0, i as int),
        decreases v.len() - i,
    {
        let s = SkippedExtension {
            id: v[i].id.copy(),
            missing: crate::registry::copy_binaries(v[i].missing.as_slice()),
        };
        let ghost sv = (s.id@, binaries_view(s.missing@));
        assert(sv == skipped_view(v@)[i as int]);
        let ghost before = skipped_view(out@);
        out.push(s);
        assert(skipped_view(out@) =~= before.push(sv));
        assert(skipped_view(out@) =~= skipped_view(v@).subrange(0, i + 1));
        i = i + 1;
    }
    assert(skipped_view(v@).subrange(0, v.len() as int) =~= skipped_view(v@));
    out
}

fn token_ends_with_any(rest: &[String], suffix: &str) -> (r: bool)
    ensures
        r == exists|k: int| 0 <= k < rest@.len() && ends_with_ci(#[trigger] views(rest@)[k], suffix@),
{
    let mut k: usize = 0;
    while k < rest.len()
        invariant
            k <= rest.len(),
            forall|j: int| 0 <= j < k ==> !ends_with_ci(#[trigger] views(rest@)[j], suffix@),
        decreases rest.len() - k,
    {
        if ends_with_suffix(rest[k].as_str(), suffix) {
            assert(ends_with_ci(views(rest@)[k as int], suffix@));
            return true;
        }
        k = k + 1;
    }
    false
}

fn prefix_matches_argv(prefix: &Vec<crate::ids::MatchToken>, argv: &[String]) -> (r: bool)
    ensures
        r == prefix_matches(tokens_view(prefix@), views(argv@)),
{
    if argv.len() < prefix.len() {
        return false;
    }
    let mut k: usize = 0;
    while k < prefix.len()
        invariant
            prefix.len() <= argv.len(),
            k <= prefix.len(),
            forall|j: int| 0 <= j < k ==> #[trigger] tokens_view(prefix@)[j] == views(argv@)[j],
        decreases prefix.len() - k,
    {
        if !str_eq(prefix[k].as_str(), argv[k].as_str()) {
            assert(tokens_view(prefix@)[k as int] != views(argv@)[k as int]);
            return false;
        }
        k = k + 1;
    }
    true
}

fn argv_begins_prefix(prefix: &Vec<crate::ids::MatchToken>, argv: &[String]) -> (r: bool)
    requires
        argv.len() < prefix.len(),
    ensures
        r == prefix_matches(views(argv@), tokens_view(prefix@)),
{
    let mut k: usize = 0;
    while k < argv.len()
        invariant
            argv.len() < prefix.len(),
            k <= argv.len(),
            forall|j: int| 0 <= j < k ==> #[trigger] views(argv@)[j] == tokens_view(prefix@)[j],
        decreases argv.len() - k,
    {
        if !str_eq(prefix[k].as_str(), argv[k].as_str()) {
            assert(tokens_view(prefix@)[k as int] != views(argv@)[k as int]);
            return false;
        }
        k = k + 1;
    }
    true
}

/// Classify a no-match argv.
#[verifier::loop_isolation(false)]
pub fn classify_near_miss(
    registry: &ExtensionRegistry,
    argv: &[String],
    skipped: &Vec<SkippedExtension>,
) -> (r: Option<NearMissKind>)
    ensures
        match r {
            Some(k) => classify_spec(registry.spec_entries(), views(argv@), skipped_view(skipped@))
                == Some(near_miss_view(k)),
            None => classify_spec(registry.spec_entries(), views(argv@), skipped_view(skipped@))
                is None,
        },
{
    proof {
        reveal_strlit("{");
        reveal_strlit("[");
        reveal_strlit("-");
    }
    let ghost av = views(argv@);
    if argv.len() == 0 {
        return None;
    }
    if argv.len() == 1 {
        let token = argv[0].as_str();
        if str_starts_with(token, "{") || str_starts_with(token, "[") || str_starts_with(token, "-")
            || is_json_file_exec(token) {
            return None;
        }
    }
    if skipped.len() > 0 {
        let mut k: usize = 0;
        while k < argv.len()
            invariant
                av == views(argv@),
                k <= argv.len(),
                forall|j: int| 0 <= j < k ==> !looks_path_like(#[trigger] av[j]),
            decreases argv.len() - k,
        {
            if looks_path_like_exec(argv[k].as_str()) {
                proof {
                    let c = choose|c: int|
                        0 <= c < av.len() && looks_path_like(#[trigger] av[c]) && forall|j: int|
                            0 <= j < c ==> !looks_path_like(#[trigger] av[j]);
                    assert(looks_path_like(av[k as int]));
                    assert(0 <= c < av.len() && looks_path_like(av[c]) && forall|j: int|
                        0 <= j < c ==> !looks_path_like(#[trigger] av[j]));
                    if c < k as int {
                        assert(!looks_path_like(av[c]));
                    }
                    if c > k as int {
                        assert(!looks_path_like(av[k as int]));
                    }
                }
                return Some(
                    NearMissKind::SkippedRequires {
                        path: copy_string(&argv[k]),
                        skipped: copy_skipped(skipped),
                    },
                );
            }
            k = k + 1;
        }
        return Some(
            NearMissKind::SkippedRequires {
                path: copy_string(&argv[0]),
                skipped: copy_skipped(skipped),
            },
        );
    }
    let exts = registry.extensions();
    let ghost dv = defs_view(exts@);
    let ghost bare = dv.map_values(|d: DefView| bare_claim(d, av));
    let mut best: Option<(usize, usize)> = None;
    let mut i: usize = 0;
    while i < exts.len()
        invariant
            dv == defs_view(exts@),
            bare == dv.map_values(|d: DefView| bare_claim(d, av)),
            i <= exts.len(),
            match best {
                Some((b, bl)) => best_by(bare, i as nat) == Some((b as int, bl as nat)),
                None => best_by(bare, i as nat) is None,
            },
        decreases exts.len() - i,
    {
        let ext = &exts[i];
        assert(dv[i as int] == ext@);
        assert(bare[i as int] == bare_claim(ext@, av));
        let spec = &ext.match_spec;
        let claim: Option<usize> = match &spec.argv_prefix {
            Some(prefix) => match &spec.arg_suffix {
                Some(sfx) => {
                    if prefix_matches_argv(prefix, argv) {
                        let (_, rest) = argv.split_at(prefix.len());
                        if token_ends_with_any(rest, sfx.as_str()) {
                            proof {
                                let k = choose|k: int|
                                    0 <= k < rest@.len() && ends_with_ci(
                                        #[trigger] views(rest@)[k],
                                        sfx@,
                                    );
                                assert(views(rest@)[k] == av[prefix@.len() + k]);
                                assert(tokens_view(prefix@).len() == prefix@.len());
                            }
                            None
                        } else {
                            proof {
                                assert(tokens_view(prefix@).len() == prefix@.len());
                                assert forall|k: int|
                                    prefix@.len() <= k < av.len() implies !ends_with_ci(
                                    #[trigger] av[k],
                                    sfx@,
                                ) by {
                                    assert(views(rest@)[k - prefix@.len()] == av[k]);
                                }
                            }
                            Some(prefix.len())
                        }
                    } else {
                        None
                    }
                },
                None => None,
            },
            None => None,
        };
        assert(match claim {
            Some(n) => bare[i as int] == Some(n as nat),
            None => bare[i as int] is None,
        }) by {
            assert(spec.argv_prefix matches Some(p) ==> tokens_view(p@).len() == p@.len());
        }
        if let Some(n) = claim {
            let better = match best {
                Some((_, bl)) => n > bl,
                None => true,
            };
            if better {
                best = Some((i, n));
            }
        }
        i = i + 1;
    }
    if let Some((b, _)) = best {
        proof {
            lemma_best_by_bounds(bare, dv.len());
        }
        let ext = &exts[b];
        assert(dv[b as int] == ext@);
        let args = declared_skill_args(ext);
        return Some(
            NearMissKind::BarePrefix {
                extension_id: ext.id.copy(),
                usage: invocation_line(ext, &args),
            },
        );
    }
    let ghost inc = dv.map_values(|d: DefView| incomplete_claim(d, av));
    let mut best2: Option<(usize, usize)> = None;
    let mut i: usize = 0;
    while i < exts.len()
        invariant
            dv == defs_view(exts@),
            inc == dv.map_values(|d: DefView| incomplete_claim(d, av)),
            i <= exts.len(),
            match best2 {
                Some((b, bl)) => best_by(inc, i as nat) == Some((b as int, bl as nat)),
                None => best_by(inc, i as nat) is None,
            },
        decreases exts.len() - i,
    {
        let ext = &exts[i];
        assert(dv[i as int] == ext@);
        assert(inc[i as int] == incomplete_claim(ext@, av));
        let claim: Option<usize> = match &ext.match_spec.argv_prefix {
            Some(prefix) => {
                if prefix.len() > 0 && argv.len() > 0 && argv.len() < prefix.len()
                    && argv_begins_prefix(prefix, argv) {
                    Some(prefix.len())
                } else {
                    None
                }
            },
            None => None,
        };
        assert(match claim {
            Some(n) => inc[i as int] == Some(n as nat),
            None => inc[i as int] is None,
        }) by {
            assert(ext.match_spec.argv_prefix matches Some(p) ==> tokens_view(p@).len()
                == p@.len());
        }
        if let Some(n) = claim {
            let better = match best2 {
                Some((_, bl)) => n > bl,
                None => true,
            };
            if better {
                best2 = Some((i, n));
            }
        }
        i = i + 1;
    }
    if let Some((b, _)) = best2 {
        proof {
            lemma_best_by_bounds(inc, dv.len());
        }
        let ext = &exts[b];
        assert(dv[b as int] == ext@);
        let hint = match &ext.match_spec.argv_prefix {
            Some(prefix) => crate::matching::join_tokens_pub(prefix),
            None => owned(""),
        };
        return Some(NearMissKind::IncompletePrefix { extension_id: ext.id.copy(), hint });
    }
    Some(NearMissKind::UnknownInput { token: copy_string(&argv[0]) })
}

/// Number of skipped ids named in a summary.
pub open spec fn max_skipped_summary() -> nat {
    4
}

/// All missing binaries of the skipped entries, in order.
pub open spec fn all_missing(sk: Seq<(Seq<char>, Seq<Seq<char>>)>) -> Seq<Seq<char>>
    decreases sk.len(),
{
    if sk.len() == 0 {
        Seq::empty()
    } else {
        all_missing(sk.drop_last()) + sk.last().1
    }
}

/// Id summary and missing-binary summary of skipped entries: at most four
/// ids (with a `(+N more)` note), and every missing binary once.
pub open spec fn skipped_summary_spec(sk: Seq<(Seq<char>, Seq<Seq<char>>)>) -> (Seq<char>, Seq<char>) {
    let shown = if sk.len() < 4 {
        sk.len()
    } else {
        4
    };
    let ids = join_spec(sk.subrange(0, shown as int).map_values(|e: (Seq<char>, Seq<Seq<char>>)| e.0), ", "@);
    let id_summary = if sk.len() > 4 {
        ids + " (+"@ + decimal((sk.len() - 4) as nat) + " more)"@
    } else if ids.len() == 0 {
        "extension"@
    } else {
        ids
    };
    let missing = dedup(all_missing(sk));
    (
        id_summary,
        if missing.len() == 0 {
            "required binaries"@
        } else {
            join_spec(missing, ", "@)
        },
    )
}

fn contains_string(v: &Vec<String>, s: &str) -> (r: bool)
    ensures
        r == views(v@).contains(s@),
{
    let mut i: usize = 0;
    while i < v.len()
        invariant
            i <= v.len(),
            forall|k: int| 0 <= k < i ==> #[trigger] views(v@)[k] != s@,
        decreases v.len() - i,
    {
        if str_eq(v[i].as_str(), s) {
            assert(views(v@)[i as int] == s@);
            return true;
        }
        i = i + 1;
    }
    false
}

/// Id summary and missing-binary summary of skipped entries.
pub fn skipped_requires_summary(skipped: &Vec<SkippedExtension>) -> (r: (String, String))
    ensures
        (r.0@, r.1@) == skipped_summary_spec(skipped_view(skipped@)),
{
    let ghost sk = skipped_view(skipped@);
    let shown: usize = if skipped.len() < 4 {
        skipped.len()
    } else {
        4
    };
    let mut idv: Vec<String> = Vec::new();
    let mut i: usize = 0;
    while i < shown
        invariant
            sk == skipped_view(skipped@),
            shown <= skipped.len(),
            i <= shown,
            views(idv@) == sk.subrange(0, i as int).map_values(|e: (Seq<char>, Seq<Seq<char>>)| e.0),
        decreases shown - i,
    {
        push_owned(&mut idv, skipped[i].id.as_str());
        assert(sk.subrange(0, i + 1).map_values(|e: (Seq<char>, Seq<Seq<char>>)| e.0) =~= sk.subrange(
            0,
            i as int,
        ).map_values(|e: (Seq<char>, Seq<Seq<char>>)| e.0).push(skipped@[i as int].id@));
        i = i + 1;
    }
    let ids = join(&idv, ", ");
    let id_summary = if skipped.len() > 4 {
        let mut t = copy_string(&ids);
        push_str(&mut t, " (+");
        push_decimal(&mut t, (skipped.len() - 4) as u64);
        push_str(&mut t, " more)");
        t
    } else if crate::text::is_empty_str(ids.as_str()) {
        owned("extension")
    } else {
        ids
    };
    let mut missing: Vec<String> = Vec::new();
    let mut k: usize = 0;
    assert(views(missing@) =~= dedup(all_missing(sk.subrange(0, 0))));
    while k < skipped.len()
        invariant
            sk == skipped_view(skipped@),
            k <= skipped.len(),
            views(missing@) == dedup(all_missing(sk.subrange(0, k as int))),
        decreases skipped.len() - k,
    {
        let ghost prev = all_missing(sk.subrange(0, k as int));
        let ghost bins = binaries_view(skipped@[k as int].missing@);
        assert(sk.subrange(0, k + 1).drop_last() =~= sk.subrange(0, k as int));
        assert(sk.subrange(0, k + 1).last().1 == bins);
        let ms = &skipped[k].missing;
        let mut j: usize = 0;
        while j < ms.len()
            invariant
                bins == binaries_view(ms@),
                j <= ms.len(),
                views(missing@) == dedup(prev + bins.subrange(0, j as int)),
            decreases ms.len() - j,
        {
            assert((prev + bins.subrange(0, j + 1)).drop_last() =~= prev + bins.subrange(0, j as int));
            assert((prev + bins.subrange(0, j + 1)).last() == ms@[j as int]@);
            let name = ms[j].as_str();
            if !contains_string(&missing, name) {
                push_owned(&mut missing, name);
            }
            j = j + 1;
        }
        assert(prev + bins.subrange(0, ms.len() as int) =~= prev + bins);
        k = k + 1;
    }
    assert(sk.subrange(0, skipped.len() as int) =~= sk);
    let missing_text = if missing.len() == 0 {
        owned("required binaries")
    } else {
        join(&missing, ", ")
    };
    (id_summary, missing_text)
}

/// The part of an invocation line that a `--help` follows: the words after
/// `wyvern ` up to the first placeholder or flag.
pub open spec fn prefix_from_usage_spec(usage: Seq<char>) -> Seq<char> {
    let u = if starts_with(usage, "wyvern "@) {
        usage.subrange(7, usage.len() as int)
    } else {
        usage
    };
    let ws = words_from(u, 0);
    join_spec(ws.subrange(0, lead_words(ws, 0) as int), " "@)
}

/// Number of leading words (from `i`) that start with none of `<`, `[`, `-`.
pub open spec fn lead_words(ws: Seq<Seq<char>>, i: int) -> nat
    decreases ws.len() - i,
{
    if i < 0 || i >= ws.len() {
        if i > 0 && i <= ws.len() {
            i as nat
        } else {
            0
        }
    } else if starts_with(ws[i], "<"@) || starts_with(ws[i], "["@) || starts_with(ws[i], "-"@) {
        i as nat
    } else {
        lead_words(ws, i + 1)
    }
}

fn prefix_from_usage(usage: &str) -> (r: String)
    ensures
        r@ == prefix_from_usage_spec(usage@),
{
    proof {
        reveal_strlit("wyvern ");
    }
    let u = if str_starts_with(usage, "wyvern ") {
        let c = chars_of(usage);
        substring(&c, 7, c.len())
    } else {
        owned(usage)
    };
    let ws = split_words(u.as_str());
    let ghost wv = views(ws@);
    let mut n: usize = 0;
    while n < ws.len() && !str_starts_with(ws[n].as_str(), "<") && !str_starts_with(
        ws[n].as_str(),
        "[",
    ) && !str_starts_with(ws[n].as_str(), "-")
        invariant
            wv == views(ws@),
            n <= ws.len(),
            lead_words(wv, 0) == lead_words(wv, n as int),
        decreases ws.len() - n,
    {
        n = n + 1;
    }
    let mut taken: Vec<String> = Vec::new();
    let mut k: usize = 0;
    while k < n
        invariant
            wv == views(ws@),
            n <= ws.len(),
            k <= n,
            views(taken@) == wv.subrange(0, k as int),
        decreases n - k,
    {
        push_string(&mut taken, copy_string(&ws[k]));
        assert(wv.subrange(0, k + 1) =~= wv.subrange(0, k as int).push(ws@[k as int]@));
        k = k + 1;
    }
    join(&taken, " ")
}

/// Envelope of a near-miss; `examples[i]` is the example line for the
/// `i`-th skipped entry, when one is known.
pub open spec fn near_miss_envelope(k: NearMissView, examples: Seq<Option<Seq<char>>>) -> EnvelopeView {
    let docs = "docs/wyvern/requirements.md (REQ-0136)"@;
    match k {
        NearMissView::UnknownInput(t) => plain_envelope(
            ErrorCode::ParseError,
            "unknown input '"@ + t + "'"@,
            "No shipped extension matches '"@ + t + "'"@,
            seq![
                "Use a supported suffix such as .md, .html, .csv, or wizard.json"@,
                "Or a prefix such as md <file.csv>, table <file.csv>, or compose render"@,
                "Run wyvern --help to list skills"@,
                "Run wyvern extensions list"@,
            ],
            docs,
        ),
        NearMissView::IncompletePrefix(id, hint) => plain_envelope(
            ErrorCode::ValidationError,
            "incomplete prefix for '"@ + id + "'"@,
            "'"@ + id + "' expects `"@ + hint + "`"@,
            seq![
                "Continue with: wyvern "@ + hint,
                "Run wyvern "@ + hint + " --help"@,
                "Run wyvern --help to list skills"@,
            ],
            docs,
        ),
        NearMissView::BarePrefix(id, usage) => plain_envelope(
            ErrorCode::ValidationError,
            "extension '"@ + id + "' requires a matching path"@,
            "Usage: "@ + usage,
            seq![
                "Pass a path as in: "@ + usage,
                "Run wyvern "@ + prefix_from_usage_spec(usage) + " --help"@,
                "Run wyvern --help to list skills"@,
            ],
            docs,
        ),
        NearMissView::SkippedRequires(path, sk) => {
            let (ids, missing) = skipped_summary_spec(sk);
            plain_envelope(
                ErrorCode::ValidationError,
                "extension(s) '"@ + ids + "' skipped; missing "@ + missing,
                "'"@ + path + "' matched skipped extension(s) but required binaries are not on PATH"@,
                seq!["Install "@ + missing + " and retry"@] + Seq::new(
                    sk.len(),
                    |i: int|
                        "Example ("@ + sk[i].0 + "): "@ + match (if i < examples.len() {
                            examples[i]
                        } else {
                            None
                        }) {
                            Some(e) => e,
                            None => "wyvern "@ + path,
                        },
                ) + seq![
                    "Run wyvern extensions list to see requires"@,
                    "Run wyvern --help to list skills"@,
                ],
                docs,
            )
        },
    }
}

/// Serialize a near-miss as the stderr envelope; `examples[i]` is the
/// example line for the `i`-th skipped entry, when one is known.
#[verifier::loop_isolation(false)]
fn render_near_miss(kind: &NearMissKind, examples: &Vec<Option<String>>) -> (r: Result<
    String,
    EmitError,
>)
    ensures
        r matches Ok(t) && t@ == envelope_text(
            near_miss_envelope(near_miss_view(*kind), examples@.map_values(|e: Option<String>| opt_view(e))),
        ),
{
    let ghost ex = examples@.map_values(|e: Option<String>| opt_view(e));
    let docs = "docs/wyvern/requirements.md (REQ-0136)";
    let e = match kind {
        NearMissKind::UnknownInput { token } => new_envelope(
            ErrorCode::ParseError,
            concat3("unknown input '", token.as_str(), "'"),
            concat3("No shipped extension matches '", token.as_str(), "'"),
            list4(
                "Use a supported suffix such as .md, .html, .csv, or wizard.json",
                "Or a prefix such as md <file.csv>, table <file.csv>, or compose render",
                "Run wyvern --help to list skills",
                "Run wyvern extensions list",
            ),
            docs,
        ),
        NearMissKind::IncompletePrefix { extension_id, hint } => {
            let mut rec: Vec<String> = Vec::new();
            push_string(&mut rec, concat2("Continue with: wyvern ", hint.as_str()));
            push_string(&mut rec, concat3("Run wyvern ", hint.as_str(), " --help"));
            push_owned(&mut rec, "Run wyvern --help to list skills");
            assert(views(rec@) =~= near_miss_envelope(near_miss_view(*kind), ex).recovery);
            let mut cause = concat3("'", extension_id.as_str(), "' expects `");
            push_str(&mut cause, hint.as_str());
            push_str(&mut cause, "`");
            new_envelope(
                ErrorCode::ValidationError,
                concat3("incomplete prefix for '", extension_id.as_str(), "'"),
                cause,
                rec,
                docs,
            )
        },
        NearMissKind::BarePrefix { extension_id, usage } => {
            let p = prefix_from_usage(usage.as_str());
            let mut rec: Vec<String> = Vec::new();
            push_string(&mut rec, concat2("Pass a path as in: ", usage.as_str()));
            push_string(&mut rec, concat3("Run wyvern ", p.as_str(), " --help"));
            push_owned(&mut rec, "Run wyvern --help to list skills");
            assert(views(rec@) =~= near_miss_envelope(near_miss_view(*kind), ex).recovery);
            new_envelope(
                ErrorCode::ValidationError,
                concat3("extension '", extension_id.as_str(), "' requires a matching path"),
                concat2("Usage: ", usage.as_str()),
                rec,
                docs,
            )
        },
        NearMissKind::SkippedRequires { path, skipped } => {
            let ghost sk = skipped_view(skipped@);
            let (ids, missing) = skipped_requires_summary(skipped);
            let mut rec: Vec<String> = Vec::new();
            push_string(&mut rec, concat3("Install ", missing.as_str(), " and retry"));
            let ghost head = views(rec@);
            let ghost mid = Seq::new(
                sk.len(),
                |i: int|
                    "Example ("@ + sk[i].0 + "): "@ + match (if i < ex.len() {
                        ex[i]
                    } else {
                        None
                    }) {
                        Some(e) => e,
                        None => "wyvern "@ + path@,
                    },
            );
            let mut i: usize = 0;
            while i < skipped.len()
                invariant
                    sk == skipped_view(skipped@),
                    ex == examples@.map_values(|e: Option<String>| opt_view(e)),
                    i <= skipped.len(),
                    views(rec@) == head + mid.subrange(0, i as int),
                decreases skipped.len() - i,
            {
                let example = if i < examples.len() {
                    match &examples[i] {
                        Some(e) => copy_string(e),
                        None => concat2("wyvern ", path.as_str()),
                    }
                } else {
                    concat2("wyvern ", path.as_str())
                };
                let mut line = concat3("Example (", skipped[i].id.as_str(), "): ");
                push_str(&mut line, example.as_str());
                assert(sk[i as int].0 == skipped@[i as int].id@);
                assert(i < examples.len() ==> ex[i as int] == opt_view(examples@[i as int]));
                assert(line@ == mid[i as int]);
                push_string(&mut rec, line);
                assert(head + mid.subrange(0, i + 1) =~= (head + mid.subrange(0, i as int)).push(
                    mid[i as int],
                ));
                i = i + 1;
            }
            assert(mid.subrange(0, skipped.len() as int) =~= mid);
            push_owned(&mut rec, "Run wyvern extensions list to see requires");
            push_owned(&mut rec, "Run wyvern --help to list skills");
            assert(views(rec@) =~= near_miss_envelope(near_miss_view(*kind), ex).recovery);
            let mut message = concat3("extension(s) '", ids.as_str(), "' skipped; missing ");
            push_str(&mut message, missing.as_str());
            new_envelope(
                ErrorCode::ValidationError,
                message,
                concat3(
                    "'",
                    path.as_str(),
                    "' matched skipped extension(s) but required binaries are not on PATH",
                ),
                rec,
                docs,
            )
        },
    };
    envelope_to_json(&e)
}

/// Remainder of the first of `lines` that starts with `p`.
pub open spec fn first_prefixed(lines: Seq<Seq<char>>, p: Seq<char>) -> Option<Seq<char>> {
    if exists|k: int| 0 <= k < lines.len() && starts_with(#[trigger] lines[k], p) {
        let k = choose|k: int|
            0 <= k < lines.len() && starts_with(#[trigger] lines[k], p) && forall|j: int|
                0 <= j < k ==> !starts_with(#[trigger] lines[j], p);
        Some(lines[k].subrange(p.len() as int, lines[k].len() as int))
    } else {
        None
    }
}

/// Remainder of the first line of `text` that starts with `prefix`.
pub fn first_line_with_prefix(text: &str, prefix: &str) -> (r: Option<String>)
    ensures
        opt_view(r) == first_prefixed(crate::text::lines_from(text@, 0), prefix@),
{
    let lines = crate::text::split_lines(text);
    let ghost lv = views(lines@);
    let mut i: usize = 0;
    while i < lines.len()
        invariant
            lv == views(lines@),
            lv == crate::text::lines_from(text@, 0),
            i <= lines.len(),
            forall|j: int| 0 <= j < i ==> !starts_with(#[trigger] lv[j], prefix@),
        decreases lines.len() - i,
    {
        if str_starts_with(lines[i].as_str(), prefix) {
            proof {
                assert(starts_with(lv[i as int], prefix@));
                let c = choose|c: int|
                    0 <= c < lv.len() && starts_with(#[trigger] lv[c], prefix@) && forall|j: int|
                        0 <= j < c ==> !starts_with(#[trigger] lv[j], prefix@);
                assert(0 <= c < lv.len() && starts_with(lv[c], prefix@) && forall|j: int|
                    0 <= j < c ==> !starts_with(#[trigger] lv[j], prefix@));
                if c < i as int {
                    assert(!starts_with(lv[c], prefix@));
                }
                if c > i as int {
                    assert(!starts_with(lv[i as int], prefix@));
                }
                assert(c == i as int);
                assert(first_prefixed(lv, prefix@) == Some(
                    lv[i as int].subrange(prefix@.len() as int, lv[i as int].len() as int),
                ));
            }
            let lc = chars_of(lines[i].as_str());
            let pc = chars_of(prefix);
            return Some(substring(&lc, pc.len(), lc.len()));
        }
        i = i + 1;
    }
    None
}

/// Example line of a skill for near-miss recovery: the `Example: ` line of
/// its card, else its first example, else its invocation.
pub fn skill_example_from(record: &SkillRecord, card: &str) -> (r: String)
    ensures
        r@ == match first_prefixed(crate::text::lines_from(card@, 0), "Example: "@) {
            Some(l) => l,
            None => if record@.examples.len() > 0 {
                record@.examples[0]
            } else {
                record@.invocation
            },
        },
{
    match first_line_with_prefix(card, "Example: ") {
        Some(l) => l,
        None => if record.examples.len() > 0 {
            copy_string(&record.examples[0])
        } else {
            copy_string(&record.invocation)
        },
    }
}

/// The example line of an entry's skill card: the card's `Example:` line,
/// else the record's first example, else its invocation.
pub open spec fn entry_example<P: RequiresProbe>(d: ExtensionDef, probe: P, file: CommandFileType) -> Seq<char> {
    let rec = record_spec(d, probe, file);
    match first_prefixed(crate::text::lines_from(card_text(rec), 0), "Example: "@) {
        Some(l) => l,
        None => if rec.examples.len() > 0 {
            rec.examples[0]
        } else {
            rec.invocation
        },
    }
}

/// The example line for extension `id` among `entries` (the first entry with
/// that id; `files[k]` is what was read of entry `k`'s command file), or
/// `None` when no entry has that id.
pub open spec fn skill_example_spec<P: RequiresProbe>(
    entries: Seq<ExtensionDef>,
    probe: P,
    files: Seq<CommandFileType>,
    id: Seq<char>,
) -> Option<Seq<char>> {
    match index_of_id(defs_view(entries), id) {
        Some(k) => Some(entry_example(entries[k], probe, files[k])),
        None => None,
    }
}

/// The example line for extension `id` in the shipped registry.
pub fn skill_example_line<P: RequiresProbe>(
    shipped: &ExtensionRegistry,
    probe: &P,
    files: &Vec<CommandFileType>,
    id: &str,
) -> (r: Option<String>)
    requires
        files@.len() == shipped@.len(),
    ensures
        opt_view(r) == skill_example_spec(shipped.spec_entries(), *probe, files@, id@),
{
    let exts = shipped.extensions();
    let ghost dv = defs_view(exts@);
    proof {
        lemma_index_of_id(dv, id@);
        shipped.lemma_view_entries();
    }
    let mut i: usize = 0;
    while i < exts.len()
        invariant
            exts@ == shipped.spec_entries(),
            dv == defs_view(exts@),
            files@.len() == exts@.len(),
            i <= exts.len(),
            forall|k: int| 0 <= k < i ==> #[trigger] dv[k].id != id@,
            match index_of_id(dv, id@) {
                Some(m) => 0 <= m < dv.len() && dv[m].id == id@ && forall|k: int|
                    0 <= k < m ==> #[trigger] dv[k].id != id@,
                None => forall|k: int| 0 <= k < dv.len() ==> #[trigger] dv[k].id != id@,
            },
        decreases exts.len() - i,
    {
        assert(dv[i as int].id == exts@[i as int].id@);
        if str_eq(exts[i].id.as_str(), id) {
            let record = build_skill_record(&exts[i], probe, &files[i]);
            let card = format_skill_card(&record);
            return Some(skill_example_from(&record, card.as_str()));
        }
        i = i + 1;
    }
    None
}

/// Example lines for the skipped entries of a near-miss, one per entry in
/// order (none for other kinds of near-miss).
pub open spec fn near_miss_examples<P: RequiresProbe>(
    k: NearMissKind,
    entries: Seq<ExtensionDef>,
    probe: P,
    files: Seq<CommandFileType>,
) -> Seq<Option<Seq<char>>> {
    match k {
        NearMissKind::SkippedRequires { skipped, .. } => Seq::new(
            skipped@.len(),
            |i: int| skill_example_spec(entries, probe, files, skipped@[i].id@),
        ),
        _ => Seq::empty(),
    }
}

/// Serialize a near-miss as the stderr envelope. Each skipped extension's
/// recovery step shows the example line of its card in the `shipped`
/// registry (`files[k]` is what was read of entry `k`'s command file, and
/// `probe` says which binaries are on `PATH`), or `wyvern <path>` when the
/// shipped registry has no entry with its id.
pub fn emit_near_miss<P: RequiresProbe>(
    kind: &NearMissKind,
    shipped: &ExtensionRegistry,
    probe: &P,
    files: &Vec<CommandFileType>,
) -> (r: Result<String, EmitError>)
    requires
        files@.len() == shipped@.len(),
    ensures
        r matches Ok(t) && t@ == envelope_text(
            near_miss_envelope(
                near_miss_view(*kind),
                near_miss_examples(*kind, shipped.spec_entries(), *probe, files@),
            ),
        ),
{
    let mut examples: Vec<Option<String>> = Vec::new();
    if let NearMissKind::SkippedRequires { skipped, .. } = kind {
        let ghost want = near_miss_examples(*kind, shipped.spec_entries(), *probe, files@);
        let mut i: usize = 0;
        while i < skipped.len()
            invariant
                files@.len() == shipped@.len(),
                want == near_miss_examples(*kind, shipped.spec_entries(), *probe, files@),
                *kind matches NearMissKind::SkippedRequires { skipped: sk, .. } && sk == *skipped,
                i <= skipped.len(),
                examples@.map_values(|e: Option<String>| opt_view(e)) == want.subrange(0, i as int),
            decreases skipped.len() - i,
        {
            let ghost before = examples@.map_values(|e: Option<String>| opt_view(e));
            let e = skill_example_line(shipped, probe, files, skipped[i].id.as_str());
            examples.push(e);
            assert(examples@.map_values(|e: Option<String>| opt_view(e)) =~= before.push(want[i as int]));
            assert(want.subrange(0, i + 1) =~= want.subrange(0, i as int).push(want[i as int]));
            i = i + 1;
        }
        assert(want.subrange(0, skipped.len() as int) =~= want);
    } else {
        assert(examples@.map_values(|e: Option<String>| opt_view(e)) =~= near_miss_examples(
            *kind,
            shipped.spec_entries(),
            *probe,
            files@,
        ));
    }
    render_near_miss(kind, &examples)
}

} // verus!
