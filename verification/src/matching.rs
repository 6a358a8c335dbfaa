//! Argv matching against registry entries: suffix, filename and prefix
//! rules, `--help` prefix matching, and the first-match walk that skips
//! entries whose required binaries are absent.

use vstd::prelude::*;

use crate::ids::{BinaryName, ExtensionId};
use crate::loader::ExtensionRegistry;
use crate::registry::{
    binaries_view, copy_binaries, defs_view, opt_view, spec_requires, tokens_view, DefView,
    ExtensionDef, MatchSpec, MatchView,
};
use crate::text::{
    chars_of, concat2, ends_with_ci, ends_with_ci_chars, join_spec, owned, push_str, str_eq,
    views,
};

verus! {

/// The final component of a path, as std's `Path::file_name` computes it
/// (`None` for a path that ends in `..` or has no final component).
pub uninterp spec fn path_file_name(path: Seq<char>) -> Option<Seq<char>>;

/// Index of the last `.` in `name`, if any.
pub open spec fn last_dot(name: Seq<char>) -> Option<int>
    decreases name.len(),
{
    if name.len() == 0 {
        None
    } else if name.last() == '.' {
        Some(name.len() - 1)
    } else {
        last_dot(name.drop_last())
    }
}

/// Where a file name splits into stem and extension, as std documents it:
/// at its last `.`, unless there is none or the only one begins the name.
pub open spec fn stem_split(name: Seq<char>) -> Option<int> {
    match last_dot(name) {
        Some(k) => if k > 0 {
            Some(k)
        } else {
            None
        },
        None => None,
    }
}

/// Calls `std::path::Path::file_name` on `path`; the result is converted to a
/// `String` (a `&str` path always has a UTF-8 final component).
#[verifier::external_body]
pub(crate) fn file_name_of(path: &str) -> (r: Option<String>)
    ensures
        opt_view(r) == path_file_name(path@),
{
    std::path::Path::new(path).file_name().and_then(|n| n.to_str()).map(|n| n.to_string())
}

/// Whether `token` ends with `suffix`, ASCII case-insensitively.
pub fn ends_with_suffix(token: &str, suffix: &str) -> (r: bool)
    ensures
        r == ends_with_ci(token@, suffix@),
{
    let t = chars_of(token);
    let s = chars_of(suffix);
    ends_with_ci_chars(&t, &s)
}

/// How an argv matched one entry.
pub enum MatchKind {
    /// Single positional suffix or exact filename; the matched path token.
    Suffix { path: Seq<char> },
    /// Prefix only; the tokens after the prefix.
    Prefix { rest: Seq<Seq<char>> },
    /// Prefix plus a suffix-matching path token among the tokens after it.
    PrefixSuffix { path: Seq<char>, rest: Seq<Seq<char>> },
}

/// `argv` starts with the tokens of `prefix`.
pub open spec fn prefix_matches(prefix: Seq<Seq<char>>, argv: Seq<Seq<char>>) -> bool {
    prefix.len() <= argv.len() && forall|k: int| 0 <= k < prefix.len() ==> #[trigger] prefix[k] == argv[k]
}

/// Index of the first token of `rest` that ends with `suffix`.
pub open spec fn first_with_suffix(rest: Seq<Seq<char>>, suffix: Seq<char>) -> Option<int> {
    if exists|i: int| 0 <= i < rest.len() && ends_with_ci(#[trigger] rest[i], suffix) {
        Some(
            choose|i: int|
                0 <= i < rest.len() && ends_with_ci(#[trigger] rest[i], suffix) && forall|k: int|
                    0 <= k < i ==> !ends_with_ci(#[trigger] rest[k], suffix),
        )
    } else {
        None
    }
}

proof fn lemma_first_with_suffix(rest: Seq<Seq<char>>, suffix: Seq<char>, i: int)
    requires
        0 <= i < rest.len(),
        ends_with_ci(rest[i], suffix),
        forall|k: int| 0 <= k < i ==> !ends_with_ci(#[trigger] rest[k], suffix),
    ensures
        first_with_suffix(rest, suffix) == Some(i),
{
    let j = choose|j: int|
        0 <= j < rest.len() && ends_with_ci(#[trigger] rest[j], suffix) && forall|k: int|
            0 <= k < j ==> !ends_with_ci(#[trigger] rest[k], suffix);
    assert(0 <= j < rest.len() && ends_with_ci(rest[j], suffix) && forall|k: int|
        0 <= k < j ==> !ends_with_ci(#[trigger] rest[k], suffix));
    if j < i {
        assert(!ends_with_ci(rest[j], suffix));
    }
    if j > i {
        assert(!ends_with_ci(rest[i], suffix));
    }
}

/// Match rule of a single positional token: an exact file name when a
/// `filename` is set, otherwise a `positional_suffix`.
pub open spec fn single_token_match(m: MatchView, token: Seq<char>) -> bool {
    match m.filename {
        Some(f) => path_file_name(token) == Some(f),
        None => match m.positional_suffix {
            Some(s) => ends_with_ci(token, s),
            None => false,
        },
    }
}

/// How `argv` matches the rule `m`, if it does.
pub open spec fn match_rule(m: MatchView, argv: Seq<Seq<char>>) -> Option<MatchKind> {
    match m.argv_prefix {
        Some(prefix) => if !prefix_matches(prefix, argv) {
            None
        } else {
            let rest = argv.subrange(prefix.len() as int, argv.len() as int);
            match m.arg_suffix {
                Some(sfx) => match first_with_suffix(rest, sfx) {
                    Some(i) => Some(MatchKind::PrefixSuffix { path: rest[i], rest }),
                    None => None,
                },
                None => Some(MatchKind::Prefix { rest }),
            }
        },
        None => if argv.len() == 1 && single_token_match(m, argv[0]) {
            Some(MatchKind::Suffix { path: argv[0] })
        } else {
            None
        },
    }
}

/// A filename rule (without an argv prefix) matches a single token exactly
/// when the token's final path component is the filename, whatever
/// directories come before it; the match carries the whole token as its
/// path. Any other argv length never matches such a rule.
pub proof fn lemma_filename_rule_matches_final_component(m: MatchView, argv: Seq<Seq<char>>)
    requires
        m.argv_prefix is None,
        m.filename is Some,
    ensures
        argv.len() == 1 && path_file_name(argv[0]) == m.filename ==> match_rule(m, argv) == Some(
            MatchKind::Suffix { path: argv[0] },
        ),
        !(argv.len() == 1 && path_file_name(argv[0]) == m.filename) ==> match_rule(m, argv) is None,
{
}

/// Whether a filename rule matches a single token depends only on the
/// token's final path component: two tokens with the same final component
/// (say `wizard.json` and `path/to/wizard.json`) both match or both do not.
pub proof fn lemma_filename_rule_ignores_directories(m: MatchView, t1: Seq<char>, t2: Seq<char>)
    requires
        m.argv_prefix is None,
        m.filename is Some,
        path_file_name(t1) == path_file_name(t2),
    ensures
        (match_rule(m, seq![t1]) is Some) == (match_rule(m, seq![t2]) is Some),
{
    lemma_filename_rule_matches_final_component(m, seq![t1]);
    lemma_filename_rule_matches_final_component(m, seq![t2]);
}

/// Successful argv match against one extension.
#[derive(Debug)]
pub enum ExtensionMatch<'a> {
    /// Single positional suffix or exact filename.
    Suffix {
        /// Matched extension.
        ext: &'a ExtensionDef,
        /// Matched file path token.
        path: &'a str,
    },
    /// Prefix-only (for example `compose render --root ...`).
    Prefix {
        /// Matched extension.
        ext: &'a ExtensionDef,
        /// Tokens after the prefix.
        args_after_prefix: &'a [String],
    },
    /// Prefix plus a suffix-matching path token.
    PrefixSuffix {
        /// Matched extension.
        ext: &'a ExtensionDef,
        /// Matched file path token.
        path: &'a str,
        /// Tokens after the prefix (includes the path).
        args_after_prefix: &'a [String],
    },
}

/// The extension of a match.
pub open spec fn match_ext<'a>(m: ExtensionMatch<'a>) -> ExtensionDef {
    match m {
        ExtensionMatch::Suffix { ext, .. } => *ext,
        ExtensionMatch::Prefix { ext, .. } => *ext,
        ExtensionMatch::PrefixSuffix { ext, .. } => *ext,
    }
}

/// The mathematical kind of a match.
pub open spec fn match_kind<'a>(m: ExtensionMatch<'a>) -> MatchKind {
    match m {
        ExtensionMatch::Suffix { path, .. } => MatchKind::Suffix { path: path@ },
        ExtensionMatch::Prefix { args_after_prefix, .. } => MatchKind::Prefix {
            rest: views(args_after_prefix@),
        },
        ExtensionMatch::PrefixSuffix { path, args_after_prefix, .. } => MatchKind::PrefixSuffix {
            path: path@,
            rest: views(args_after_prefix@),
        },
    }
}

/// The path token of a match kind, if it has one.
pub open spec fn kind_path(k: MatchKind) -> Option<Seq<char>> {
    match k {
        MatchKind::Suffix { path } => Some(path),
        MatchKind::Prefix { .. } => None,
        MatchKind::PrefixSuffix { path, .. } => Some(path),
    }
}

/// The tokens after the prefix of a match kind (empty for suffix matches).
pub open spec fn kind_rest(k: MatchKind) -> Seq<Seq<char>> {
    match k {
        MatchKind::Suffix { .. } => Seq::empty(),
        MatchKind::Prefix { rest } => rest,
        MatchKind::PrefixSuffix { rest, .. } => rest,
    }
}

impl<'a> ExtensionMatch<'a> {
    /// Extension that matched.
    pub fn extension(&self) -> (r: &'a ExtensionDef)
        ensures
            *r == match_ext(*self),
    {
        match self {
            ExtensionMatch::Suffix { ext, .. } => ext,
            ExtensionMatch::Prefix { ext, .. } => ext,
            ExtensionMatch::PrefixSuffix { ext, .. } => ext,
        }
    }

    /// Matched file path, if this match kind has one.
    pub fn path(&self) -> (r: Option<&'a str>)
        ensures
            match r {
                Some(p) => kind_path(match_kind(*self)) == Some(p@),
                None => kind_path(match_kind(*self)) is None,
            },
    {
        match self {
            ExtensionMatch::Suffix { path, .. } => Some(*path),
            ExtensionMatch::PrefixSuffix { path, .. } => Some(*path),
            ExtensionMatch::Prefix { .. } => None,
        }
    }

    /// Tokens after an argv prefix (empty for suffix-only matches).
    pub fn args_after_prefix(&self) -> (r: &'a [String])
        ensures
            views(r@) == kind_rest(match_kind(*self)),
    {
        match self {
            ExtensionMatch::Prefix { args_after_prefix, .. } => args_after_prefix,
            ExtensionMatch::PrefixSuffix { args_after_prefix, .. } => args_after_prefix,
            ExtensionMatch::Suffix { .. } => {
                let empty: &[String] = &[];
                assert(views(empty@) =~= Seq::<Seq<char>>::empty());
                empty
            },
        }
    }
}

/// Whether `argv` starts with the tokens of `prefix`.
fn prefix_matches_exec(prefix: &Vec<crate::ids::MatchToken>, argv: &[String]) -> (r: bool)
    ensures
        r == prefix_matches(tokens_view(prefix@), views(argv@)),
{
    if argv.len() < prefix.len() {
        return false;
    }
    let mut k: usize = 0;
    while k < prefix.len()
        invariant
            prefix.len() <= argv.len(),
            k <= prefix.len(),
            forall|j: int| 0 <= j < k ==> #[trigger] tokens_view(prefix@)[j] == views(argv@)[j],
        decreases prefix.len() - k,
    {
        if !str_eq(prefix[k].as_str(), argv[k].as_str()) {
            assert(tokens_view(prefix@)[k as int] != views(argv@)[k as int]);
            return false;
        }
        k = k + 1;
    }
    true
}

/// Whether a single positional token matches `spec` (filename or suffix rule).
fn single_token_matches(spec: &MatchSpec, token: &str) -> (r: bool)
    ensures
        r == single_token_match(spec@, token@),
{
    match &spec.filename {
        Some(filename) => match file_name_of(token) {
            Some(base) => str_eq(base.as_str(), filename.as_str()),
            None => false,
        },
        None => match &spec.positional_suffix {
            Some(suffix) => ends_with_suffix(token, suffix.as_str()),
            None => false,
        },
    }
}

impl ExtensionDef {
    /// Match `argv` against this entry's match rule.
    #[verifier::loop_isolation(false)]
    pub fn match_spec_argv<'a>(&'a self, argv: &'a [String]) -> (r: Option<ExtensionMatch<'a>>)
        ensures
            match r {
                Some(m) => match_ext(m) == *self && match_rule(self.match_spec@, views(argv@))
                    == Some(match_kind(m)),
                None => match_rule(self.match_spec@, views(argv@)) is None,
            },
    {
        let spec = &self.match_spec;
        let ghost av = views(argv@);
        match &spec.argv_prefix {
            Some(prefix) => {
                if !prefix_matches_exec(prefix, argv) {
                    return None;
                }
                let (_, rest) = argv.split_at(prefix.len());
                let ghost rv = av.subrange(prefix.len() as int, av.len() as int);
                assert(views(rest@) =~= rv);
                match &spec.arg_suffix {
                    Some(suffix) => {
                        let mut i: usize = 0;
                        while i < rest.len()
                            invariant
                                rv == views(rest@),
                                i <= rest.len(),
                                forall|k: int|
                                    0 <= k < i ==> !ends_with_ci(#[trigger] rv[k], suffix@),
                            decreases rest.len() - i,
                        {
                            if ends_with_suffix(rest[i].as_str(), suffix.as_str()) {
                                proof {
                                    lemma_first_with_suffix(rv, suffix@, i as int);
                                    assert(rv[i as int] == rest@[i as int]@);
                                }
                                return Some(
                                    ExtensionMatch::PrefixSuffix {
                                        ext: self,
                                        path: rest[i].as_str(),
                                        args_after_prefix: rest,
                                    },
                                );
                            }
                            i = i + 1;
                        }
                        None
                    },
                    None => Some(ExtensionMatch::Prefix { ext: self, args_after_prefix: rest }),
                }
            },
            None => {
                if argv.len() != 1 {
                    return None;
                }
                let token = argv[0].as_str();
                if single_token_matches(spec, token) {
                    Some(ExtensionMatch::Suffix { ext: self, path: token })
                } else {
                    None
                }
            },
        }
    }
}

/// Every token is `--help` or `-h`, and there is at least one.
pub open spec fn help_only(tokens: Seq<Seq<char>>) -> bool {
    tokens.len() > 0 && forall|k: int|
        0 <= k < tokens.len() ==> #[trigger] tokens[k] == "--help"@ || tokens[k] == "-h"@
}

/// Returns whether every token is `--help` or `-h` (and at least one is present).
pub fn is_help_only_tokens(tokens: &[String]) -> (r: bool)
    ensures
        r == help_only(views(tokens@)),
{
    if tokens.len() == 0 {
        return false;
    }
    let mut k: usize = 0;
    while k < tokens.len()
        invariant
            k <= tokens.len(),
            forall|j: int|
                0 <= j < k ==> #[trigger] views(tokens@)[j] == "--help"@ || views(tokens@)[j]
                    == "-h"@,
        decreases tokens.len() - k,
    {
        let t = tokens[k].as_str();
        if !str_eq(t, "--help") && !str_eq(t, "-h") {
            assert(views(tokens@)[k as int] == t@);
            return false;
        }
        k = k + 1;
    }
    true
}

/// Length of the argv prefix an entry claims for `--help`: its non-empty
/// argv prefix, when argv begins with it and only help flags follow.
pub open spec fn prefix_help(d: DefView, argv: Seq<Seq<char>>) -> Option<nat> {
    match d.match_spec.argv_prefix {
        Some(prefix) => if prefix.len() > 0 && prefix_matches(prefix, argv) && help_only(
            argv.subrange(prefix.len() as int, argv.len() as int),
        ) {
            Some(prefix.len())
        } else {
            None
        },
        None => None,
    }
}

/// A filename/suffix entry (no argv prefix) claims the first token for
/// `--help`, when only help flags follow it.
pub open spec fn file_help(d: DefView, argv: Seq<Seq<char>>) -> bool {
    d.match_spec.argv_prefix is None && argv.len() >= 1 && single_token_match(d.match_spec, argv[0])
        && help_only(argv.subrange(1, argv.len() as int))
}

/// Among the first `n` entries, the prefix entry with the longest help claim
/// (the first of those on ties): (index, claimed length).
pub open spec fn best_prefix_help(exts: Seq<DefView>, argv: Seq<Seq<char>>, n: nat) -> Option<(int, nat)>
    decreases n,
{
    if n == 0 {
        None
    } else {
        let prev = best_prefix_help(exts, argv, (n - 1) as nat);
        match prefix_help(exts[n - 1], argv) {
            Some(len) => match prev {
                Some((i, best_len)) => if len > best_len {
                    Some(((n - 1) as int, len))
                } else {
                    prev
                },
                None => Some(((n - 1) as int, len)),
            },
            None => prev,
        }
    }
}

/// Among the first `n` entries, the first filename/suffix entry that claims
/// the first token for `--help`.
pub open spec fn first_file_help(exts: Seq<DefView>, argv: Seq<Seq<char>>, n: nat) -> Option<int>
    decreases n,
{
    if n == 0 {
        None
    } else {
        match first_file_help(exts, argv, (n - 1) as nat) {
            Some(i) => Some(i),
            None => if file_help(exts[n - 1], argv) {
                Some((n - 1) as int)
            } else {
                None
            },
        }
    }
}

/// The entry an argv asking for help selects: the prefix entry with the
/// longest claim (the first on ties); only when no prefix entry claims the
/// argv, the first filename/suffix entry that claims its first token.
pub open spec fn help_choice(exts: Seq<DefView>, argv: Seq<Seq<char>>) -> Option<int> {
    match best_prefix_help(exts, argv, exts.len()) {
        Some((i, _)) => Some(i),
        None => first_file_help(exts, argv, exts.len()),
    }
}

/// Match an extension whose claimed leading tokens are followed only by
/// `--help` / `-h`: a prefix entry when one claims the argv (the longest
/// prefix wins), else a filename/suffix entry claiming the first token.
/// Ignores `preexec.requires` and does not require an `arg_suffix` path token.
pub fn match_extension_help<'a>(registry: &'a ExtensionRegistry, argv: &'a [String]) -> (r: Option<
    &'a ExtensionDef,
>)
    ensures
        match r {
            Some(ext) => help_choice(registry@, views(argv@)) matches Some(i) && 0 <= i
                < registry@.len() && ext@ == registry@[i],
            None => help_choice(registry@, views(argv@)) is None,
        },
{
    let exts = registry.extensions();
    let ghost ev = defs_view(exts@);
    let ghost av = views(argv@);
    let mut best: Option<(&'a ExtensionDef, usize)> = None;
    let mut file: Option<&'a ExtensionDef> = None;
    let mut i: usize = 0;
    while i < exts.len()
        invariant
            ev == defs_view(exts@),
            ev == registry@,
            av == views(argv@),
            i <= exts.len(),
            match best {
                Some((e, len)) => best_prefix_help(ev, av, i as nat) matches Some((j, bl)) && bl
                    == len && 0 <= j < i && e@ == ev[j],
                None => best_prefix_help(ev, av, i as nat) is None,
            },
            match file {
                Some(e) => first_file_help(ev, av, i as nat) matches Some(j) && 0 <= j < i && e@
                    == ev[j],
                None => first_file_help(ev, av, i as nat) is None,
            },
        decreases exts.len() - i,
    {
        let ext = &exts[i];
        assert(ev[i as int] == ext@);
        let spec = &ext.match_spec;
        match &spec.argv_prefix {
            Some(prefix) => {
                assert(tokens_view(prefix@).len() == prefix@.len());
                if prefix.len() > 0 && prefix_matches_exec(prefix, argv) {
                    let n = prefix.len();
                    let (_, rest) = argv.split_at(n);
                    assert(views(rest@) =~= av.subrange(n as int, av.len() as int));
                    if is_help_only_tokens(rest) {
                        let better = match best {
                            Some((_, best_len)) => n > best_len,
                            None => true,
                        };
                        if better {
                            best = Some((ext, n));
                        }
                    }
                }
            },
            None => {
                if file.is_none() && argv.len() >= 1 && single_token_matches(spec, argv[0].as_str()) {
                    let (_, rest) = argv.split_at(1);
                    assert(views(rest@) =~= av.subrange(1, av.len() as int));
                    if is_help_only_tokens(rest) {
                        file = Some(ext);
                    }
                }
            },
        }
        i = i + 1;
    }
    match best {
        Some((e, _)) => Some(e),
        None => file,
    }
}

/// One-line description of a match rule.
pub open spec fn match_kind_text(m: MatchView) -> Seq<char> {
    match m.argv_prefix {
        Some(prefix) => match m.arg_suffix {
            Some(s) => "prefix+suffix: "@ + join_spec(prefix, " "@) + " "@ + s,
            None => "prefix: "@ + join_spec(prefix, " "@),
        },
        None => match m.filename {
            Some(f) => "filename: "@ + f,
            None => match m.positional_suffix {
                Some(s) => "suffix: "@ + s,
                None => "match: (none)"@,
            },
        },
    }
}

/// Space-joined argv prefix tokens.
fn join_tokens(prefix: &Vec<crate::ids::MatchToken>) -> (r: String)
    ensures
        r@ == join_spec(tokens_view(prefix@), " "@),
{
    let ghost tv = tokens_view(prefix@);
    let mut r = String::new();
    let mut i: usize = 0;
    while i < prefix.len()
        invariant
            tv == tokens_view(prefix@),
            i <= prefix.len(),
            r@ == join_spec(tv.subrange(0, i as int), " "@),
        decreases prefix.len() - i,
    {
        assert(tv.subrange(0, i + 1).drop_last() =~= tv.subrange(0, i as int));
        if i > 0 {
            push_str(&mut r, " ");
        } else {
            assert(r@ =~= Seq::<char>::empty());
        }
        push_str(&mut r, prefix[i].as_str());
        i = i + 1;
        assert(r@ =~= join_spec(tv.subrange(0, i as int), " "@));
    }
    assert(tv.subrange(0, prefix.len() as int) =~= tv);
    r
}

/// Space-joined argv prefix tokens.
pub fn join_tokens_pub(prefix: &Vec<crate::ids::MatchToken>) -> (r: String)
    ensures
        r@ == join_spec(tokens_view(prefix@), " "@),
{
    join_tokens(prefix)
}

/// Short human-readable description of a match rule (for listings).
pub fn match_kind_summary(spec: &MatchSpec) -> (r: String)
    ensures
        r@ == match_kind_text(spec@),
{
    match &spec.argv_prefix {
        Some(prefix) => {
            let prefix_s = join_tokens(prefix);
            match &spec.arg_suffix {
                Some(suffix) => {
                    let mut r = concat2("prefix+suffix: ", prefix_s.as_str());
                    push_str(&mut r, " ");
                    push_str(&mut r, suffix.as_str());
                    r
                },
                None => concat2("prefix: ", prefix_s.as_str()),
            }
        },
        None => match &spec.filename {
            Some(f) => concat2("filename: ", f.as_str()),
            None => match &spec.positional_suffix {
                Some(s) => concat2("suffix: ", s.as_str()),
                None => owned("match: (none)"),
            },
        },
    }
}

/// Where required binaries are looked up.
pub trait RequiresProbe {
    /// Whether `name` is an executable on the search path, as this probe sees it.
    spec fn on_path(&self, name: Seq<char>) -> bool;

    /// Return true when `name` is found.
    fn binary_on_path(&self, name: &str) -> (r: bool)
        ensures
            r == self.on_path(name@),
    ;
}

/// The result of a `PATH` lookup made beforehand: the binaries found there.
pub struct PathRequiresProbe {
    /// Names of the binaries that the lookup found.
    pub found: Vec<String>,
}

impl RequiresProbe for PathRequiresProbe {
    open spec fn on_path(&self, name: Seq<char>) -> bool {
        views(self.found@).contains(name)
    }

    fn binary_on_path(&self, name: &str) -> (r: bool) {
        let mut i: usize = 0;
        while i < self.found.len()
            invariant
                i <= self.found.len(),
                forall|k: int| 0 <= k < i ==> #[trigger] views(self.found@)[k] != name@,
            decreases self.found.len() - i,
        {
            if str_eq(self.found[i].as_str(), name) {
                assert(views(self.found@)[i as int] == name@);
                return true;
            }
            i = i + 1;
        }
        false
    }
}

/// Required binaries that `probe` does not find, in order.
pub open spec fn missing_spec<P: RequiresProbe>(reqs: Seq<Seq<char>>, probe: P) -> Seq<Seq<char>>
    decreases reqs.len(),
{
    if reqs.len() == 0 {
        Seq::empty()
    } else {
        let m = missing_spec(reqs.drop_last(), probe);
        if probe.on_path(reqs.last()) {
            m
        } else {
            m.push(reqs.last())
        }
    }
}

/// An extension that matched argv but was skipped for missing binaries.
#[derive(Debug)]
pub struct SkippedExtension {
    /// Extension id.
    pub id: ExtensionId,
    /// Missing `preexec.requires` binary names.
    pub missing: Vec<BinaryName>,
}

/// Match result plus extensions skipped for missing `requires`.
#[derive(Debug)]
pub struct MatchOutcome<'a> {
    /// First matching extension after `requires` filtering.
    pub matched: Option<ExtensionMatch<'a>>,
    /// Candidates that matched argv but had missing binaries.
    pub skipped: Vec<SkippedExtension>,
}

/// State of the first-match walk after the first `n` entries: the index and
/// kind of the match found, and the (id, missing binaries) of each skipped entry.
pub open spec fn walk_spec<P: RequiresProbe>(
    exts: Seq<DefView>,
    argv: Seq<Seq<char>>,
    probe: P,
    n: nat,
) -> (Option<(int, MatchKind)>, Seq<(Seq<char>, Seq<Seq<char>>)>)
    decreases n,
{
    if n == 0 {
        (None, Seq::empty())
    } else {
        let prev = walk_spec(exts, argv, probe, (n - 1) as nat);
        if prev.0 is Some {
            prev
        } else {
            let d = exts[n - 1];
            match match_rule(d.match_spec, argv) {
                None => prev,
                Some(kind) => {
                    let reqs = match d.preexec {
                        Some(p) => p.requires,
                        None => Seq::empty(),
                    };
                    let missing = missing_spec(reqs, probe);
                    if missing.len() == 0 {
                        (Some(((n - 1) as int, kind)), prev.1)
                    } else {
                        (None, prev.1.push((d.id, missing)))
                    }
                },
            }
        }
    }
}

/// Views of a skipped list.
pub open spec fn skipped_view(v: Seq<SkippedExtension>) -> Seq<(Seq<char>, Seq<Seq<char>>)> {
    v.map_values(|s: SkippedExtension| (s.id@, binaries_view(s.missing@)))
}

/// Required binaries of `ext` that `probe` does not find.
fn missing_binaries<P: RequiresProbe>(ext: &ExtensionDef, probe: &P) -> (r: Vec<BinaryName>)
    ensures
        binaries_view(r@) == missing_spec(
            match ext@.preexec {
                Some(p) => p.requires,
                None => Seq::empty(),
            },
            *probe,
        ),
{
    let reqs = ext.required_binaries();
    let ghost rv = binaries_view(reqs@);
    assert(rv == match ext@.preexec {
        Some(p) => p.requires,
        None => Seq::<Seq<char>>::empty(),
    }) by {
        if ext.preexec is None {
            assert(rv =~= Seq::<Seq<char>>::empty());
        }
    }
    let mut out: Vec<BinaryName> = Vec::new();
    let mut i: usize = 0;
    while i < reqs.len()
        invariant
            rv == binaries_view(reqs@),
            i <= reqs.len(),
            binaries_view(out@) == missing_spec(rv.subrange(0, i as int), *probe),
        decreases reqs.len() - i,
    {
        assert(rv.subrange(0, i + 1).drop_last() =~= rv.subrange(0, i as int));
        assert(rv.subrange(0, i + 1).last() == reqs@[i as int]@);
        if !probe.binary_on_path(reqs[i].as_str()) {
            let ghost before = binaries_view(out@);
            let b = reqs[i].copy();
            let ghost bv = b@;
            out.push(b);
            assert(binaries_view(out@) =~= before.push(bv));
        }
        i = i + 1;
    }
    assert(rv.subrange(0, reqs.len() as int) =~= rv);
    out
}

impl ExtensionRegistry {
    /// Walk merged extensions in order; first match wins. An extension whose
    /// required binaries are not all found by `probe` does not match and is
    /// recorded as skipped.
    pub fn match_with_diagnostics_with<'a, P: RequiresProbe>(
        &'a self,
        argv: &'a [String],
        probe: &P,
    ) -> (r: MatchOutcome<'a>)
        ensures
            ({
                let w = walk_spec(self@, views(argv@), *probe, self@.len());
                &&& skipped_view(r.skipped@) == w.1
                &&& match r.matched {
                    Some(m) => w.0 matches Some((i, kind)) && match_ext(m)@ == self@[i]
                        && match_kind(m) == kind,
                    None => w.0 is None,
                }
            }),
    {
        let exts = self.extensions();
        let ghost ev = defs_view(exts@);
        let ghost av = views(argv@);
        let mut skipped: Vec<SkippedExtension> = Vec::new();
        let mut i: usize = 0;
        assert(skipped_view(skipped@) =~= Seq::<(Seq<char>, Seq<Seq<char>>)>::empty());
        while i < exts.len()
            invariant
                ev == defs_view(exts@),
                ev == self@,
                av == views(argv@),
                i <= exts.len(),
                walk_spec(ev, av, *probe, i as nat).0 is None,
                walk_spec(ev, av, *probe, i as nat).1 == skipped_view(skipped@),
            decreases exts.len() - i,
        {
            let ext = &exts[i];
            assert(ev[i as int] == ext@);
            match ext.match_spec_argv(argv) {
                None => {},
                Some(candidate) => {
                    let missing = missing_binaries(ext, probe);
                    if missing.len() == 0 {
                        assert(binaries_view(missing@).len() == 0);
                        proof {
                            lemma_walk_stays(ev, av, *probe, (i + 1) as nat, ev.len());
                        }
                        return MatchOutcome { matched: Some(candidate), skipped };
                    }
                    let ghost before = skipped_view(skipped@);
                    let s = SkippedExtension { id: ext.id.copy(), missing };
                    let ghost sv = (s.id@, binaries_view(s.missing@));
                    skipped.push(s);
                    assert(skipped_view(skipped@) =~= before.push(sv));
                },
            }
            i = i + 1;
        }
        MatchOutcome { matched: None, skipped }
    }

    /// Match argv and return only the matched extension, if any.
    pub fn match_argv_with<'a, P: RequiresProbe>(&'a self, argv: &'a [String], probe: &P) -> (r:
        Option<ExtensionMatch<'a>>)
        ensures
            ({
                let w = walk_spec(self@, views(argv@), *probe, self@.len());
                match r {
                    Some(m) => w.0 matches Some((i, kind)) && match_ext(m)@ == self@[i]
                        && match_kind(m) == kind,
                    None => w.0 is None,
                }
            }),
    {
        self.match_with_diagnostics_with(argv, probe).matched
    }

    /// Match argv against the binaries that a `PATH` lookup found, recording
    /// the entries skipped for missing binaries.
    pub fn match_with_diagnostics<'a>(&'a self, argv: &'a [String], path: &PathRequiresProbe) -> (r:
        MatchOutcome<'a>)
        ensures
            ({
                let w = walk_spec(self@, views(argv@), *path, self@.len());
                &&& skipped_view(r.skipped@) == w.1
                &&& match r.matched {
                    Some(m) => w.0 matches Some((i, kind)) && match_ext(m)@ == self@[i]
                        && match_kind(m) == kind,
                    None => w.0 is None,
                }
            }),
    {
        self.match_with_diagnostics_with(argv, path)
    }

    /// Match argv against the binaries that a `PATH` lookup found; first match wins.
    pub fn match_argv<'a>(&'a self, argv: &'a [String], path: &PathRequiresProbe) -> (r: Option<
        ExtensionMatch<'a>,
    >)
        ensures
            ({
                let w = walk_spec(self@, views(argv@), *path, self@.len());
                match r {
                    Some(m) => w.0 matches Some((i, kind)) && match_ext(m)@ == self@[i]
                        && match_kind(m) == kind,
                    None => w.0 is None,
                }
            }),
    {
        self.match_with_diagnostics(argv, path).matched
    }
}

/// Once the walk has matched, later entries change nothing.
proof fn lemma_walk_stays<P: RequiresProbe>(
    exts: Seq<DefView>,
    argv: Seq<Seq<char>>,
    probe: P,
    k: nat,
    n: nat,
)
    requires
        k <= n,
        walk_spec(exts, argv, probe, k).0 is Some,
    ensures
        walk_spec(exts, argv, probe, n) == walk_spec(exts, argv, probe, k),
    decreases n,
{
    if n > k {
        lemma_walk_stays(exts, argv, probe, k, (n - 1) as nat);
    }
}

/// Required binaries of an entry view.
pub open spec fn def_requires(d: DefView) -> Seq<Seq<char>> {
    match d.preexec {
        Some(p) => p.requires,
        None => Seq::empty(),
    }
}

/// An entry whose rule matches `argv` and whose required binaries are all found.
pub open spec fn usable<P: RequiresProbe>(d: DefView, argv: Seq<Seq<char>>, probe: P) -> bool {
    match_rule(d.match_spec, argv) is Some && missing_spec(def_requires(d), probe).len() == 0
}

/// First match wins: the walk picks the first usable entry, with the kind of
/// its match; when it picks none, no entry is usable.
pub proof fn lemma_first_match_wins<P: RequiresProbe>(
    exts: Seq<DefView>,
    argv: Seq<Seq<char>>,
    probe: P,
    n: nat,
)
    requires
        n <= exts.len(),
    ensures
        match walk_spec(exts, argv, probe, n).0 {
            Some((i, kind)) => {
                &&& 0 <= i < n
                &&& usable(exts[i], argv, probe)
                &&& match_rule(exts[i].match_spec, argv) == Some(kind)
                &&& forall|k: int| 0 <= k < i ==> !usable(#[trigger] exts[k], argv, probe)
            },
            None => forall|k: int| 0 <= k < n ==> !usable(#[trigger] exts[k], argv, probe),
        },
    decreases n,
{
    if n > 0 {
        lemma_first_match_wins(exts, argv, probe, (n - 1) as nat);
    }
}

/// `e` records entry `k < n`: its id and its missing binaries, the entry
/// matching argv and missing at least one binary.
pub open spec fn records_skip<P: RequiresProbe>(
    exts: Seq<DefView>,
    argv: Seq<Seq<char>>,
    probe: P,
    n: nat,
    e: (Seq<char>, Seq<Seq<char>>),
) -> bool {
    exists|k: int|
        0 <= k < n && e == (#[trigger] exts[k].id, missing_spec(def_requires(exts[k]), probe))
            && match_rule(exts[k].match_spec, argv) is Some && missing_spec(
            def_requires(exts[k]),
            probe,
        ).len() > 0
}

/// Every skipped entry matched argv and misses at least one binary.
pub proof fn lemma_skipped_are_missing<P: RequiresProbe>(
    exts: Seq<DefView>,
    argv: Seq<Seq<char>>,
    probe: P,
    n: nat,
)
    requires
        n <= exts.len(),
    ensures
        forall|j: int|
            0 <= j < walk_spec(exts, argv, probe, n).1.len() ==> records_skip(
                exts,
                argv,
                probe,
                n,
                #[trigger] walk_spec(exts, argv, probe, n).1[j],
            ),
    decreases n,
{
    if n > 0 {
        lemma_skipped_are_missing(exts, argv, probe, (n - 1) as nat);
        let prev = walk_spec(exts, argv, probe, (n - 1) as nat);
        let cur = walk_spec(exts, argv, probe, n);
        assert forall|j: int| 0 <= j < cur.1.len() implies records_skip(
            exts,
            argv,
            probe,
            n,
            #[trigger] cur.1[j],
        ) by {
            if j < prev.1.len() {
                assert(cur.1[j] == prev.1[j]);
                assert(records_skip(exts, argv, probe, (n - 1) as nat, prev.1[j]));
                let k = choose|k: int|
                    0 <= k < n - 1 && prev.1[j] == (
                        #[trigger] exts[k].id,
                        missing_spec(def_requires(exts[k]), probe),
                    ) && match_rule(exts[k].match_spec, argv) is Some && missing_spec(
                        def_requires(exts[k]),
                        probe,
                    ).len() > 0;
                assert(exts[k].id == exts[k].id);
            } else {
                let k = n - 1;
                assert(cur.1[j] == (exts[k].id, missing_spec(def_requires(exts[k]), probe)));
                assert(exts[k].id == exts[k].id);
            }
        }
    }
}
} // verus!
