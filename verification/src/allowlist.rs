//! Allowlisted roots for workflow script and `next_wizard` paths: a path is
//! accepted only when it lies under `{wyvern_share}`, the working directory
//! or the current wizard directory, both as written (`..` folded away) and
//! once the file system has resolved it.

use vstd::prelude::*;
use crate::catalog::{path_pushed, push_path};
use crate::text::{chars_of, concat2, owned, push_str, starts_with, str_eq, string_of, views};
use crate::workflow::WorkflowError;

verus! {

/// What `std::path::Path::components` yields for `path`, each component as
/// text (the root directory as `/`).
pub uninterp spec fn path_components(path: Seq<char>) -> Seq<Seq<char>>;

/// Calls `std::path::Path::components` on `path` and converts each
/// component to a `String`.
#[verifier::external_body]
pub(crate) fn components_of(path: &str) -> (r: Vec<String>)
    ensures
        views(r@) == path_components(path@),
{
    std::path::Path::new(path).components().map(|c| c.as_os_str().to_string_lossy().into_owned()).collect()
}

/// What `std::path::Path::is_absolute` says of `path`.
pub uninterp spec fn path_is_absolute(path: Seq<char>) -> bool;

/// Calls `std::path::Path::is_absolute` on `path`.
#[verifier::external_body]
fn is_absolute_path(path: &str) -> (r: bool)
    ensures
        r == path_is_absolute(path@),
{
    std::path::Path::new(path).is_absolute()
}

/// `s` with every occurrence of the non-empty `pat`, left to right and
/// without overlap, replaced by `rep` (as `str::replace` does).
pub open spec fn replace_all(s: Seq<char>, pat: Seq<char>, rep: Seq<char>) -> Seq<char>
    decreases s.len(),
{
    if s.len() == 0 || pat.len() == 0 {
        s
    } else if starts_with(s, pat) {
        rep + replace_all(s.subrange(pat.len() as int, s.len() as int), pat, rep)
    } else {
        seq![s[0]] + replace_all(s.drop_first(), pat, rep)
    }
}

/// Replace every occurrence of `pat` in `s` by `rep`.
pub fn replace_text(s: &str, pat: &str, rep: &str) -> (r: String)
    ensures
        r@ == replace_all(s@, pat@, rep@),
{
    let cs = chars_of(s);
    let ps = chars_of(pat);
    if ps.len() == 0 {
        return owned(s);
    }
    let mut out = String::new();
    let mut i: usize = 0;
    assert(cs@.subrange(0, cs@.len() as int) =~= s@);
    assert(out@ + replace_all(s@, pat@, rep@) =~= replace_all(s@, pat@, rep@));
    while i < cs.len()
        invariant
            cs@ == s@,
            ps@ == pat@,
            ps.len() > 0,
            i <= cs.len(),
            out@ + replace_all(cs@.subrange(i as int, cs@.len() as int), pat@, rep@) == replace_all(
                s@,
                pat@,
                rep@,
            ),
        decreases cs.len() - i,
    {
        let ghost rest = cs@.subrange(i as int, cs@.len() as int);
        let mut matched = ps.len() <= cs.len() - i;
        let mut k: usize = 0;
        while matched && k < ps.len()
            invariant
                cs@ == s@,
                ps@ == pat@,
                i < cs.len(),
                k <= ps.len(),
                matched ==> i + ps.len() <= cs.len(),
                matched ==> forall|t: int| 0 <= t < k ==> cs@[i + t] == ps@[t],
                !matched ==> !starts_with(rest, pat@),
                rest == cs@.subrange(i as int, cs@.len() as int),
            decreases ps.len() - k, if matched { 1int } else { 0int },
        {
            if cs[i + k] != ps[k] {
                matched = false;
                assert(rest.subrange(0, pat@.len() as int)[k as int] != pat@[k as int]);
            } else {
                k = k + 1;
            }
        }
        if matched {
            assert(rest.subrange(0, pat@.len() as int) =~= pat@);
            assert(starts_with(rest, pat@));
            push_str(&mut out, rep);
            i = i + ps.len();
            assert(rest.subrange(pat@.len() as int, rest.len() as int) =~= cs@.subrange(
                i as int,
                cs@.len() as int,
            ));
        } else {
            let ghost before = out@;
            crate::text::push_char(&mut out, cs[i]);
            assert(rest.drop_first() =~= cs@.subrange(i + 1, cs@.len() as int));
            assert(rest[0] == cs@[i as int]);
            assert(out@ + replace_all(rest.drop_first(), pat@, rep@) =~= before + (seq![rest[0]]
                + replace_all(rest.drop_first(), pat@, rep@)));
            i = i + 1;
        }
    }
    assert(cs@.subrange(i as int, cs@.len() as int) =~= Seq::<char>::empty());
    assert(out@ + Seq::<char>::empty() =~= out@);
    out
}

/// Fold `.` and `..` away lexically (`..` drops the last component, but
/// never the root directory).
pub open spec fn normalize_components(cs: Seq<Seq<char>>) -> Seq<Seq<char>>
    decreases cs.len(),
{
    if cs.len() == 0 {
        Seq::empty()
    } else {
        let acc = normalize_components(cs.drop_last());
        let c = cs.last();
        if c == "."@ {
            acc
        } else if c == ".."@ {
            if acc.len() > 0 && acc.last() != "/"@ {
                acc.drop_last()
            } else {
                acc
            }
        } else {
            acc.push(c)
        }
    }
}

/// `root`'s components are a prefix of `p`'s (as `Path::starts_with`).
pub open spec fn under(p: Seq<Seq<char>>, root: Seq<Seq<char>>) -> bool {
    root.len() <= p.len() && p.subrange(0, root.len() as int) == root
}

/// `p` lies under one of `roots`.
pub open spec fn under_any(p: Seq<Seq<char>>, roots: Seq<Seq<Seq<char>>>) -> bool {
    exists|i: int| 0 <= i < roots.len() && under(p, #[trigger] roots[i])
}

fn normalize_exec(cs: &Vec<String>) -> (r: Vec<String>)
    ensures
        views(r@) == normalize_components(views(cs@)),
{
    let ghost v = views(cs@);
    let mut out: Vec<String> = Vec::new();
    let mut i: usize = 0;
    while i < cs.len()
        invariant
            v == views(cs@),
            i <= cs.len(),
            views(out@) == normalize_components(v.subrange(0, i as int)),
        decreases cs.len() - i,
    {
        let ghost before = views(out@);
        assert(v.subrange(0, i + 1).drop_last() =~= v.subrange(0, i as int));
        assert(v.subrange(0, i + 1).last() == cs@[i as int]@);
        let c = cs[i].as_str();
        if str_eq(c, ".") {
        } else if str_eq(c, "..") {
            if out.len() > 0 && !str_eq(out[out.len() - 1].as_str(), "/") {
                out.pop();
                assert(views(out@) =~= before.drop_last());
            }
        } else {
            out.push(owned(c));
            assert(views(out@) =~= before.push(c@));
        }
        i = i + 1;
    }
    assert(v.subrange(0, cs.len() as int) =~= v);
    out
}

fn under_exec(p: &Vec<String>, root: &Vec<String>) -> (r: bool)
    ensures
        r == under(views(p@), views(root@)),
{
    if root.len() > p.len() {
        return false;
    }
    let mut i: usize = 0;
    while i < root.len()
        invariant
            root.len() <= p.len(),
            i <= root.len(),
            forall|t: int| 0 <= t < i ==> views(p@)[t] == views(root@)[t],
        decreases root.len() - i,
    {
        if !str_eq(p[i].as_str(), root[i].as_str()) {
            assert(views(p@).subrange(0, root.len() as int)[i as int] != views(root@)[i as int]);
            return false;
        }
        i = i + 1;
    }
    assert(views(p@).subrange(0, root.len() as int) =~= views(root@));
    true
}

fn under_any_exec(p: &Vec<String>, roots: &Vec<Vec<String>>) -> (r: bool)
    ensures
        r == under_any(views(p@), roots@.map_values(|v: Vec<String>| views(v@))),
{
    let ghost rv = roots@.map_values(|v: Vec<String>| views(v@));
    let mut i: usize = 0;
    while i < roots.len()
        invariant
            rv == roots@.map_values(|v: Vec<String>| views(v@)),
            i <= roots.len(),
            forall|t: int| 0 <= t < i ==> !under(views(p@), #[trigger] rv[t]),
        decreases roots.len() - i,
    {
        if under_exec(p, &roots[i]) {
            assert(under(views(p@), rv[i as int]));
            return true;
        }
        i = i + 1;
    }
    false
}

/// Allowlisted roots for workflow script and `next_wizard` paths.
#[derive(Debug)]
pub struct Allowlist {
    /// Resolved `{wyvern_share}` directory.
    pub share_root: String,
    /// Process working directory.
    pub cwd: String,
    /// Directory of the current `wizard.json`.
    pub wizard_dir: String,
}

/// `raw` with `{wyvern_share}` expanded.
pub open spec fn expanded_path(a: Allowlist, raw: Seq<char>) -> Seq<char> {
    replace_all(raw, "{wyvern_share}"@, a.share_root@)
}

/// Paths tried for `raw`, in order: the expansion itself when absolute,
/// else the expansion under the share root, the cwd and the wizard directory.
pub open spec fn tries_spec(a: Allowlist, raw: Seq<char>) -> Seq<Seq<char>> {
    let e = expanded_path(a, raw);
    if path_is_absolute(e) {
        seq![e]
    } else {
        seq![path_pushed(a.share_root@, e), path_pushed(a.cwd@, e), path_pushed(a.wizard_dir@, e)]
    }
}

/// The lexical roots: each root's components with `.` and `..` folded.
pub open spec fn lexical_roots(a: Allowlist) -> Seq<Seq<Seq<char>>> {
    seq![
        normalize_components(path_components(a.share_root@)),
        normalize_components(path_components(a.cwd@)),
        normalize_components(path_components(a.wizard_dir@)),
    ]
}

/// Outcome of resolving `raw` against the allowlist, given the canonical
/// form of each root that the file system could resolve (`croots`) and the
/// canonical form of each try (`canon[i]` for `tries_spec(..)[i]`, `None`
/// when it does not resolve). The result is `Ok(path)`, or `Err((denied,
/// text))`: a denial of the expanded path, or a resolution failure.
pub open spec fn resolve_from(
    a: Allowlist,
    raw: Seq<char>,
    croots: Seq<Seq<char>>,
    canon: Seq<Option<Seq<char>>>,
    i: int,
    saw_escape: bool,
) -> Result<Seq<char>, (bool, Seq<char>)>
    decreases tries_spec(a, raw).len() - i,
{
    let tries = tries_spec(a, raw);
    let croot_cs = croots.map_values(|r: Seq<char>| path_components(r));
    if i < 0 || i >= tries.len() {
        if saw_escape {
            Err((true, expanded_path(a, raw)))
        } else {
            Err((false, "could not resolve path against share, cwd, or wizard directory"@))
        }
    } else {
        let lexical = normalize_components(path_components(tries[i]));
        if !under_any(lexical, lexical_roots(a)) && !under_any(lexical, croot_cs) {
            resolve_from(a, raw, croots, canon, i + 1, true)
        } else {
            match canon[i] {
                Some(c) => if under_any(path_components(c), croot_cs) {
                    Ok(c)
                } else {
                    resolve_from(a, raw, croots, canon, i + 1, true)
                },
                None => if under_any(lexical, lexical_roots(a)) {
                    Err((false, "path does not exist: "@ + tries[i]))
                } else {
                    resolve_from(a, raw, croots, canon, i + 1, true)
                },
            }
        }
    }
}

impl Allowlist {
    /// `raw` with `{wyvern_share}` expanded to the share root.
    pub fn expand(&self, raw: &str) -> (r: String)
        ensures
            r@ == expanded_path(*self, raw@),
    {
        replace_text(raw, "{wyvern_share}", self.share_root.as_str())
    }

    /// The paths to try for `raw`, in order (their canonical forms are what
    /// [`Allowlist::resolve_allowed`] checks).
    pub fn resolve_tries(&self, raw: &str) -> (r: Vec<String>)
        ensures
            views(r@) == tries_spec(*self, raw@),
    {
        let e = self.expand(raw);
        let mut v: Vec<String> = Vec::new();
        if is_absolute_path(e.as_str()) {
            v.push(e);
        } else {
            v.push(push_path(self.share_root.as_str(), e.as_str()));
            v.push(push_path(self.cwd.as_str(), e.as_str()));
            v.push(push_path(self.wizard_dir.as_str(), e.as_str()));
        }
        assert(views(v@) =~= tries_spec(*self, raw@));
        v
    }

    /// Resolve `raw` to an allowed canonical path. `canonical_roots` are the
    /// roots as the file system resolves them (those that resolve), and
    /// `canonical[i]` is the canonical form of the `i`-th path of
    /// [`Allowlist::resolve_tries`] (`None` when it does not exist). A try is
    /// skipped as an escape when it is lexically under no root, or when it
    /// resolves outside every canonical root.
    #[verifier::loop_isolation(false)]
    pub fn resolve_allowed(
        &self,
        raw: &str,
        canonical_roots: &Vec<String>,
        canonical: &Vec<Option<String>>,
    ) -> (r: Result<String, WorkflowError>)
        requires
            canonical@.len() == tries_spec(*self, raw@).len(),
        ensures
            match resolve_from(
                *self,
                raw@,
                views(canonical_roots@),
                canonical@.map_values(|o: Option<String>| crate::registry::opt_view(o)),
                0,
                false,
            ) {
                Ok(p) => r matches Ok(s) && s@ == p,
                Err((true, e)) => r matches Err(WorkflowError::PathDenied { path }) && path@ == e,
                Err((false, c)) => r matches Err(WorkflowError::Resolve { path, cause }) && path@
                    == raw@ && cause@ == c,
            },
    {
        let ghost cv = canonical@.map_values(|o: Option<String>| crate::registry::opt_view(o));
        let ghost crv = views(canonical_roots@);
        let ghost croot_cs = crv.map_values(|r: Seq<char>| path_components(r));
        let tries = self.resolve_tries(raw);
        let mut lex_roots: Vec<Vec<String>> = Vec::new();
        lex_roots.push(normalize_exec(&components_of(self.share_root.as_str())));
        lex_roots.push(normalize_exec(&components_of(self.cwd.as_str())));
        lex_roots.push(normalize_exec(&components_of(self.wizard_dir.as_str())));
        assert(lex_roots@.map_values(|v: Vec<String>| views(v@)) =~= lexical_roots(*self));
        let mut croots: Vec<Vec<String>> = Vec::new();
        let mut k: usize = 0;
        while k < canonical_roots.len()
            invariant
                k <= canonical_roots.len(),
                croots@.map_values(|v: Vec<String>| views(v@)) =~= croot_cs.subrange(0, k as int),
            decreases canonical_roots.len() - k,
        {
            croots.push(components_of(canonical_roots[k].as_str()));
            k = k + 1;
        }
        assert(croot_cs.subrange(0, canonical_roots.len() as int) =~= croot_cs);
        let mut saw_escape = false;
        let mut i: usize = 0;
        while i < tries.len()
            invariant
                i <= tries.len(),
                views(tries@) == tries_spec(*self, raw@),
                canonical@.len() == tries@.len(),
                resolve_from(*self, raw@, crv, cv, 0, false) == resolve_from(
                    *self,
                    raw@,
                    crv,
                    cv,
                    i as int,
                    saw_escape,
                ),
            decreases tries.len() - i,
        {
            let lexical = normalize_exec(&components_of(tries[i].as_str()));
            let in_lex = under_any_exec(&lexical, &lex_roots);
            let in_canon = under_any_exec(&lexical, &croots);
            if !in_lex && !in_canon {
                saw_escape = true;
            } else {
                match &canonical[i] {
                    Some(c) => {
                        let ccs = components_of(c.as_str());
                        if under_any_exec(&ccs, &croots) {
                            return Ok(owned(c.as_str()));
                        }
                        saw_escape = true;
                    },
                    None => {
                        if in_lex {
                            return Err(
                                WorkflowError::Resolve {
                                    path: owned(raw),
                                    cause: concat2("path does not exist: ", tries[i].as_str()),
                                },
                            );
                        }
                        saw_escape = true;
                    },
                }
            }
            i = i + 1;
        }
        if saw_escape {
            Err(WorkflowError::PathDenied { path: self.expand(raw) })
        } else {
            Err(
                WorkflowError::Resolve {
                    path: owned(raw),
                    cause: owned("could not resolve path against share, cwd, or wizard directory"),
                },
            )
        }
    }
}

/// A path that the allowlist accepts lies under one of the canonical roots
/// that were given.
pub proof fn lemma_resolved_is_under_root(
    a: Allowlist,
    raw: Seq<char>,
    croots: Seq<Seq<char>>,
    canon: Seq<Option<Seq<char>>>,
    i: int,
    saw_escape: bool,
)
    ensures
        resolve_from(a, raw, croots, canon, i, saw_escape) matches Ok(p) ==> under_any(
            path_components(p),
            croots.map_values(|r: Seq<char>| path_components(r)),
        ),
    decreases tries_spec(a, raw).len() - i,
{
    if 0 <= i < tries_spec(a, raw).len() {
        lemma_resolved_is_under_root(a, raw, croots, canon, i + 1, true);
    }
}

} // verus!
