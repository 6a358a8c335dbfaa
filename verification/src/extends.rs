//! Registry merge (later files override earlier entries by id) and `extends`
//! resolution (a child reuses its parent's preexec and expand).

use vstd::prelude::*;
use vstd::pervasive::VecAdditionalExecFns;

use crate::errors::ExtensionError;
use crate::ids::ExtensionId;
use crate::registry::{
    copy_def, copy_expand, copy_opt_expand, copy_opt_preexec, copy_opt_string, copy_opt_id,
    copy_preexec, copy_strings, copy_binaries, copy_match_spec, defs_view, ids_view, DefView,
    ExtensionDef, PreexecSpec, PreexecView,
};
use crate::text::{concat3, concat5, copy_string, is_empty_str};

verus! {

/// Index of the first entry of `d` whose id is `id`.
pub open spec fn index_of_id(d: Seq<DefView>, id: Seq<char>) -> Option<int>
    decreases d.len(),
{
    if d.len() == 0 {
        None
    } else {
        match index_of_id(d.drop_last(), id) {
            Some(i) => Some(i),
            None => if d.last().id == id {
                Some(d.len() - 1)
            } else {
                None
            },
        }
    }
}

/// `index_of_id` is the least index carrying `id`, or `None` when no entry has it.
pub proof fn lemma_index_of_id(d: Seq<DefView>, id: Seq<char>)
    ensures
        match index_of_id(d, id) {
            Some(i) => {
                &&& 0 <= i < d.len()
                &&& d[i].id == id
                &&& forall|k: int| 0 <= k < i ==> #[trigger] d[k].id != id
            },
            None => forall|k: int| 0 <= k < d.len() ==> #[trigger] d[k].id != id,
        },
    decreases d.len(),
{
    if d.len() > 0 {
        lemma_index_of_id(d.drop_last(), id);
        assert forall|k: int| 0 <= k < d.len() - 1 implies #[trigger] d[k] == d.drop_last()[k] by {}
    }
}

/// One override step: replace the first entry with the same id, or append.
pub open spec fn merge_one(d: Seq<DefView>, e: DefView) -> Seq<DefView> {
    match index_of_id(d, e.id) {
        Some(i) => d.update(i, e),
        None => d.push(e),
    }
}

/// Apply the project entries `p`, in order, over the defaults `d`.
pub open spec fn merge_spec(d: Seq<DefView>, p: Seq<DefView>) -> Seq<DefView>
    decreases p.len(),
{
    if p.len() == 0 {
        d
    } else {
        merge_one(merge_spec(d, p.drop_last()), p.last())
    }
}

/// Position of the first entry with id `id`.
fn position_of_id(defs: &Vec<ExtensionDef>, id: &ExtensionId) -> (r: Option<usize>)
    ensures
        match r {
            Some(i) => index_of_id(defs_view(defs@), id@) == Some(i as int),
            None => index_of_id(defs_view(defs@), id@) is None,
        },
{
    let ghost d = defs_view(defs@);
    proof {
        lemma_index_of_id(d, id@);
    }
    let mut i: usize = 0;
    while i < defs.len()
        invariant
            d == defs_view(defs@),
            i <= defs.len(),
            forall|k: int| 0 <= k < i ==> #[trigger] d[k].id != id@,
            match index_of_id(d, id@) {
                Some(j) => {
                    &&& 0 <= j < d.len()
                    &&& d[j].id == id@
                    &&& forall|k: int| 0 <= k < j ==> #[trigger] d[k].id != id@
                },
                None => forall|k: int| 0 <= k < d.len() ==> #[trigger] d[k].id != id@,
            },
        decreases defs.len() - i,
    {
        if defs[i].id.same(id) {
            assert(d[i as int].id == id@);
            return Some(i);
        }
        assert(d[i as int].id != id@);
        i = i + 1;
    }
    None
}

/// Merge project entries over defaults: an entry whose id already exists
/// replaces the first such entry in place, otherwise it is appended.
pub fn merge_by_id(defaults: Vec<ExtensionDef>, project: Vec<ExtensionDef>) -> (r: Vec<
    ExtensionDef,
>)
    ensures
        defs_view(r@) == merge_spec(defs_view(defaults@), defs_view(project@)),
{
    let ghost d = defs_view(defaults@);
    let ghost p = defs_view(project@);
    let mut cur = defaults;
    let mut k: usize = 0;
    while k < project.len()
        invariant
            d == defs_view(defaults@),
            p == defs_view(project@),
            k <= project.len(),
            defs_view(cur@) == merge_spec(d, p.subrange(0, k as int)),
        decreases project.len() - k,
    {
        let ghost before = defs_view(cur@);
        assert(p.subrange(0, k + 1).drop_last() =~= p.subrange(0, k as int));
        assert(p.subrange(0, k + 1).last() == p[k as int]);
        let e = copy_def(&project[k]);
        match position_of_id(&cur, &e.id) {
            Some(i) => {
                proof {
                    lemma_index_of_id(before, e@.id);
                }
                let ghost ev = e@;
                cur.set(i, e);
                assert(defs_view(cur@) =~= before.update(i as int, ev));
            },
            None => {
                let ghost ev = e@;
                cur.push(e);
                assert(defs_view(cur@) =~= before.push(ev));
            },
        }
        k = k + 1;
    }
    assert(p.subrange(0, project.len() as int) =~= p);
    cur
}

/// Preexec of a child after inheriting from its resolved parent: absent or
/// empty child fields keep the parent value.
pub open spec fn inherit_preexec(c: Option<PreexecView>, p: Option<PreexecView>) -> Option<
    PreexecView,
> {
    match c {
        None => p,
        Some(cp) => match p {
            None => Some(cp),
            Some(pp) => Some(
                PreexecView {
                    cmd: if cp.cmd.len() == 0 {
                        pp.cmd
                    } else {
                        cp.cmd
                    },
                    args: if cp.args.len() == 0 {
                        pp.args
                    } else {
                        cp.args
                    },
                    requires: if cp.requires.len() == 0 {
                        pp.requires
                    } else {
                        cp.requires
                    },
                    stdout: match cp.stdout {
                        Some(s) => Some(s),
                        None => pp.stdout,
                    },
                },
            ),
        },
    }
}

/// A child entry completed from its resolved parent.
pub open spec fn inherit_spec(c: DefView, p: DefView) -> DefView {
    DefView {
        id: c.id,
        match_spec: c.match_spec,
        extends: c.extends,
        description: match c.description {
            Some(t) => Some(t),
            None => p.description,
        },
        examples: if c.examples.len() == 0 {
            p.examples
        } else {
            c.examples
        },
        preexec: inherit_preexec(c.preexec, p.preexec),
        expand: match c.expand {
            Some(e) => Some(e),
            None => p.expand,
        },
        source: c.source,
    }
}

fn inherit_preexec_from(child_pre: &PreexecSpec, parent_pre: &PreexecSpec) -> (r: PreexecSpec)
    ensures
        Some(r@) == inherit_preexec(Some(child_pre@), Some(parent_pre@)),
{
    PreexecSpec {
        cmd: if is_empty_str(child_pre.cmd.as_str()) {
            copy_string(&parent_pre.cmd)
        } else {
            copy_string(&child_pre.cmd)
        },
        args: if child_pre.args.len() == 0 {
            copy_strings(&parent_pre.args)
        } else {
            copy_strings(&child_pre.args)
        },
        requires: if child_pre.requires.len() == 0 {
            copy_binaries(parent_pre.requires.as_slice())
        } else {
            copy_binaries(child_pre.requires.as_slice())
        },
        stdout: match child_pre.stdout {
            Some(s) => Some(s),
            None => parent_pre.stdout,
        },
    }
}

/// Complete `child` from its resolved `parent`.
fn inherit_from(child: &ExtensionDef, parent: &ExtensionDef) -> (r: ExtensionDef)
    ensures
        r@ == inherit_spec(child@, parent@),
{
    let preexec = match (&child.preexec, &parent.preexec) {
        (None, parent_pre) => copy_opt_preexec(parent_pre),
        (Some(child_pre), Some(parent_pre)) => Some(inherit_preexec_from(child_pre, parent_pre)),
        (Some(child_pre), None) => Some(copy_preexec(child_pre)),
    };
    let description = match &child.description {
        Some(_) => copy_opt_string(&child.description),
        None => copy_opt_string(&parent.description),
    };
    let examples = if child.examples.len() == 0 {
        copy_strings(&parent.examples)
    } else {
        copy_strings(&child.examples)
    };
    let expand = match &child.expand {
        Some(e) => Some(copy_expand(e)),
        None => copy_opt_expand(&parent.expand),
    };
    ExtensionDef {
        id: child.id.copy(),
        match_spec: copy_match_spec(&child.match_spec),
        extends: copy_opt_id(&child.extends),
        description,
        examples,
        preexec,
        expand,
        source: child.source,
    }
}

/// Message of a cycle detected at `id`.
pub open spec fn circular_message(id: Seq<char>) -> Seq<char> {
    "circular extends involving '"@ + id + "'"@
}

/// Message of an entry whose parent id names no entry.
pub open spec fn unknown_parent_message(id: Seq<char>, parent: Seq<char>) -> Seq<char> {
    "extension '"@ + id + "' extends unknown id '"@ + parent + "'"@
}

/// Resolve `ext` against `all`, with `stack` the ids whose resolution is in
/// progress. The length guard never fires when `stack` holds distinct ids of
/// `all` (see `lemma_stack_bound`); it only makes the recursion total.
pub open spec fn resolve_spec(ext: DefView, all: Seq<DefView>, stack: Seq<Seq<char>>) -> Result<
    DefView,
    Seq<char>,
>
    decreases all.len() - stack.len(),
{
    match ext.extends {
        None => Ok(ext),
        Some(pid) => if stack.contains(ext.id) || stack.len() >= all.len() {
            Err(circular_message(ext.id))
        } else {
            match index_of_id(all, pid) {
                None => Err(unknown_parent_message(ext.id, pid)),
                Some(pi) => match resolve_spec(all[pi], all, stack.push(ext.id)) {
                    Err(m) => Err(m),
                    Ok(parent) => Ok(inherit_spec(ext, parent)),
                },
            }
        },
    }
}

/// Resolution of the first `n` entries, stopping at the first failure.
pub open spec fn apply_prefix(all: Seq<DefView>, n: nat) -> Result<Seq<DefView>, Seq<char>>
    decreases n,
{
    if n == 0 {
        Ok(Seq::empty())
    } else {
        match apply_prefix(all, (n - 1) as nat) {
            Err(m) => Err(m),
            Ok(done) => match resolve_spec(all[n - 1], all, Seq::empty()) {
                Err(m) => Err(m),
                Ok(d) => Ok(done.push(d)),
            },
        }
    }
}

/// Once a prefix fails, every longer prefix fails with the same message.
proof fn lemma_apply_prefix_err(all: Seq<DefView>, k: nat, n: nat)
    requires
        k <= n,
        apply_prefix(all, k) is Err,
    ensures
        apply_prefix(all, n) == apply_prefix(all, k),
    decreases n,
{
    if n > k {
        lemma_apply_prefix_err(all, k, (n - 1) as nat);
    }
}

/// `extends` resolution of a whole merged registry.
pub open spec fn apply_spec(all: Seq<DefView>) -> Result<Seq<DefView>, Seq<char>> {
    apply_prefix(all, all.len())
}

/// The ids of `all`.
pub open spec fn has_id(all: Seq<DefView>, id: Seq<char>) -> bool {
    exists|j: int| 0 <= j < all.len() && #[trigger] all[j].id == id
}

/// A stack of distinct ids of `all` is no longer than `all`.
proof fn lemma_stack_bound(all: Seq<DefView>, stack: Seq<Seq<char>>)
    requires
        stack.no_duplicates(),
        forall|k: int| 0 <= k < stack.len() ==> has_id(all, #[trigger] stack[k]),
    ensures
        stack.len() <= all.len(),
{
    let ids = all.map_values(|d: DefView| d.id);
    stack.unique_seq_to_set();
    ids.lemma_cardinality_of_set();
    assert forall|x: Seq<char>| stack.to_set().contains(x) implies ids.to_set().contains(x) by {
        let k = choose|k: int| 0 <= k < stack.len() && stack[k] == x;
        assert(has_id(all, stack[k]));
        let j = choose|j: int| 0 <= j < all.len() && #[trigger] all[j].id == stack[k];
        assert(ids[j] == x);
    }
    vstd::set_lib::lemma_len_subset(stack.to_set(), ids.to_set());
}

#[verifier::loop_isolation(false)]
fn resolve_one(ext: &ExtensionDef, all: &Vec<ExtensionDef>, stack: &mut Vec<ExtensionId>) -> (r:
    Result<ExtensionDef, ExtensionError>)
    requires
        ids_view(old(stack)@).no_duplicates(),
        forall|k: int|
            0 <= k < old(stack)@.len() ==> has_id(
                defs_view(all@),
                #[trigger] ids_view(old(stack)@)[k],
            ),
        has_id(defs_view(all@), ext@.id),
    ensures
        match r {
            Ok(d) => {
                &&& resolve_spec(ext@, defs_view(all@), ids_view(old(stack)@)) == Ok::<
                    DefView,
                    Seq<char>,
                >(d@)
                &&& ids_view(final(stack)@) == ids_view(old(stack)@)
            },
            Err(e) => match e {
                ExtensionError::InvalidRegistry { message } => resolve_spec(
                    ext@,
                    defs_view(all@),
                    ids_view(old(stack)@),
                ) == Err::<DefView, Seq<char>>(message@),
                _ => false,
            },
        },
    decreases all@.len() - old(stack)@.len(),
{
    let ghost a = defs_view(all@);
    let ghost s0 = ids_view(stack@);
    let parent_id: ExtensionId = match &ext.extends {
        None => {
            return Ok(copy_def(ext));
        },
        Some(p) => p.copy(),
    };
    let mut j: usize = 0;
    while j < stack.len()
        invariant
            s0 == ids_view(stack@),
            j <= stack.len(),
            forall|k: int| 0 <= k < j ==> #[trigger] s0[k] != ext@.id,
        decreases stack.len() - j,
    {
        if stack[j].same(&ext.id) {
            assert(s0[j as int] == ext@.id);
            assert(s0.contains(ext@.id));
            let message = concat3("circular extends involving '", ext.id.as_str(), "'");
            return Err(ExtensionError::InvalidRegistry { message });
        }
        j = j + 1;
    }
    assert(!s0.contains(ext@.id));
    proof {
        let s1 = s0.push(ext@.id);
        assert forall|k: int| 0 <= k < s1.len() implies has_id(a, #[trigger] s1[k]) by {
            if k < s0.len() {
                assert(s1[k] == s0[k]);
            }
        }
        assert(s1.no_duplicates()) by {
            assert forall|x: int, y: int| 0 <= x < s1.len() && 0 <= y < s1.len() && x != y implies s1[x]
                != s1[y] by {
                if x < s0.len() && y < s0.len() {
                    assert(s1[x] == s0[x] && s1[y] == s0[y]);
                } else if x < s0.len() {
                    assert(s1[x] == s0[x]);
                } else if y < s0.len() {
                    assert(s1[y] == s0[y]);
                }
            }
        }
        lemma_stack_bound(a, s1);
    }
    stack.push(ext.id.copy());
    assert(ids_view(stack@) =~= s0.push(ext@.id));
    match position_of_id(all, &parent_id) {
        None => {
            let message = concat5(
                "extension '",
                ext.id.as_str(),
                "' extends unknown id '",
                parent_id.as_str(),
                "'",
            );
            Err(ExtensionError::InvalidRegistry { message })
        },
        Some(pi) => {
            proof {
                lemma_index_of_id(a, parent_id@);
                assert(a[pi as int] == all@[pi as int]@);
                assert(a[pi as int].id == all@[pi as int]@.id);
            }
            let parent = &all[pi];
            match resolve_one(parent, all, stack) {
                Err(e) => Err(e),
                Ok(resolved) => {
                    let ghost s_after = ids_view(stack@);
                    stack.pop();
                    assert(ids_view(stack@) =~= s_after.drop_last());
                    assert(s_after.drop_last() =~= s0);
                    Ok(inherit_from(ext, &resolved))
                },
            }
        },
    }
}

/// Resolve `extends` for every entry, in order; the first failure is returned.
pub fn apply_extends(exts: Vec<ExtensionDef>) -> (r: Result<Vec<ExtensionDef>, ExtensionError>)
    ensures
        match r {
            Ok(v) => apply_spec(defs_view(exts@)) == Ok::<Seq<DefView>, Seq<char>>(defs_view(v@)),
            Err(e) => match e {
                ExtensionError::InvalidRegistry { message } => apply_spec(defs_view(exts@))
                    == Err::<Seq<DefView>, Seq<char>>(message@),
                _ => false,
            },
        },
{
    let ghost a = defs_view(exts@);
    let mut resolved: Vec<ExtensionDef> = Vec::new();
    assert(defs_view(resolved@) =~= Seq::<DefView>::empty());
    let mut i: usize = 0;
    while i < exts.len()
        invariant
            a == defs_view(exts@),
            i <= exts.len(),
            apply_prefix(a, i as nat) == Ok::<Seq<DefView>, Seq<char>>(defs_view(resolved@)),
        decreases exts.len() - i,
    {
        let mut stack: Vec<ExtensionId> = Vec::new();
        assert(ids_view(stack@) =~= Seq::<Seq<char>>::empty());
        assert(a[i as int] == exts@[i as int]@);
        assert(has_id(a, a[i as int].id));
        let ghost before = defs_view(resolved@);
        match resolve_one(&exts[i], &exts, &mut stack) {
            Err(e) => {
                proof {
                    lemma_apply_prefix_err(a, (i + 1) as nat, a.len());
                }
                return Err(e);
            },
            Ok(d) => {
                let ghost dv = d@;
                resolved.push(d);
                assert(defs_view(resolved@) =~= before.push(dv));
            },
        }
        i = i + 1;
    }
    Ok(resolved)
}

/// Two lists that agree on which positions carry `x` (the longer one carrying
/// no `x` past the shorter one's end) give the same first index of `x`.
proof fn lemma_index_agree(d1: Seq<DefView>, d2: Seq<DefView>, x: Seq<char>)
    requires
        d1.len() <= d2.len(),
        forall|k: int| 0 <= k < d1.len() ==> ((#[trigger] d1[k].id == x) <==> (d2[k].id == x)),
        forall|k: int| d1.len() <= k < d2.len() ==> #[trigger] d2[k].id != x,
    ensures
        index_of_id(d1, x) == index_of_id(d2, x),
{
    lemma_index_of_id(d1, x);
    lemma_index_of_id(d2, x);
    match index_of_id(d1, x) {
        Some(i) => {
            assert(d2[i].id == x);
            match index_of_id(d2, x) {
                Some(j) => {
                    if j < i {
                        assert(d1[j].id == x);
                    }
                },
                None => {},
            }
        },
        None => {
            match index_of_id(d2, x) {
                Some(j) => {
                    if j < d1.len() {
                        assert(d1[j].id == x);
                    }
                },
                None => {},
            }
        },
    }
}

/// Overriding with `e` leaves the first position of any other id, and the
/// entry there, unchanged.
proof fn lemma_merge_one_other(d: Seq<DefView>, e: DefView, x: Seq<char>)
    requires
        e.id != x,
    ensures
        index_of_id(merge_one(d, e), x) == index_of_id(d, x),
        index_of_id(d, x) matches Some(k) ==> merge_one(d, e)[k] == d[k],
{
    lemma_index_of_id(d, e.id);
    lemma_index_of_id(d, x);
    let m = merge_one(d, e);
    match index_of_id(d, e.id) {
        Some(i) => {
            assert forall|k: int| 0 <= k < d.len() implies ((#[trigger] d[k].id == x) <==> (
            m[k].id == x)) by {
                if k == i {
                    assert(m[k].id == e.id);
                }
            }
            lemma_index_agree(d, m, x);
        },
        None => {
            assert forall|k: int| 0 <= k < d.len() implies ((#[trigger] d[k].id == x) <==> (
            m[k].id == x)) by {
                assert(m[k] == d[k]);
            }
            assert forall|k: int| d.len() <= k < m.len() implies #[trigger] m[k].id != x by {
                assert(m[k] == e);
            }
            lemma_index_agree(d, m, x);
        },
    }
}

/// After overriding with `e`, the first entry with `e`'s id is `e`.
proof fn lemma_merge_one_self(d: Seq<DefView>, e: DefView)
    ensures
        index_of_id(merge_one(d, e), e.id) matches Some(k) && merge_one(d, e)[k] == e,
{
    lemma_index_of_id(d, e.id);
    let m = merge_one(d, e);
    lemma_index_of_id(m, e.id);
    match index_of_id(d, e.id) {
        Some(i) => {
            assert(m[i].id == e.id);
            match index_of_id(m, e.id) {
                Some(k) => {
                    if k < i {
                        assert(m[k] == d[k]);
                    }
                },
                None => {},
            }
        },
        None => {
            assert(m[d.len() as int].id == e.id);
            match index_of_id(m, e.id) {
                Some(k) => {
                    if k < d.len() {
                        assert(m[k] == d[k]);
                    }
                },
                None => {},
            }
        },
    }
}

/// Merging never removes or renames a default entry: the merged list is at
/// least as long as the defaults and keeps each default position's id.
pub proof fn lemma_merge_keeps_default_ids(d: Seq<DefView>, p: Seq<DefView>)
    ensures
        merge_spec(d, p).len() >= d.len(),
        forall|i: int| 0 <= i < d.len() ==> #[trigger] merge_spec(d, p)[i].id == d[i].id,
    decreases p.len(),
{
    if p.len() > 0 {
        let m = merge_spec(d, p.drop_last());
        lemma_merge_keeps_default_ids(d, p.drop_last());
        lemma_index_of_id(m, p.last().id);
        assert forall|i: int| 0 <= i < d.len() implies #[trigger] merge_spec(d, p)[i].id
            == d[i].id by {
            assert(m[i].id == d[i].id);
        }
    }
}

/// When every project id already names a default entry, the project
/// replaces entries in place: the merged list has the defaults' length.
pub proof fn lemma_merge_in_place(d: Seq<DefView>, p: Seq<DefView>)
    requires
        forall|j: int| 0 <= j < p.len() ==> has_id(d, #[trigger] p[j].id),
    ensures
        merge_spec(d, p).len() == d.len(),
    decreases p.len(),
{
    if p.len() > 0 {
        let m = merge_spec(d, p.drop_last());
        assert forall|j: int| 0 <= j < p.drop_last().len() implies has_id(
            d,
            #[trigger] p.drop_last()[j].id,
        ) by {
            assert(p.drop_last()[j] == p[j]);
        }
        lemma_merge_in_place(d, p.drop_last());
        lemma_merge_keeps_default_ids(d, p.drop_last());
        let e = p.last();
        assert(has_id(d, p[p.len() - 1].id));
        let j = choose|j: int| 0 <= j < d.len() && #[trigger] d[j].id == e.id;
        assert(m[j].id == e.id);
        lemma_index_of_id(m, e.id);
    }
}

/// Later files override earlier entries by id: when the project ids are
/// distinct, the first merged entry with a project entry's id is that
/// project entry.
pub proof fn lemma_merge_project_wins(d: Seq<DefView>, p: Seq<DefView>)
    requires
        forall|a: int, b: int|
            0 <= a < p.len() && 0 <= b < p.len() && a != b ==> #[trigger] p[a].id != #[trigger] p[b].id,
    ensures
        forall|j: int|
            0 <= j < p.len() ==> (index_of_id(merge_spec(d, p), #[trigger] p[j].id) matches Some(k)
                && merge_spec(d, p)[k] == p[j]),
    decreases p.len(),
{
    if p.len() > 0 {
        let q = p.drop_last();
        let m = merge_spec(d, q);
        let e = p.last();
        assert forall|a: int, b: int|
            0 <= a < q.len() && 0 <= b < q.len() && a != b implies #[trigger] q[a].id
            != #[trigger] q[b].id by {
            assert(q[a] == p[a] && q[b] == p[b]);
        }
        lemma_merge_project_wins(d, q);
        assert forall|j: int| 0 <= j < p.len() implies (index_of_id(
            merge_spec(d, p),
            #[trigger] p[j].id,
        ) matches Some(k) && merge_spec(d, p)[k] == p[j]) by {
            if j == p.len() - 1 {
                lemma_merge_one_self(m, e);
            } else {
                assert(q[j] == p[j]);
                assert(p[j].id != p[p.len() - 1].id);
                lemma_merge_one_other(m, e, p[j].id);
            }
        }
    }
}

/// Every merged entry is the default entry at its position or a project entry.
pub proof fn lemma_merge_sources(d: Seq<DefView>, p: Seq<DefView>)
    ensures
        forall|i: int|
            0 <= i < merge_spec(d, p).len() ==> (i < d.len() && #[trigger] merge_spec(d, p)[i]
                == d[i]) || p.contains(merge_spec(d, p)[i]),
    decreases p.len(),
{
    if p.len() > 0 {
        let q = p.drop_last();
        let m = merge_spec(d, q);
        lemma_merge_sources(d, q);
        lemma_index_of_id(m, p.last().id);
        assert forall|i: int| 0 <= i < merge_spec(d, p).len() implies (i < d.len()
            && #[trigger] merge_spec(d, p)[i] == d[i]) || p.contains(merge_spec(d, p)[i]) by {
            let x = merge_spec(d, p)[i];
            if x == p.last() {
                assert(p[p.len() - 1] == x);
            } else {
                assert(x == m[i]);
                if q.contains(x) {
                    let t = choose|t: int| 0 <= t < q.len() && q[t] == x;
                    assert(p[t] == x);
                }
            }
        }
    }
}

/// A resolved entry keeps the child's own id, match rule, parent link and origin.
pub proof fn lemma_resolve_keeps_identity(ext: DefView, all: Seq<DefView>, stack: Seq<Seq<char>>)
    ensures
        resolve_spec(ext, all, stack) matches Ok(r) ==> {
            &&& r.id == ext.id
            &&& r.match_spec == ext.match_spec
            &&& r.extends == ext.extends
            &&& r.source == ext.source
        },
{
}

/// Resolving `extends` keeps the registry's length and order, each entry's
/// id, match rule, parent link and origin, and leaves entries without a
/// parent unchanged.
pub proof fn lemma_apply_keeps_entries(all: Seq<DefView>)
    ensures
        apply_spec(all) is Ok ==> apply_spec(all)->Ok_0.len() == all.len(),
        apply_spec(all) is Ok ==> forall|i: int|
            0 <= i < all.len() ==> {
                &&& (#[trigger] apply_spec(all)->Ok_0[i]).id == all[i].id
                &&& apply_spec(all)->Ok_0[i].match_spec == all[i].match_spec
                &&& apply_spec(all)->Ok_0[i].extends == all[i].extends
                &&& apply_spec(all)->Ok_0[i].source == all[i].source
                &&& all[i].extends is None ==> apply_spec(all)->Ok_0[i] == all[i]
            },
{
    lemma_apply_prefix_keeps(all, all.len());
    if apply_spec(all) is Ok {
        let r = apply_spec(all)->Ok_0;
        assert forall|i: int| 0 <= i < all.len() implies r[i].id == all[i].id by {
            assert(r[i].id == all[i].id);
        }
        assert forall|i: int| 0 <= i < all.len() implies r[i].match_spec == all[i].match_spec by {
            assert(r[i].id == all[i].id);
        }
        assert forall|i: int| 0 <= i < all.len() implies r[i].extends == all[i].extends by {
            assert(r[i].id == all[i].id);
        }
        assert forall|i: int| 0 <= i < all.len() implies r[i].source == all[i].source by {
            assert(r[i].id == all[i].id);
        }
        assert forall|i: int| 0 <= i < all.len() && all[i].extends is None implies r[i] == all[i] by {
            assert(r[i].id == all[i].id);
        }
    }
}

proof fn lemma_apply_prefix_keeps(all: Seq<DefView>, n: nat)
    requires
        n <= all.len(),
    ensures
        apply_prefix(all, n) matches Ok(r) ==> {
            &&& r.len() == n
            &&& forall|i: int|
                0 <= i < n ==> {
                    &&& #[trigger] r[i].id == all[i].id
                    &&& r[i].match_spec == all[i].match_spec
                    &&& r[i].extends == all[i].extends
                    &&& r[i].source == all[i].source
                    &&& all[i].extends is None ==> r[i] == all[i]
                }
        },
    decreases n,
{
    if n > 0 {
        lemma_apply_prefix_keeps(all, (n - 1) as nat);
        lemma_resolve_keeps_identity(all[n - 1], all, Seq::empty());
    }
}

/// Resolution does not depend on which ids are in progress: two successful
/// resolutions of one entry give the same result.
proof fn lemma_resolve_stack_free(
    ext: DefView,
    all: Seq<DefView>,
    s1: Seq<Seq<char>>,
    s2: Seq<Seq<char>>,
)
    ensures
        resolve_spec(ext, all, s1) is Ok && resolve_spec(ext, all, s2) is Ok ==> resolve_spec(
            ext,
            all,
            s1,
        ) == resolve_spec(ext, all, s2),
    decreases all.len() - s1.len(),
{
    if resolve_spec(ext, all, s1) is Ok && resolve_spec(ext, all, s2) is Ok {
        if let Some(pid) = ext.extends {
            if let Some(pi) = index_of_id(all, pid) {
                lemma_resolve_stack_free(all[pi], all, s1.push(ext.id), s2.push(ext.id));
            }
        }
    }
}

proof fn lemma_apply_prefix_resolves(all: Seq<DefView>, n: nat)
    requires
        n <= all.len(),
    ensures
        apply_prefix(all, n) matches Ok(r) ==> r.len() == n && forall|i: int|
            0 <= i < n ==> resolve_spec(all[i], all, Seq::empty()) == Ok::<DefView, Seq<char>>(
                #[trigger] r[i],
            ),
    decreases n,
{
    if n > 0 {
        lemma_apply_prefix_resolves(all, (n - 1) as nat);
        if let Ok(r) = apply_prefix(all, n) {
            let prev = apply_prefix(all, (n - 1) as nat)->Ok_0;
            assert forall|i: int| 0 <= i < n implies resolve_spec(all[i], all, Seq::empty())
                == Ok::<DefView, Seq<char>>(#[trigger] r[i]) by {
                if i < n - 1 {
                    assert(r[i] == prev[i]);
                }
            }
        }
    }
}

/// Child fields override parent fields. In a resolved registry, an entry
/// that sets its own `expand`, `description` or `examples` keeps exactly
/// them; an entry that extends a parent and leaves one unset gets the value
/// of its resolved parent (the first entry with the parent id).
pub proof fn lemma_child_fields_override_parent(all: Seq<DefView>)
    ensures
        apply_spec(all) matches Ok(r) ==> forall|i: int|
            0 <= i < all.len() ==> {
                &&& all[i].expand is Some ==> (#[trigger] r[i]).expand == all[i].expand
                &&& all[i].description is Some ==> r[i].description == all[i].description
                &&& all[i].examples.len() > 0 ==> r[i].examples == all[i].examples
                &&& all[i].extends matches Some(pid) ==> index_of_id(all, pid) matches Some(pi) && {
                    &&& all[i].expand is None ==> r[i].expand == r[pi].expand
                    &&& all[i].description is None ==> r[i].description == r[pi].description
                    &&& all[i].examples.len() == 0 ==> r[i].examples == r[pi].examples
                }
            },
{
    lemma_apply_prefix_resolves(all, all.len());
    if let Ok(r) = apply_spec(all) {
        assert forall|i: int| 0 <= i < all.len() implies {
            &&& all[i].expand is Some ==> (#[trigger] r[i]).expand == all[i].expand
            &&& all[i].description is Some ==> r[i].description == all[i].description
            &&& all[i].examples.len() > 0 ==> r[i].examples == all[i].examples
            &&& all[i].extends matches Some(pid) ==> index_of_id(all, pid) matches Some(pi) && {
                &&& all[i].expand is None ==> r[i].expand == r[pi].expand
                &&& all[i].description is None ==> r[i].description == r[pi].description
                &&& all[i].examples.len() == 0 ==> r[i].examples == r[pi].examples
            }
        } by {
            assert(resolve_spec(all[i], all, Seq::empty()) == Ok::<DefView, Seq<char>>(r[i]));
            if let Some(pid) = all[i].extends {
                lemma_index_of_id(all, pid);
                if let Some(pi) = index_of_id(all, pid) {
                    let st = Seq::<Seq<char>>::empty().push(all[i].id);
                    assert(resolve_spec(all[pi], all, Seq::empty()) == Ok::<DefView, Seq<char>>(
                        r[pi],
                    ));
                    lemma_resolve_stack_free(all[pi], all, st, Seq::empty());
                }
            }
        }
    }
}

/// `r` keeps every preexec field that `c` sets: a non-empty `cmd`, `args`
/// or `requires`, and a `stdout`.
pub open spec fn preexec_keeps_child(c: Option<PreexecView>, r: Option<PreexecView>) -> bool {
    match c {
        None => true,
        Some(cp) => match r {
            None => false,
            Some(rp) => {
                &&& cp.cmd.len() > 0 ==> rp.cmd == cp.cmd
                &&& cp.args.len() > 0 ==> rp.args == cp.args
                &&& cp.requires.len() > 0 ==> rp.requires == cp.requires
                &&& cp.stdout is Some ==> rp.stdout == cp.stdout
            },
        },
    }
}

/// `r` takes from `p` what `c` leaves unset: all of it when `c` has no
/// preexec, else each empty field; with no `p`, `r` is `c`.
pub open spec fn preexec_fills_from_parent(
    c: Option<PreexecView>,
    p: Option<PreexecView>,
    r: Option<PreexecView>,
) -> bool {
    match c {
        None => r == p,
        Some(cp) => match p {
            None => r == c,
            Some(pp) => match r {
                None => false,
                Some(rp) => {
                    &&& cp.cmd.len() == 0 ==> rp.cmd == pp.cmd
                    &&& cp.args.len() == 0 ==> rp.args == pp.args
                    &&& cp.requires.len() == 0 ==> rp.requires == pp.requires
                    &&& cp.stdout is None ==> rp.stdout == pp.stdout
                },
            },
        },
    }
}

/// Preexec follows the same rule as the other fields: a resolved entry's
/// preexec keeps each field the entry sets, and an entry that extends a
/// parent takes the rest from its resolved parent's preexec.
pub proof fn lemma_child_preexec_overrides_parent(all: Seq<DefView>)
    ensures
        apply_spec(all) matches Ok(r) ==> forall|i: int|
            0 <= i < all.len() ==> {
                &&& preexec_keeps_child(all[i].preexec, (#[trigger] r[i]).preexec)
                &&& all[i].extends matches Some(pid) ==> index_of_id(all, pid) matches Some(pi)
                    && preexec_fills_from_parent(all[i].preexec, r[pi].preexec, r[i].preexec)
            },
{
    lemma_apply_prefix_resolves(all, all.len());
    lemma_apply_keeps_entries(all);
    if let Ok(r) = apply_spec(all) {
        assert forall|i: int| 0 <= i < all.len() implies {
            &&& preexec_keeps_child(all[i].preexec, (#[trigger] r[i]).preexec)
            &&& all[i].extends matches Some(pid) ==> index_of_id(all, pid) matches Some(pi)
                && preexec_fills_from_parent(all[i].preexec, r[pi].preexec, r[i].preexec)
        } by {
            assert(resolve_spec(all[i], all, Seq::empty()) == Ok::<DefView, Seq<char>>(r[i]));
            if let Some(pid) = all[i].extends {
                lemma_index_of_id(all, pid);
                if let Some(pi) = index_of_id(all, pid) {
                    let st = Seq::<Seq<char>>::empty().push(all[i].id);
                    assert(resolve_spec(all[pi], all, Seq::empty()) == Ok::<DefView, Seq<char>>(
                        r[pi],
                    ));
                    lemma_resolve_stack_free(all[pi], all, st, Seq::empty());
                }
            } else {
                assert(r[i] == all[i]);
            }
        }
    }
}

/// An entry whose parent id names no entry makes the whole resolution fail.
pub proof fn lemma_unknown_parent_fails(all: Seq<DefView>, i: int)
    requires
        0 <= i < all.len(),
        all[i].extends matches Some(pid) && !has_id(all, pid),
    ensures
        apply_spec(all) is Err,
{
    let pid = all[i].extends->Some_0;
    lemma_index_of_id(all, pid);
    if let Some(j) = index_of_id(all, pid) {
        assert(has_id(all, all[j].id));
    }
    assert(resolve_spec(all[i], all, Seq::empty()) is Err);
    if apply_prefix(all, i as nat) is Err {
        lemma_apply_prefix_err(all, i as nat, all.len());
    } else {
        lemma_apply_prefix_err(all, (i + 1) as nat, all.len());
    }
}

/// With distinct ids, an entry that extends itself makes resolution fail.
pub proof fn lemma_self_extends_fails(all: Seq<DefView>, i: int)
    requires
        0 <= i < all.len(),
        forall|a: int, b: int|
            0 <= a < all.len() && 0 <= b < all.len() && a != b ==> #[trigger] all[a].id
                != #[trigger] all[b].id,
        all[i].extends == Some(all[i].id),
    ensures
        apply_spec(all) is Err,
{
    let id = all[i].id;
    lemma_index_of_id(all, id);
    assert(index_of_id(all, id) == Some(i));
    let s1 = Seq::<Seq<char>>::empty().push(id);
    assert(s1.contains(id)) by {
        assert(s1[0] == id);
    }
    assert(resolve_spec(all[i], all, s1) is Err);
    assert(resolve_spec(all[i], all, Seq::empty()) is Err);
    if apply_prefix(all, i as nat) is Err {
        lemma_apply_prefix_err(all, i as nat, all.len());
    } else {
        lemma_apply_prefix_err(all, (i + 1) as nat, all.len());
    }
}

} // verus!
