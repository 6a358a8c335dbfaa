//! Bundled examples in listing order: the records found on disk (the
//! examples' own `README.md` first, then one per example directory), with
//! repeated README paths dropped and the rest ordered by name, ignoring
//! ASCII case, keeping the found order among equal names.

use vstd::prelude::*;
use crate::commands::{examples_view, ExampleRecord};
use crate::text::{
    ascii_lower, char_ascii_lower, chars_of, copy_string, lemma_lex_irreflexive, lemma_lex_total,
    lemma_lex_transitive, lex_lt, str_eq, str_lt, string_of,
};

verus! {

/// View of one example: name, description, README path.
pub type ExampleView = (Seq<char>, Seq<char>, Seq<char>);

/// `s` in ASCII lower case (`str::to_ascii_lowercase`).
pub open spec fn lower_key(s: Seq<char>) -> Seq<char> {
    s.map_values(|c: char| ascii_lower(c))
}

/// `x` inserted into `s` after every entry whose name does not sort after
/// its own (names compared in ASCII lower case).
pub open spec fn insert_by_name(s: Seq<ExampleView>, x: ExampleView) -> Seq<ExampleView>
    decreases s.len(),
{
    if s.len() == 0 {
        seq![x]
    } else if lex_lt(lower_key(x.0), lower_key(s.last().0)) {
        insert_by_name(s.drop_last(), x).push(s.last())
    } else {
        s.push(x)
    }
}

/// `s` stably sorted by name, ignoring ASCII case.
pub open spec fn sort_by_name(s: Seq<ExampleView>) -> Seq<ExampleView>
    decreases s.len(),
{
    if s.len() == 0 {
        s
    } else {
        insert_by_name(sort_by_name(s.drop_last()), s.last())
    }
}

/// README paths of `s`.
pub open spec fn readmes(s: Seq<ExampleView>) -> Seq<Seq<char>> {
    s.map_values(|e: ExampleView| e.2)
}

/// `s` without the entries whose README path an earlier entry has.
pub open spec fn dedup_readme(s: Seq<ExampleView>) -> Seq<ExampleView>
    decreases s.len(),
{
    if s.len() == 0 {
        s
    } else {
        let d = dedup_readme(s.drop_last());
        if readmes(d).contains(s.last().2) {
            d
        } else {
            d.push(s.last())
        }
    }
}

/// No entry's name sorts before an earlier entry's (ASCII case ignored).
pub open spec fn ordered_by_name(s: Seq<ExampleView>) -> bool {
    forall|i: int, j: int|
        0 <= i < j < s.len() ==> !lex_lt(lower_key(#[trigger] s[j].0), lower_key(#[trigger] s[i].0))
}

/// Inserting keeps every entry and adds `x`, and nothing else.
proof fn lemma_insert_contents(s: Seq<ExampleView>, x: ExampleView)
    ensures
        insert_by_name(s, x).len() == s.len() + 1,
        forall|k: int|
            0 <= k < s.len() + 1 ==> #[trigger] insert_by_name(s, x)[k] == x || s.contains(
                insert_by_name(s, x)[k],
            ),
    decreases s.len(),
{
    if s.len() > 0 && lex_lt(lower_key(x.0), lower_key(s.last().0)) {
        let t = s.drop_last();
        lemma_insert_contents(t, x);
        assert forall|k: int| 0 <= k < s.len() + 1 implies #[trigger] insert_by_name(s, x)[k] == x
            || s.contains(insert_by_name(s, x)[k]) by {
            if k < s.len() {
                let e = insert_by_name(t, x)[k];
                if e != x {
                    let w = choose|w: int| 0 <= w < t.len() && t[w] == e;
                    assert(s[w] == e);
                }
            } else {
                assert(s[s.len() - 1] == s.last());
            }
        }
    } else if s.len() > 0 {
        assert forall|k: int| 0 <= k < s.len() + 1 implies #[trigger] insert_by_name(s, x)[k] == x
            || s.contains(insert_by_name(s, x)[k]) by {
            if k < s.len() {
                assert(s[k] == insert_by_name(s, x)[k]);
            }
        }
    }
}

/// `a` does not sort after `b`, and `b` not after `c`: then `a` not after `c`.
proof fn lemma_not_after_chain(a: Seq<char>, b: Seq<char>, c: Seq<char>)
    requires
        !lex_lt(b, a),
        !lex_lt(c, b),
    ensures
        !lex_lt(c, a),
{
    if lex_lt(c, a) {
        if a != b {
            lemma_lex_total(a, b);
            if b != c {
                lemma_lex_total(b, c);
                lemma_lex_transitive(c, a, b);
            } else {
                lemma_lex_transitive(c, a, b);
            }
        } else {
            assert(lex_lt(c, b));
        }
    }
}

/// Inserting into a name-ordered list keeps it name-ordered.
proof fn lemma_insert_ordered(s: Seq<ExampleView>, x: ExampleView)
    requires
        ordered_by_name(s),
    ensures
        ordered_by_name(insert_by_name(s, x)),
    decreases s.len(),
{
    let kx = lower_key(x.0);
    if s.len() == 0 {
    } else if lex_lt(kx, lower_key(s.last().0)) {
        let t = s.drop_last();
        let last = s.last();
        assert(ordered_by_name(t)) by {
            assert forall|i: int, j: int| 0 <= i < j < t.len() implies !lex_lt(
                lower_key(#[trigger] t[j].0),
                lower_key(#[trigger] t[i].0),
            ) by {
                assert(t[i] == s[i] && t[j] == s[j]);
            }
        }
        lemma_insert_ordered(t, x);
        lemma_insert_contents(t, x);
        let u = insert_by_name(t, x);
        let r = u.push(last);
        assert(r == insert_by_name(s, x));
        assert forall|i: int, j: int| 0 <= i < j < r.len() implies !lex_lt(
            lower_key(#[trigger] r[j].0),
            lower_key(#[trigger] r[i].0),
        ) by {
            if j < u.len() {
                assert(r[i] == u[i] && r[j] == u[j]);
            } else {
                assert(r[j] == last);
                assert(r[i] == u[i]);
                let e = u[i];
                if e == x {
                    lemma_lex_irreflexive(kx);
                    if lex_lt(lower_key(last.0), kx) {
                        lemma_lex_transitive(kx, lower_key(last.0), kx);
                    }
                } else {
                    assert(t.contains(e));
                    let w = choose|w: int| 0 <= w < t.len() && t[w] == e;
                    assert(s[w] == e);
                    assert(s[s.len() - 1] == last);
                    assert(w < s.len() - 1);
                }
            }
        }
    } else {
        let last = s.last();
        let r = s.push(x);
        assert forall|i: int, j: int| 0 <= i < j < r.len() implies !lex_lt(
            lower_key(#[trigger] r[j].0),
            lower_key(#[trigger] r[i].0),
        ) by {
            if j < s.len() {
                assert(r[i] == s[i] && r[j] == s[j]);
            } else {
                assert(r[j] == x);
                assert(r[i] == s[i]);
                if i < s.len() - 1 {
                    assert(s[s.len() - 1] == last);
                    lemma_not_after_chain(lower_key(s[i].0), lower_key(last.0), kx);
                }
            }
        }
    }
}

/// The example listing is ordered by name, ignoring ASCII case, whatever
/// order the records were found in.
pub proof fn lemma_listing_ordered_by_name(found: Seq<ExampleView>)
    ensures
        ordered_by_name(sort_by_name(dedup_readme(found))),
{
    lemma_sort_ordered(dedup_readme(found));
}

proof fn lemma_sort_ordered(s: Seq<ExampleView>)
    ensures
        ordered_by_name(sort_by_name(s)),
    decreases s.len(),
{
    if s.len() > 0 {
        lemma_sort_ordered(s.drop_last());
        lemma_insert_ordered(sort_by_name(s.drop_last()), s.last());
    }
}

fn lower(s: &str) -> (r: String)
    ensures
        r@ == lower_key(s@),
{
    let cs = chars_of(s);
    let mut out: Vec<char> = Vec::new();
    let mut i: usize = 0;
    while i < cs.len()
        invariant
            cs@ == s@,
            i <= cs.len(),
            out@ == lower_key(s@.subrange(0, i as int)),
        decreases cs.len() - i,
    {
        out.push(char_ascii_lower(cs[i]));
        i = i + 1;
        assert(out@ =~= lower_key(s@.subrange(0, i as int)));
    }
    assert(s@.subrange(0, cs.len() as int) =~= s@);
    string_of(&out)
}

/// Where the scan from the end stops, inserting `x` is appending it to the
/// entries before that point, followed by the rest.
proof fn lemma_insert_at(s: Seq<ExampleView>, x: ExampleView, k: int)
    requires
        0 <= k <= s.len(),
        forall|j: int| k <= j < s.len() ==> lex_lt(lower_key(x.0), lower_key(#[trigger] s[j].0)),
    ensures
        insert_by_name(s, x) == insert_by_name(s.subrange(0, k), x) + s.subrange(k, s.len() as int),
    decreases s.len(),
{
    if k == s.len() {
        assert(s.subrange(0, k) =~= s);
        assert(s.subrange(k, s.len() as int) =~= Seq::<ExampleView>::empty());
        assert(insert_by_name(s, x) + Seq::<ExampleView>::empty() =~= insert_by_name(s, x));
    } else {
        let t = s.drop_last();
        lemma_insert_at(t, x, k);
        assert(t.subrange(0, k) =~= s.subrange(0, k));
        assert(t.subrange(k, t.len() as int).push(s.last()) =~= s.subrange(k, s.len() as int));
        assert((insert_by_name(t.subrange(0, k), x) + t.subrange(k, t.len() as int)).push(s.last())
            =~= insert_by_name(t.subrange(0, k), x) + t.subrange(k, t.len() as int).push(s.last()));
    }
}

fn readme_seen(kept: &Vec<ExampleRecord>, readme: &str) -> (r: bool)
    ensures
        r == readmes(examples_view(kept@)).contains(readme@),
{
    let ghost rs = readmes(examples_view(kept@));
    let mut i: usize = 0;
    while i < kept.len()
        invariant
            rs == readmes(examples_view(kept@)),
            i <= kept.len(),
            forall|j: int| 0 <= j < i ==> rs[j] != readme@,
        decreases kept.len() - i,
    {
        if str_eq(kept[i].readme.as_str(), readme) {
            assert(rs[i as int] == readme@);
            return true;
        }
        i = i + 1;
    }
    false
}

fn copy_record(e: &ExampleRecord) -> (r: ExampleRecord)
    ensures
        (r.name@, r.description@, r.readme@) == (e.name@, e.description@, e.readme@),
{
    ExampleRecord {
        name: copy_string(&e.name),
        description: copy_string(&e.description),
        readme: copy_string(&e.readme),
    }
}

/// `found` without the records whose README path an earlier record has.
fn dedup_records(found: &Vec<ExampleRecord>) -> (r: Vec<ExampleRecord>)
    ensures
        examples_view(r@) == dedup_readme(examples_view(found@)),
{
    let ghost fv = examples_view(found@);
    let mut kept: Vec<ExampleRecord> = Vec::new();
    let mut i: usize = 0;
    assert(fv.subrange(0, 0) =~= Seq::<ExampleView>::empty());
    assert(examples_view(kept@) =~= Seq::<ExampleView>::empty());
    while i < found.len()
        invariant
            fv == examples_view(found@),
            i <= found.len(),
            examples_view(kept@) == dedup_readme(fv.subrange(0, i as int)),
        decreases found.len() - i,
    {
        assert(fv.subrange(0, i + 1).drop_last() =~= fv.subrange(0, i as int));
        assert(fv.subrange(0, i + 1).last() == fv[i as int]);
        if !readme_seen(&kept, found[i].readme.as_str()) {
            let ghost before = examples_view(kept@);
            let e = copy_record(&found[i]);
            kept.push(e);
            assert(examples_view(kept@) =~= before.push(fv[i as int]));
        }
        i = i + 1;
    }
    assert(fv.subrange(0, found.len() as int) =~= fv);
    kept
}

/// `records` stably sorted by name, ignoring ASCII case.
fn sort_records(records: &Vec<ExampleRecord>) -> (r: Vec<ExampleRecord>)
    ensures
        examples_view(r@) == sort_by_name(examples_view(records@)),
{
    let ghost kv = examples_view(records@);
    let mut sorted: Vec<ExampleRecord> = Vec::new();
    let mut i: usize = 0;
    assert(kv.subrange(0, 0) =~= Seq::<ExampleView>::empty());
    assert(examples_view(sorted@) =~= Seq::<ExampleView>::empty());
    while i < records.len()
        invariant
            kv == examples_view(records@),
            i <= records.len(),
            examples_view(sorted@) == sort_by_name(kv.subrange(0, i as int)),
        decreases records.len() - i,
    {
        let ghost s = examples_view(sorted@);
        let ghost xv = kv[i as int];
        let x = copy_record(&records[i]);
        let key = lower(x.name.as_str());
        let mut j: usize = sorted.len();
        while j > 0 && str_lt(key.as_str(), lower(sorted[j - 1].name.as_str()).as_str())
            invariant
                s == examples_view(sorted@),
                key@ == lower_key(xv.0),
                j <= sorted.len(),
                forall|t: int| j <= t < s.len() ==> lex_lt(lower_key(xv.0), lower_key(#[trigger] s[t].0)),
            decreases j,
        {
            j = j - 1;
        }
        proof {
            lemma_insert_at(s, xv, j as int);
            if j == 0 {
                assert(s.subrange(0, 0) =~= Seq::<ExampleView>::empty());
                assert(insert_by_name(s.subrange(0, 0), xv) =~= seq![xv]);
            } else {
                assert(s.subrange(0, j as int).last() == s[j - 1]);
                assert(!lex_lt(lower_key(xv.0), lower_key(s[j - 1].0)));
                assert(s.subrange(0, j as int).drop_last() =~= s.subrange(0, j - 1));
            }
            assert(kv.subrange(0, i + 1).drop_last() =~= kv.subrange(0, i as int));
            assert(kv.subrange(0, i + 1).last() == xv);
        }
        sorted.insert(j, x);
        assert(examples_view(sorted@) =~= s.subrange(0, j as int).push(xv) + s.subrange(
            j as int,
            s.len() as int,
        ));
        i = i + 1;
    }
    assert(kv.subrange(0, records.len() as int) =~= kv);
    sorted
}

/// The examples in listing order: records with a README path seen before
/// dropped, the rest stably sorted by name ignoring ASCII case.
pub fn collect_examples(found: &Vec<ExampleRecord>) -> (r: Vec<ExampleRecord>)
    ensures
        examples_view(r@) == sort_by_name(dedup_readme(examples_view(found@))),
{
    sort_records(&dedup_records(found))
}

} // verus!
