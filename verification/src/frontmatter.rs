//! Minimal frontmatter parser for example README files: a `---` block with
//! mandatory `name` and `description` scalars.

use vstd::prelude::*;

use crate::template::substring;
use crate::text::{
    ascii_lower, char_ascii_lower, chars_of, contains_seq, copy_string, ends_with, lines_from,
    owned, split_lines, starts_with, str_ends_with, str_eq, str_starts_with, trim_spec,
    trim_string, views,
};

verus! {

/// Parsed frontmatter fields required on example README files.
#[derive(Debug, PartialEq, Eq)]
pub struct ReadmeFrontmatter {
    /// Human-readable example name.
    pub name: String,
    /// Short example summary.
    pub description: String,
}

/// Index of the first occurrence of `t` in `s`.
pub open spec fn first_occurrence(s: Seq<char>, t: Seq<char>) -> Option<int> {
    if contains_seq(s, t) {
        Some(
            choose|i: int|
                0 <= i <= s.len() - t.len() && #[trigger] s.subrange(i, i + t.len()) == t
                    && forall|j: int|
                    0 <= j < i ==> #[trigger] s.subrange(j, j + t.len()) != t,
        )
    } else {
        None
    }
}

/// The frontmatter block of `content`: after an optional byte-order mark,
/// `---` and a line break, up to the first `\n---`.
pub open spec fn fm_block(content: Seq<char>) -> Option<Seq<char>> {
    let c = if starts_with(content, seq!['\u{feff}']) {
        content.subrange(1, content.len() as int)
    } else {
        content
    };
    if !starts_with(c, "---"@) {
        None
    } else {
        let r = c.subrange(3, c.len() as int);
        let r2 = if starts_with(r, "\n"@) {
            Some(r.subrange(1, r.len() as int))
        } else if starts_with(r, "\r\n"@) {
            Some(r.subrange(2, r.len() as int))
        } else {
            None
        };
        match r2 {
            None => None,
            Some(b) => match first_occurrence(b, "\n---"@) {
                Some(e) => Some(b.subrange(0, e)),
                None => None,
            },
        }
    }
}

/// A scalar wrapped in matching quotes.
pub open spec fn quoted(raw: Seq<char>) -> bool {
    (starts_with(raw, "\""@) && ends_with(raw, "\""@)) || (starts_with(raw, "'"@) && ends_with(
        raw,
        "'"@,
    ))
}

/// Scalar value: quotes and the whitespace inside them removed.
pub open spec fn scalar_spec(raw: Seq<char>) -> Seq<char> {
    if quoted(raw) && raw.len() >= 2 {
        trim_spec(raw.subrange(1, raw.len() - 1))
    } else {
        raw
    }
}

/// State of the line scan: the values seen so far, a line without `:`
/// (no frontmatter), or a lone quote character as a value (on which the
/// scalar slicing panics).
pub enum FmState {
    Going(Option<Seq<char>>, Option<Seq<char>>),
    Fail,
    Panic,
}

/// Fold one frontmatter line into the scan state.
pub open spec fn fm_step(st: FmState, line: Seq<char>) -> FmState {
    match st {
        FmState::Going(name, desc) => {
            let l = trim_spec(line);
            if l.len() == 0 || starts_with(l, "#"@) {
                st
            } else if exists|k: int| 0 <= k < l.len() && l[k] == ':' {
                let k = choose|k: int|
                    0 <= k < l.len() && l[k] == ':' && forall|j: int| 0 <= j < k ==> l[j] != ':';
                let key = trim_spec(l.subrange(0, k)).map_values(|c: char| ascii_lower(c));
                let raw = trim_spec(l.subrange(k + 1, l.len() as int));
                if quoted(raw) && raw.len() < 2 {
                    FmState::Panic
                } else {
                    let value = scalar_spec(raw);
                    if value.len() == 0 {
                        st
                    } else if key == "name"@ {
                        FmState::Going(Some(value), desc)
                    } else if key == "description"@ {
                        FmState::Going(name, Some(value))
                    } else {
                        st
                    }
                }
            } else {
                FmState::Fail
            }
        },
        _ => st,
    }
}

/// Scan state after the first `n` lines.
pub open spec fn fm_fold(lines: Seq<Seq<char>>, n: nat) -> FmState
    decreases n,
{
    if n == 0 || n > lines.len() {
        FmState::Going(None, None)
    } else {
        fm_step(fm_fold(lines, (n - 1) as nat), lines[n - 1])
    }
}

/// Outcome of parsing README `content`: the name and description, nothing
/// (no block, a line without `:`, or a missing field), or a panic.
pub open spec fn fm_outcome(content: Seq<char>) -> FmState {
    match fm_block(content) {
        None => FmState::Fail,
        Some(b) => {
            let ls = lines_from(b, 0);
            match fm_fold(ls, ls.len()) {
                FmState::Going(Some(n), Some(d)) => FmState::Going(Some(n), Some(d)),
                FmState::Panic => FmState::Panic,
                _ => FmState::Fail,
            }
        },
    }
}

fn first_occurrence_exec(v: &Vec<char>, t: &str) -> (r: Option<usize>)
    ensures
        match r {
            Some(i) => first_occurrence(v@, t@) == Some(i as int) && i + t@.len() <= v@.len(),
            None => first_occurrence(v@, t@) is None,
        },
{
    let tv = chars_of(t);
    if tv.len() > v.len() {
        return None;
    }
    let limit = v.len() - tv.len();
    let mut i: usize = 0;
    while i <= limit
        invariant
            tv@ == t@,
            limit == v.len() - tv.len(),
            i <= limit + 1,
            forall|j: int| 0 <= j < i ==> #[trigger] v@.subrange(j, j + t@.len()) != t@,
        decreases limit + 1 - i,
    {
        let mut k: usize = 0;
        let mut same = true;
        while k < tv.len()
            invariant
                tv@ == t@,
                i <= limit,
                limit == v.len() - tv.len(),
                k <= tv.len(),
                same == (forall|j: int| 0 <= j < k ==> v@[i + j] == t@[j]),
            decreases tv.len() - k,
        {
            if v[i + k] != tv[k] {
                same = false;
            }
            k = k + 1;
        }
        if same {
            proof {
                assert(v@.subrange(i as int, i + t@.len()) =~= t@);
                let c = choose|c: int|
                    0 <= c <= v@.len() - t@.len() && #[trigger] v@.subrange(c, c + t@.len()) == t@
                        && forall|j: int|
                        0 <= j < c ==> #[trigger] v@.subrange(j, j + t@.len()) != t@;
                assert(0 <= c <= v@.len() - t@.len() && v@.subrange(c, c + t@.len()) == t@
                    && forall|j: int| 0 <= j < c ==> #[trigger] v@.subrange(j, j + t@.len()) != t@);
                if c < i as int {
                    assert(v@.subrange(c, c + t@.len()) != t@);
                }
                if c > i as int {
                    assert(v@.subrange(i as int, i + t@.len()) != t@);
                }
            }
            return Some(i);
        } else {
            proof {
                let j0 = choose|j: int| 0 <= j < tv@.len() && v@[i + j] != t@[j];
                assert(v@.subrange(i as int, i + t@.len())[j0] != t@[j0]);
            }
        }
        if i == limit {
            return None;
        }
        i = i + 1;
    }
    None
}

fn fm_block_exec(content: &str) -> (r: Option<String>)
    ensures
        match r {
            Some(b) => fm_block(content@) == Some(b@),
            None => fm_block(content@) is None,
        },
{
    proof {
        reveal_strlit("---");
        reveal_strlit("\n");
        reveal_strlit("\r\n");
        reveal_strlit("\n---");
    }
    let v0 = chars_of(content);
    let c = if v0.len() > 0 && v0[0] == '\u{feff}' {
        assert(starts_with(content@, seq!['\u{feff}'])) by {
            assert(content@.subrange(0, 1) =~= seq!['\u{feff}']);
        }
        substring(&v0, 1, v0.len())
    } else {
        assert(!starts_with(content@, seq!['\u{feff}'])) by {
            if content@.len() > 0 {
                assert(content@.subrange(0, 1)[0] == content@[0]);
            }
        }
        copy_string(&String::from_str(content))
    };
    if !str_starts_with(c.as_str(), "---") {
        return None;
    }
    let cv = chars_of(c.as_str());
    let r = substring(&cv, 3, cv.len());
    let b = if str_starts_with(r.as_str(), "\n") {
        let rv = chars_of(r.as_str());
        substring(&rv, 1, rv.len())
    } else if str_starts_with(r.as_str(), "\r\n") {
        let rv = chars_of(r.as_str());
        substring(&rv, 2, rv.len())
    } else {
        return None;
    };
    let bv = chars_of(b.as_str());
    match first_occurrence_exec(&bv, "\n---") {
        Some(e) => Some(substring(&bv, 0, e)),
        None => None,
    }
}

fn scalar_exec(raw: &str) -> (r: String)
    requires
        !(quoted(raw@) && raw@.len() < 2),
    ensures
        r@ == scalar_spec(raw@),
{
    let q = (str_starts_with(raw, "\"") && str_ends_with(raw, "\"")) || (str_starts_with(raw, "'")
        && str_ends_with(raw, "'"));
    let v = chars_of(raw);
    if q && v.len() >= 2 {
        let inner = substring(&v, 1, v.len() - 1);
        trim_string(inner.as_str())
    } else {
        owned(raw)
    }
}

fn lower_ascii(s: &str) -> (r: String)
    ensures
        r@ == s@.map_values(|c: char| ascii_lower(c)),
{
    let v = chars_of(s);
    let mut out = String::new();
    let mut i: usize = 0;
    while i < v.len()
        invariant
            v@ == s@,
            i <= v.len(),
            out@ == s@.subrange(0, i as int).map_values(|c: char| ascii_lower(c)),
        decreases v.len() - i,
    {
        crate::text::push_char(&mut out, char_ascii_lower(v[i]));
        i = i + 1;
        assert(out@ =~= s@.subrange(0, i as int).map_values(|c: char| ascii_lower(c)));
    }
    assert(s@.subrange(0, v.len() as int) =~= s@);
    out
}

/// Result of scanning README content.
pub enum FmScan {
    /// Both fields were found.
    Found(String, String),
    /// No usable frontmatter.
    Absent,
    /// A lone quote character stands as a value.
    LoneQuote,
}

/// View of an optional string.
pub open spec fn ov(o: Option<String>) -> Option<Seq<char>> {
    match o {
        Some(x) => Some(x@),
        None => None,
    }
}

/// Exec form of one scan step.
enum FmStep {
    Going(Option<String>, Option<String>),
    Fail,
    Panic,
}

spec fn step_view(s: FmStep) -> FmState {
    match s {
        FmStep::Going(n, d) => FmState::Going(ov(n), ov(d)),
        FmStep::Fail => FmState::Fail,
        FmStep::Panic => FmState::Panic,
    }
}

#[verifier::rlimit(30)]
fn fm_step_exec(line: &str, name: Option<String>, desc: Option<String>) -> (r: FmStep)
    ensures
        step_view(r) == fm_step(FmState::Going(ov(name), ov(desc)), line@),
{
    proof {
        reveal_strlit("#");
        reveal_strlit("\"");
        reveal_strlit("'");
    }
    let l = trim_string(line);
    if crate::text::is_empty_str(l.as_str()) || str_starts_with(l.as_str(), "#") {
        return FmStep::Going(name, desc);
    }
    let lv = chars_of(l.as_str());
    let colon = crate::template::find_char(&lv, ':', 0);
    proof {
        crate::text::lemma_find_char_from(l@, ':', 0);
    }
    let k = match colon {
        None => {
            assert(!(exists|k: int| 0 <= k < l@.len() && l@[k] == ':'));
            return FmStep::Fail;
        },
        Some(k) => k,
    };
    proof {
        let c = choose|c: int|
            0 <= c < l@.len() && l@[c] == ':' && forall|j: int| 0 <= j < c ==> l@[j] != ':';
        assert(0 <= c < l@.len() && l@[c] == ':' && forall|j: int| 0 <= j < c ==> l@[j] != ':');
        if c < k as int {
            assert(l@[c] != ':');
        }
        if c > k as int {
            assert(l@[k as int] != ':');
        }
        assert(c == k as int);
    }
    let key_raw = substring(&lv, 0, k);
    let key_t = trim_string(key_raw.as_str());
    let key = lower_ascii(key_t.as_str());
    let raw_part = substring(&lv, k + 1, lv.len());
    let raw = trim_string(raw_part.as_str());
    let rv = chars_of(raw.as_str());
    let q = (str_starts_with(raw.as_str(), "\"") && str_ends_with(raw.as_str(), "\"")) || (
    str_starts_with(raw.as_str(), "'") && str_ends_with(raw.as_str(), "'"));
    if q && rv.len() < 2 {
        return FmStep::Panic;
    }
    let value = scalar_exec(raw.as_str());
    if crate::text::is_empty_str(value.as_str()) {
        FmStep::Going(name, desc)
    } else if str_eq(key.as_str(), "name") {
        FmStep::Going(Some(value), desc)
    } else if str_eq(key.as_str(), "description") {
        FmStep::Going(name, Some(value))
    } else {
        FmStep::Going(name, desc)
    }
}

fn scan_frontmatter(content: &str) -> (r: FmScan)
    ensures
        match r {
            FmScan::Found(n, d) => fm_outcome(content@) == FmState::Going(Some(n@), Some(d@)),
            FmScan::Absent => fm_outcome(content@) is Fail,
            FmScan::LoneQuote => fm_outcome(content@) is Panic,
        },
{
    let block = match fm_block_exec(content) {
        Some(b) => b,
        None => {
            return FmScan::Absent;
        },
    };
    let lines = split_lines(block.as_str());
    let ghost ls = views(lines@);
    let mut name: Option<String> = None;
    let mut desc: Option<String> = None;
    let mut i: usize = 0;
    while i < lines.len()
        invariant
            ls == views(lines@),
            ls == lines_from(block@, 0),
            fm_block(content@) == Some(block@),
            i <= lines.len(),
            fm_fold(ls, i as nat) == FmState::Going(ov(name), ov(desc)),
        decreases lines.len() - i,
    {
        assert(ls[i as int] == lines@[i as int]@);
        match fm_step_exec(lines[i].as_str(), name, desc) {
            FmStep::Going(n, d) => {
                name = n;
                desc = d;
            },
            FmStep::Fail => {
                proof {
                    lemma_fold_fail(ls, (i + 1) as nat, ls.len());
                }
                return FmScan::Absent;
            },
            FmStep::Panic => {
                proof {
                    lemma_fold_panic(ls, (i + 1) as nat, ls.len());
                }
                return FmScan::LoneQuote;
            },
        }
        i = i + 1;
    }
    assert(ls.len() == lines.len());
    match (name, desc) {
        (Some(n), Some(d)) => FmScan::Found(n, d),
        _ => FmScan::Absent,
    }
}

proof fn lemma_fold_fail(ls: Seq<Seq<char>>, k: nat, n: nat)
    requires
        k <= n <= ls.len(),
        fm_fold(ls, k) is Fail,
    ensures
        fm_fold(ls, n) is Fail,
    decreases n,
{
    if n > k {
        lemma_fold_fail(ls, k, (n - 1) as nat);
    }
}

proof fn lemma_fold_panic(ls: Seq<Seq<char>>, k: nat, n: nat)
    requires
        k <= n <= ls.len(),
        fm_fold(ls, k) is Panic,
    ensures
        fm_fold(ls, n) is Panic,
    decreases n,
{
    if n > k {
        lemma_fold_panic(ls, k, (n - 1) as nat);
    }
}

/// Whether README `content` has a lone quote character as a frontmatter
/// value (the one input the parser refuses).
pub fn frontmatter_has_lone_quote(content: &str) -> (r: bool)
    ensures
        r == (fm_outcome(content@) is Panic),
{
    match scan_frontmatter(content) {
        FmScan::LoneQuote => true,
        _ => false,
    }
}

/// Parse mandatory `name` and `description` from a README frontmatter block.
pub fn parse_readme_frontmatter(content: &str) -> (r: Option<ReadmeFrontmatter>)
    requires
        !(fm_outcome(content@) is Panic),
    ensures
        match r {
            Some(m) => fm_outcome(content@) == FmState::Going(Some(m.name@), Some(m.description@)),
            None => fm_outcome(content@) is Fail,
        },
{
    match scan_frontmatter(content) {
        FmScan::Found(name, description) => Some(ReadmeFrontmatter { name, description }),
        _ => None,
    }
}

} // verus!
