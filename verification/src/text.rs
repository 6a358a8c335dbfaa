//! Character-level text model shared by the extension engine.
//!
//! Strings are reasoned about through their `Seq<char>` views.  The helpers
//! here convert between `&str`/`String` and `Vec<char>` and implement the
//! small set of string operations the CLI needs (trim, prefix/suffix tests,
//! ASCII case folding, joining) with exact contracts.

use vstd::prelude::*;
use vstd::string::*;

verus! {

/// `char::is_whitespace`: the Unicode `White_Space` property.
pub open spec fn is_ws(c: char) -> bool {
    ||| c == '\t'
    ||| c == '\n'
    ||| c == '\u{0B}'
    ||| c == '\u{0C}'
    ||| c == '\r'
    ||| c == ' '
    ||| c == '\u{85}'
    ||| c == '\u{A0}'
    ||| c == '\u{1680}'
    ||| ('\u{2000}' <= c && c <= '\u{200A}')
    ||| c == '\u{2028}'
    ||| c == '\u{2029}'
    ||| c == '\u{202F}'
    ||| c == '\u{205F}'
    ||| c == '\u{3000}'
}

/// First index at or after `i` that is not whitespace (or `s.len()`).
pub open spec fn skip_ws_from(s: Seq<char>, i: int) -> int
    decreases s.len() - i,
{
    if 0 <= i < s.len() && is_ws(s[i]) {
        skip_ws_from(s, i + 1)
    } else {
        i
    }
}

/// Last end position at or before `j` (and above `lo`) not preceded by whitespace.
pub open spec fn trim_back_to(s: Seq<char>, lo: int, j: int) -> int
    decreases j,
{
    if j > lo && j > 0 && is_ws(s[j - 1]) {
        trim_back_to(s, lo, j - 1)
    } else {
        j
    }
}

/// `str::trim`: drop leading and trailing whitespace.
pub open spec fn trim_spec(s: Seq<char>) -> Seq<char> {
    let lo = skip_ws_from(s, 0);
    s.subrange(lo, trim_back_to(s, lo, s.len() as int))
}

pub proof fn lemma_skip_ws_bounds(s: Seq<char>, i: int)
    requires
        0 <= i <= s.len(),
    ensures
        i <= skip_ws_from(s, i) <= s.len(),
        forall|k: int| i <= k < skip_ws_from(s, i) ==> is_ws(#[trigger] s[k]),
        skip_ws_from(s, i) < s.len() ==> !is_ws(s[skip_ws_from(s, i)]),
    decreases s.len() - i,
{
    if i < s.len() && is_ws(s[i]) {
        lemma_skip_ws_bounds(s, i + 1);
    }
}

pub proof fn lemma_trim_back_bounds(s: Seq<char>, lo: int, j: int)
    requires
        0 <= lo <= j <= s.len(),
    ensures
        lo <= trim_back_to(s, lo, j) <= j,
        forall|k: int| trim_back_to(s, lo, j) <= k < j ==> is_ws(#[trigger] s[k]),
        trim_back_to(s, lo, j) > lo ==> !is_ws(s[trim_back_to(s, lo, j) - 1]),
    decreases j,
{
    if j > lo && j > 0 && is_ws(s[j - 1]) {
        lemma_trim_back_bounds(s, lo, j - 1);
    }
}

/// The trimmed text is empty exactly when every character is whitespace.
pub proof fn lemma_trim_empty_iff_all_ws(s: Seq<char>)
    ensures
        trim_spec(s).len() == 0 <==> (forall|k: int| 0 <= k < s.len() ==> is_ws(#[trigger] s[k])),
{
    lemma_skip_ws_bounds(s, 0);
    let lo = skip_ws_from(s, 0);
    lemma_trim_back_bounds(s, lo, s.len() as int);
    if trim_spec(s).len() == 0 {
        assert forall|k: int| 0 <= k < s.len() implies is_ws(#[trigger] s[k]) by {
            if k >= lo {
                assert(trim_back_to(s, lo, s.len() as int) == lo);
            }
        }
    } else {
        assert(!is_ws(s[lo]));
    }
}

/// Trimming twice changes nothing more.
pub proof fn lemma_trim_idempotent(s: Seq<char>)
    ensures
        trim_spec(trim_spec(s)) == trim_spec(s),
{
    let t = trim_spec(s);
    lemma_skip_ws_bounds(s, 0);
    let lo = skip_ws_from(s, 0);
    lemma_trim_back_bounds(s, lo, s.len() as int);
    let hi = trim_back_to(s, lo, s.len() as int);
    lemma_skip_ws_bounds(t, 0);
    if t.len() > 0 {
        assert(t[0] == s[lo]);
        assert(skip_ws_from(t, 0) == 0);
        lemma_trim_back_bounds(t, 0, t.len() as int);
        assert(t[t.len() - 1] == s[hi - 1]);
        assert(trim_back_to(t, 0, t.len() as int) == t.len());
        assert(trim_spec(t) =~= t);
    } else {
        assert(trim_spec(t) =~= t);
    }
}

/// ASCII lower-case mapping (`char::to_ascii_lowercase`).
pub open spec fn ascii_lower(c: char) -> char {
    if 'A' <= c && c <= 'Z' {
        (((c as u32) + 32) as u8) as char
    } else {
        c
    }
}

/// ASCII upper-case mapping (`char::to_ascii_uppercase`).
pub open spec fn ascii_upper(c: char) -> char {
    if 'a' <= c && c <= 'z' {
        (((c as u32) - 32) as u8) as char
    } else {
        c
    }
}

/// `s` ends with `suffix`, comparing ASCII letters case-insensitively.
pub open spec fn ends_with_ci(s: Seq<char>, suffix: Seq<char>) -> bool {
    &&& suffix.len() <= s.len()
    &&& forall|i: int|
        0 <= i < suffix.len() ==> ascii_lower(#[trigger] s[s.len() - suffix.len() + i])
            == ascii_lower(suffix[i])
}

/// `s` starts with `prefix` (exact).
pub open spec fn starts_with(s: Seq<char>, prefix: Seq<char>) -> bool {
    prefix.len() <= s.len() && s.subrange(0, prefix.len() as int) == prefix
}

/// `s` ends with `suffix` (exact).
pub open spec fn ends_with(s: Seq<char>, suffix: Seq<char>) -> bool {
    suffix.len() <= s.len() && s.subrange(s.len() - suffix.len(), s.len() as int) == suffix
}

/// Index of the first occurrence of `c` at or after `from`, if any.
pub open spec fn find_char_from(s: Seq<char>, c: char, from: int) -> Option<int>
    decreases s.len() - from,
{
    if from < 0 || from >= s.len() {
        None
    } else if s[from] == c {
        Some(from)
    } else {
        find_char_from(s, c, from + 1)
    }
}

pub proof fn lemma_find_char_from(s: Seq<char>, c: char, from: int)
    requires
        0 <= from,
    ensures
        match find_char_from(s, c, from) {
            Some(k) => from <= k < s.len() && s[k] == c && forall|j: int|
                from <= j < k ==> #[trigger] s[j] != c,
            None => forall|j: int| from <= j < s.len() ==> #[trigger] s[j] != c,
        },
    decreases s.len() - from,
{
    if from < s.len() && s[from] != c {
        lemma_find_char_from(s, c, from + 1);
    }
}

/// Join `parts` with `sep` between consecutive elements.
pub open spec fn join_spec(parts: Seq<Seq<char>>, sep: Seq<char>) -> Seq<char>
    decreases parts.len(),
{
    if parts.len() == 0 {
        Seq::empty()
    } else if parts.len() == 1 {
        parts[0]
    } else {
        join_spec(parts.drop_last(), sep) + sep + parts.last()
    }
}

/// Views of a slice of strings.
pub open spec fn views(v: Seq<String>) -> Seq<Seq<char>> {
    v.map_values(|s: String| s@)
}

/// Copy the characters of a `&str` into a vector.
pub fn chars_of(s: &str) -> (v: Vec<char>)
    ensures
        v@ == s@,
{
    let n = s.unicode_len();
    let mut v: Vec<char> = Vec::new();
    let mut i: usize = 0;
    while i < n
        invariant
            n == s@.len(),
            i <= n,
            v@ == s@.subrange(0, i as int),
        decreases n - i,
    {
        let c = s.get_char(i);
        v.push(c);
        i = i + 1;
        assert(v@ =~= s@.subrange(0, i as int));
    }
    assert(v@ =~= s@);
    v
}

/// Append one character (`String::push`).
#[verifier::external_body]
pub(crate) fn push_char(s: &mut String, c: char)
    ensures
        final(s)@ == old(s)@.push(c),
{
    s.push(c);
}

/// Append a string slice (`String::push_str`).
pub fn push_str(s: &mut String, t: &str)
    ensures
        final(s)@ == old(s)@ + t@,
{
    s.append(t);
}

/// Build a `String` from characters.
pub fn string_of(v: &[char]) -> (s: String)
    ensures
        s@ == v@,
{
    let mut s = String::new();
    let mut i: usize = 0;
    while i < v.len()
        invariant
            i <= v.len(),
            s@ == v@.subrange(0, i as int),
        decreases v.len() - i,
    {
        push_char(&mut s, v[i]);
        i = i + 1;
        assert(s@ =~= v@.subrange(0, i as int));
    }
    assert(s@ =~= v@);
    s
}

/// An owned copy of a string slice.
pub fn owned(s: &str) -> (r: String)
    ensures
        r@ == s@,
{
    String::from_str(s)
}

/// A copy of a `String`.
pub fn copy_string(s: &String) -> (r: String)
    ensures
        r@ == s@,
{
    s.clone()
}

/// Concatenation of two slices as a new `String`.
pub fn concat2(a: &str, b: &str) -> (r: String)
    ensures
        r@ == a@ + b@,
{
    let mut r = owned(a);
    push_str(&mut r, b);
    r
}

/// Concatenation of three slices.
pub fn concat3(a: &str, b: &str, c: &str) -> (r: String)
    ensures
        r@ == a@ + b@ + c@,
{
    let mut r = owned(a);
    push_str(&mut r, b);
    push_str(&mut r, c);
    r
}

/// Concatenation of four slices.
pub fn concat4(a: &str, b: &str, c: &str, d: &str) -> (r: String)
    ensures
        r@ == a@ + b@ + c@ + d@,
{
    let mut r = concat3(a, b, c);
    push_str(&mut r, d);
    r
}

/// Concatenation of five slices.
pub fn concat5(a: &str, b: &str, c: &str, d: &str, e: &str) -> (r: String)
    ensures
        r@ == a@ + b@ + c@ + d@ + e@,
{
    let mut r = concat4(a, b, c, d);
    push_str(&mut r, e);
    r
}

/// Exact equality of two slices.
pub fn str_eq(a: &str, b: &str) -> (r: bool)
    ensures
        r == (a@ == b@),
{
    let x = chars_of(a);
    let y = chars_of(b);
    if x.len() != y.len() {
        return false;
    }
    let mut i: usize = 0;
    while i < x.len()
        invariant
            x@ == a@,
            y@ == b@,
            x.len() == y.len(),
            i <= x.len(),
            forall|k: int| 0 <= k < i ==> x@[k] == y@[k],
        decreases x.len() - i,
    {
        if x[i] != y[i] {
            return false;
        }
        i = i + 1;
    }
    assert(x@ =~= y@);
    true
}

/// Whether `s` is empty.
pub fn is_empty_str(s: &str) -> (r: bool)
    ensures
        r == (s@.len() == 0),
{
    s.unicode_len() == 0
}

/// `char::is_whitespace`.
pub fn char_is_ws(c: char) -> (r: bool)
    ensures
        r == is_ws(c),
{
    c == '\t' || c == '\n' || c == '\u{0B}' || c == '\u{0C}' || c == '\r' || c == ' ' || c
        == '\u{85}' || c == '\u{A0}' || c == '\u{1680}' || ('\u{2000}' <= c && c <= '\u{200A}')
        || c == '\u{2028}' || c == '\u{2029}' || c == '\u{202F}' || c == '\u{205F}' || c
        == '\u{3000}'
}

/// `char::to_ascii_lowercase`.
pub fn char_ascii_lower(c: char) -> (r: char)
    ensures
        r == ascii_lower(c),
{
    if 'A' <= c && c <= 'Z' {
        let u: u32 = c as u32;
        ((u + 32) as u8) as char
    } else {
        c
    }
}

/// `char::to_ascii_uppercase`.
pub fn char_ascii_upper(c: char) -> (r: char)
    ensures
        r == ascii_upper(c),
{
    if 'a' <= c && c <= 'z' {
        let u: u32 = c as u32;
        ((u - 32) as u8) as char
    } else {
        c
    }
}

/// `str::trim` as characters.
pub fn trim_chars(s: &str) -> (r: Vec<char>)
    ensures
        r@ == trim_spec(s@),
{
    let v = chars_of(s);
    let n = v.len();
    let mut lo: usize = 0;
    while lo < n && char_is_ws(v[lo])
        invariant
            v@ == s@,
            n == v.len(),
            lo <= n,
            skip_ws_from(s@, lo as int) == skip_ws_from(s@, 0),
        decreases n - lo,
    {
        lo = lo + 1;
    }
    let mut hi: usize = n;
    while hi > lo && char_is_ws(v[hi - 1])
        invariant
            v@ == s@,
            n == v.len(),
            lo <= hi <= n,
            lo as int == skip_ws_from(s@, 0),
            trim_back_to(s@, lo as int, hi as int) == trim_back_to(s@, lo as int, n as int),
        decreases hi,
    {
        hi = hi - 1;
    }
    let mut r: Vec<char> = Vec::new();
    let mut i: usize = lo;
    while i < hi
        invariant
            v@ == s@,
            lo <= i <= hi <= n,
            n == v.len(),
            r@ == s@.subrange(lo as int, i as int),
        decreases hi - i,
    {
        r.push(v[i]);
        i = i + 1;
        assert(r@ =~= s@.subrange(lo as int, i as int));
    }
    r
}

/// `str::trim` into an owned `String`.
pub fn trim_string(s: &str) -> (r: String)
    ensures
        r@ == trim_spec(s@),
{
    let v = trim_chars(s);
    string_of(&v)
}

/// Case-insensitive (ASCII) suffix test on character sequences.
pub fn ends_with_ci_chars(s: &Vec<char>, suffix: &Vec<char>) -> (r: bool)
    ensures
        r == ends_with_ci(s@, suffix@),
{
    if suffix.len() > s.len() {
        return false;
    }
    let off = s.len() - suffix.len();
    let mut i: usize = 0;
    while i < suffix.len()
        invariant
            off == s.len() - suffix.len(),
            suffix.len() <= s.len(),
            i <= suffix.len(),
            forall|k: int|
                0 <= k < i ==> ascii_lower(#[trigger] s@[s@.len() - suffix@.len() + k])
                    == ascii_lower(suffix@[k]),
        decreases suffix.len() - i,
    {
        if char_ascii_lower(s[off + i]) != char_ascii_lower(suffix[i]) {
            return false;
        }
        i = i + 1;
    }
    true
}

/// Exact prefix test on characters.
pub fn starts_with_chars(s: &Vec<char>, prefix: &Vec<char>) -> (r: bool)
    ensures
        r == starts_with(s@, prefix@),
{
    if prefix.len() > s.len() {
        return false;
    }
    let mut i: usize = 0;
    while i < prefix.len()
        invariant
            prefix.len() <= s.len(),
            i <= prefix.len(),
            forall|k: int| 0 <= k < i ==> s@[k] == prefix@[k],
        decreases prefix.len() - i,
    {
        if s[i] != prefix[i] {
            assert(s@.subrange(0, prefix@.len() as int)[i as int] != prefix@[i as int]);
            return false;
        }
        i = i + 1;
    }
    assert(s@.subrange(0, prefix@.len() as int) =~= prefix@);
    true
}

/// Exact prefix test on slices.
pub fn str_starts_with(s: &str, prefix: &str) -> (r: bool)
    ensures
        r == starts_with(s@, prefix@),
{
    let a = chars_of(s);
    let b = chars_of(prefix);
    starts_with_chars(&a, &b)
}

/// Exact suffix test on slices.
pub fn str_ends_with(s: &str, suffix: &str) -> (r: bool)
    ensures
        r == ends_with(s@, suffix@),
{
    let a = chars_of(s);
    let b = chars_of(suffix);
    if b.len() > a.len() {
        return false;
    }
    let off = a.len() - b.len();
    let mut i: usize = 0;
    while i < b.len()
        invariant
            a@ == s@,
            b@ == suffix@,
            off == a.len() - b.len(),
            i <= b.len(),
            forall|k: int| 0 <= k < i ==> a@[off + k] == b@[k],
        decreases b.len() - i,
    {
        if a[off + i] != b[i] {
            assert(a@.subrange(off as int, a@.len() as int)[i as int] != b@[i as int]);
            return false;
        }
        i = i + 1;
    }
    assert(a@.subrange(off as int, a@.len() as int) =~= b@);
    true
}

/// Whether `s` contains the character `c`.
pub fn str_contains_char(s: &str, c: char) -> (r: bool)
    ensures
        r == s@.contains(c),
{
    let v = chars_of(s);
    let mut i: usize = 0;
    while i < v.len()
        invariant
            v@ == s@,
            i <= v.len(),
            forall|k: int| 0 <= k < i ==> v@[k] != c,
        decreases v.len() - i,
    {
        if v[i] == c {
            assert(s@[i as int] == c);
            return true;
        }
        i = i + 1;
    }
    false
}

/// Join strings with a separator.
pub fn join(parts: &Vec<String>, sep: &str) -> (r: String)
    ensures
        r@ == join_spec(views(parts@), sep@),
{
    let ghost vs = views(parts@);
    let mut r = String::new();
    let mut i: usize = 0;
    while i < parts.len()
        invariant
            vs == views(parts@),
            i <= parts.len(),
            r@ == join_spec(vs.subrange(0, i as int), sep@),
        decreases parts.len() - i,
    {
        let ghost prev = vs.subrange(0, i as int);
        assert(vs.subrange(0, i + 1).drop_last() =~= prev);
        if i > 0 {
            push_str(&mut r, sep);
        } else {
            assert(r@ =~= Seq::<char>::empty());
        }
        push_str(&mut r, parts[i].as_str());
        i = i + 1;
        assert(r@ =~= join_spec(vs.subrange(0, i as int), sep@));
    }
    assert(vs.subrange(0, parts.len() as int) =~= vs);
    r
}

/// The decimal digit character of `d` (for `d < 10`).
pub open spec fn digit_char(d: nat) -> char {
    if d == 0 {
        '0'
    } else if d == 1 {
        '1'
    } else if d == 2 {
        '2'
    } else if d == 3 {
        '3'
    } else if d == 4 {
        '4'
    } else if d == 5 {
        '5'
    } else if d == 6 {
        '6'
    } else if d == 7 {
        '7'
    } else if d == 8 {
        '8'
    } else {
        '9'
    }
}

/// Decimal notation of a natural number, without leading zeros.
pub open spec fn decimal(n: nat) -> Seq<char>
    decreases n,
{
    if n < 10 {
        seq![digit_char(n)]
    } else {
        decimal(n / 10).push(digit_char(n % 10))
    }
}

/// Decimal notation of an integer (`-` before negative numbers).
pub open spec fn signed_decimal(n: int) -> Seq<char> {
    if n < 0 {
        seq!['-'] + decimal((-n) as nat)
    } else {
        decimal(n as nat)
    }
}

fn digit(d: u64) -> (c: char)
    requires
        d < 10,
    ensures
        c == digit_char(d as nat),
{
    if d == 0 {
        '0'
    } else if d == 1 {
        '1'
    } else if d == 2 {
        '2'
    } else if d == 3 {
        '3'
    } else if d == 4 {
        '4'
    } else if d == 5 {
        '5'
    } else if d == 6 {
        '6'
    } else if d == 7 {
        '7'
    } else if d == 8 {
        '8'
    } else {
        '9'
    }
}

/// Append the decimal notation of `n`.
pub fn push_decimal(s: &mut String, n: u64)
    ensures
        final(s)@ == old(s)@ + decimal(n as nat),
    decreases n,
{
    if n >= 10 {
        push_decimal(s, n / 10);
        push_char(s, digit(n % 10));
        assert(old(s)@ + decimal(n as nat) =~= old(s)@ + decimal((n / 10) as nat) + seq![
            digit_char((n % 10) as nat),
        ]);
    } else {
        push_char(s, digit(n));
        assert(old(s)@.push(digit_char(n as nat)) =~= old(s)@ + decimal(n as nat));
    }
}

/// Decimal notation of `n`.
pub fn u64_to_decimal(n: u64) -> (r: String)
    ensures
        r@ == decimal(n as nat),
{
    let mut s = String::new();
    push_decimal(&mut s, n);
    assert(s@ =~= decimal(n as nat));
    s
}

/// Decimal notation of `n`, with `-` before negative numbers.
pub fn i64_to_decimal(n: i64) -> (r: String)
    ensures
        r@ == signed_decimal(n as int),
{
    if n < 0 {
        let mut s = String::new();
        push_char(&mut s, '-');
        let m: u64 = if n == i64::MIN {
            9223372036854775808u64
        } else {
            (-n) as u64
        };
        push_decimal(&mut s, m);
        assert(s@ =~= signed_decimal(n as int));
        s
    } else {
        u64_to_decimal(n as u64)
    }
}

/// `t` occurs in `s` as a contiguous run.
pub open spec fn contains_seq(s: Seq<char>, t: Seq<char>) -> bool {
    exists|i: int| 0 <= i <= s.len() - t.len() && #[trigger] s.subrange(i, i + t.len()) == t
}

/// Whether `t` occurs in `s` at offset `i` (exact).
fn occurs_at(s: &Vec<char>, t: &Vec<char>, i: usize) -> (r: bool)
    requires
        i + t.len() <= s.len(),
    ensures
        r == (s@.subrange(i as int, i + t.len()) == t@),
{
    let mut k: usize = 0;
    while k < t.len()
        invariant
            i + t.len() <= s.len(),
            k <= t.len(),
            forall|j: int| 0 <= j < k ==> s@[i + j] == t@[j],
        decreases t.len() - k,
    {
        if s[i + k] != t[k] {
            assert(s@.subrange(i as int, i + t.len())[k as int] != t@[k as int]);
            return false;
        }
        k = k + 1;
    }
    assert(s@.subrange(i as int, i + t.len()) =~= t@);
    true
}

/// Whether `t` occurs in `s`.
pub fn str_contains(s: &str, t: &str) -> (r: bool)
    ensures
        r == contains_seq(s@, t@),
{
    let a = chars_of(s);
    let b = chars_of(t);
    if b.len() > a.len() {
        assert(!contains_seq(s@, t@));
        return false;
    }
    let limit = a.len() - b.len();
    let mut i: usize = 0;
    while i <= limit
        invariant
            a@ == s@,
            b@ == t@,
            limit == a.len() - b.len(),
            i <= limit + 1,
            forall|j: int| 0 <= j < i ==> #[trigger] s@.subrange(j, j + t@.len()) != t@,
        decreases limit + 1 - i,
    {
        if occurs_at(&a, &b, i) {
            return true;
        }
        if i == limit {
            return false;
        }
        i = i + 1;
    }
    false
}

/// Lexicographic order on character sequences (by code point), as `str`'s
/// `Ord` orders them.
pub open spec fn lex_lt(a: Seq<char>, b: Seq<char>) -> bool
    decreases a.len(),
{
    if a.len() == 0 {
        b.len() > 0
    } else if b.len() == 0 {
        false
    } else if (a[0] as int) < (b[0] as int) {
        true
    } else if (a[0] as int) > (b[0] as int) {
        false
    } else {
        lex_lt(a.drop_first(), b.drop_first())
    }
}

pub proof fn lemma_lex_irreflexive(a: Seq<char>)
    ensures
        !lex_lt(a, a),
    decreases a.len(),
{
    if a.len() > 0 {
        lemma_lex_irreflexive(a.drop_first());
    }
}

pub proof fn lemma_lex_transitive(a: Seq<char>, b: Seq<char>, c: Seq<char>)
    requires
        lex_lt(a, b),
        lex_lt(b, c),
    ensures
        lex_lt(a, c),
    decreases a.len(),
{
    if a.len() > 0 && b.len() > 0 && c.len() > 0 {
        if (a[0] as int) == (b[0] as int) && (b[0] as int) == (c[0] as int) {
            lemma_lex_transitive(a.drop_first(), b.drop_first(), c.drop_first());
        }
    }
}

pub proof fn lemma_lex_total(a: Seq<char>, b: Seq<char>)
    requires
        a != b,
    ensures
        lex_lt(a, b) || lex_lt(b, a),
    decreases a.len(),
{
    if a.len() == 0 && b.len() == 0 {
        assert(a =~= b);
    }
    if a.len() > 0 && b.len() > 0 && (a[0] as int) == (b[0] as int) {
        assert(a[0] == b[0]);
        if a.drop_first() == b.drop_first() {
            assert(a =~= seq![a[0]] + a.drop_first());
            assert(b =~= seq![b[0]] + b.drop_first());
        }
        lemma_lex_total(a.drop_first(), b.drop_first());
    }
}

/// Strictly increasing in lexicographic order (so without repeats).
pub open spec fn sorted_strict(s: Seq<Seq<char>>) -> bool {
    forall|i: int, j: int| 0 <= i < j < s.len() ==> lex_lt(#[trigger] s[i], #[trigger] s[j])
}

/// The distinct strings of `s` in increasing order (the order a sorted set
/// of them is walked in).
pub open spec fn sorted_set(s: Seq<Seq<char>>) -> Seq<Seq<char>> {
    choose|t: Seq<Seq<char>>| sorted_strict(t) && forall|x: Seq<char>| t.contains(x) <==> s.contains(x)
}

/// Two strictly sorted sequences with the same strings are equal.
pub proof fn lemma_sorted_unique(a: Seq<Seq<char>>, b: Seq<Seq<char>>)
    requires
        sorted_strict(a),
        sorted_strict(b),
        forall|x: Seq<char>| a.contains(x) <==> b.contains(x),
    ensures
        a == b,
    decreases a.len(),
{
    if a.len() == 0 {
        if b.len() > 0 {
            assert(b.contains(b[0]));
        }
        assert(a =~= b);
    } else {
        assert(a.contains(a[0]));
        assert(b.len() > 0);
        assert(b.contains(b[0]));
        let j = choose|j: int| 0 <= j < b.len() && b[j] == a[0];
        let k = choose|k: int| 0 <= k < a.len() && a[k] == b[0];
        if a[0] != b[0] {
            if j > 0 {
                assert(lex_lt(b[0], b[j]));
                if k > 0 {
                    assert(lex_lt(a[0], a[k]));
                    lemma_lex_transitive(a[0], b[0], a[0]);
                    lemma_lex_irreflexive(a[0]);
                } else {
                    lemma_lex_irreflexive(a[0]);
                }
            } else {
                assert(b[0] == a[0]);
            }
        }
        let ta = a.drop_first();
        let tb = b.drop_first();
        assert(sorted_strict(ta)) by {
            assert forall|i: int, m: int| 0 <= i < m < ta.len() implies lex_lt(#[trigger] ta[i], #[trigger] ta[m]) by {
                assert(ta[i] == a[i + 1] && ta[m] == a[m + 1]);
            }
        }
        assert(sorted_strict(tb)) by {
            assert forall|i: int, m: int| 0 <= i < m < tb.len() implies lex_lt(#[trigger] tb[i], #[trigger] tb[m]) by {
                assert(tb[i] == b[i + 1] && tb[m] == b[m + 1]);
            }
        }
        assert forall|x: Seq<char>| ta.contains(x) <==> tb.contains(x) by {
            if ta.contains(x) {
                let i = choose|i: int| 0 <= i < ta.len() && ta[i] == x;
                assert(a[i + 1] == x);
                assert(lex_lt(a[0], a[i + 1]));
                lemma_lex_irreflexive(x);
                assert(b.contains(x));
                let m = choose|m: int| 0 <= m < b.len() && b[m] == x;
                assert(m != 0);
                assert(tb[m - 1] == x);
            }
            if tb.contains(x) {
                let i = choose|i: int| 0 <= i < tb.len() && tb[i] == x;
                assert(b[i + 1] == x);
                assert(lex_lt(b[0], b[i + 1]));
                lemma_lex_irreflexive(x);
                assert(a.contains(x));
                let m = choose|m: int| 0 <= m < a.len() && a[m] == x;
                assert(m != 0);
                assert(ta[m - 1] == x);
            }
        }
        lemma_sorted_unique(ta, tb);
        assert(a =~= seq![a[0]] + ta);
        assert(b =~= seq![b[0]] + tb);
    }
}

/// `sorted_set` is the one strictly sorted sequence with the strings of `s`
/// that `r` is, when `r` is strictly sorted with those strings.
pub proof fn lemma_sorted_set(r: Seq<Seq<char>>, s: Seq<Seq<char>>)
    requires
        sorted_strict(r),
        forall|x: Seq<char>| r.contains(x) <==> s.contains(x),
    ensures
        sorted_set(s) == r,
{
    let t = sorted_set(s);
    assert(sorted_strict(t) && forall|x: Seq<char>| t.contains(x) <==> s.contains(x));
    lemma_sorted_unique(t, r);
}

/// Whether `a` sorts before `b`.
pub fn str_lt(a: &str, b: &str) -> (r: bool)
    ensures
        r == lex_lt(a@, b@),
{
    let x = chars_of(a);
    let y = chars_of(b);
    let mut i: usize = 0;
    assert(a@.subrange(0, a@.len() as int) =~= a@);
    assert(b@.subrange(0, b@.len() as int) =~= b@);
    while i < x.len() && i < y.len()
        invariant
            x@ == a@,
            y@ == b@,
            i <= x.len(),
            i <= y.len(),
            lex_lt(a@, b@) == lex_lt(a@.subrange(i as int, a@.len() as int), b@.subrange(
                i as int,
                b@.len() as int,
            )),
        decreases x.len() - i,
    {
        let ghost sa = a@.subrange(i as int, a@.len() as int);
        let ghost sb = b@.subrange(i as int, b@.len() as int);
        assert(sa[0] == x@[i as int] && sb[0] == y@[i as int]);
        if x[i] < y[i] {
            return true;
        }
        if x[i] > y[i] {
            return false;
        }
        assert(sa.drop_first() =~= a@.subrange(i + 1, a@.len() as int));
        assert(sb.drop_first() =~= b@.subrange(i + 1, b@.len() as int));
        i = i + 1;
    }
    i == x.len() && i < y.len()
}

/// The distinct strings of `v`, sorted.
pub fn sorted_distinct(v: &Vec<String>) -> (r: Vec<String>)
    ensures
        sorted_strict(views(r@)),
        forall|x: Seq<char>| views(r@).contains(x) <==> views(v@).contains(x),
{
    let mut out: Vec<String> = Vec::new();
    let mut i: usize = 0;
    while i < v.len()
        invariant
            i <= v.len(),
            sorted_strict(views(out@)),
            forall|x: Seq<char>|
                views(out@).contains(x) <==> views(v@).subrange(0, i as int).contains(x),
        decreases v.len() - i,
    {
        let s = v[i].as_str();
        let ghost o = views(out@);
        // Position of the first element not below `s`.
        let mut p: usize = 0;
        while p < out.len() && str_lt(out[p].as_str(), s)
            invariant
                o == views(out@),
                p <= out.len(),
                forall|k: int| 0 <= k < p ==> lex_lt(#[trigger] o[k], s@),
            decreases out.len() - p,
        {
            p = p + 1;
        }
        let dup = p < out.len() && str_eq(out[p].as_str(), s);
        if !dup {
            proof {
                if p < out.len() {
                    lemma_lex_total(o[p as int], s@);
                }
            }
            out.insert(p, owned(s));
            let ghost n = views(out@);
            assert(n =~= o.subrange(0, p as int).push(s@) + o.subrange(p as int, o.len() as int));
            assert forall|a: int, b: int| 0 <= a < b < n.len() implies lex_lt(
                #[trigger] n[a],
                #[trigger] n[b],
            ) by {
                if b < p {
                    assert(n[a] == o[a] && n[b] == o[b]);
                } else if b == p {
                    assert(n[a] == o[a]);
                } else if a == p {
                    assert(n[b] == o[b - 1]);
                    if b - 1 > p {
                        lemma_lex_transitive(s@, o[p as int], o[b - 1]);
                    }
                } else if a < p {
                    assert(n[a] == o[a] && n[b] == o[b - 1]);
                } else {
                    assert(n[a] == o[a - 1] && n[b] == o[b - 1]);
                }
            }
            let ghost vi = views(v@).subrange(0, i as int);
            let ghost vi1 = views(v@).subrange(0, i + 1);
            assert(vi1 =~= vi.push(s@));
            assert forall|x: Seq<char>| n.contains(x) implies vi1.contains(x) by {
                let k = choose|k: int| 0 <= k < n.len() && n[k] == x;
                if k < p {
                    assert(o[k] == x);
                    assert(o.contains(x));
                    assert(vi.contains(x));
                    let t = choose|t: int| 0 <= t < vi.len() && vi[t] == x;
                    assert(vi1[t] == x);
                } else if k > p {
                    assert(o[k - 1] == x);
                    assert(o.contains(x));
                    assert(vi.contains(x));
                    let t = choose|t: int| 0 <= t < vi.len() && vi[t] == x;
                    assert(vi1[t] == x);
                } else {
                    assert(vi1[i as int] == x);
                }
            }
            assert forall|x: Seq<char>| vi1.contains(x) implies n.contains(x) by {
                let t = choose|t: int| 0 <= t < vi1.len() && vi1[t] == x;
                if t < i {
                    assert(vi[t] == x);
                    assert(vi.contains(x));
                    assert(o.contains(x));
                    let k = choose|k: int| 0 <= k < o.len() && o[k] == x;
                    if k < p {
                        assert(n[k] == x);
                    } else {
                        assert(n[k + 1] == x);
                    }
                } else {
                    assert(n[p as int] == x);
                }
            }
        } else {
            assert forall|x: Seq<char>| o.contains(x) <==> views(v@).subrange(0, i + 1).contains(
                x,
            ) by {
                assert(views(v@).subrange(0, i + 1) =~= views(v@).subrange(0, i as int).push(
                    s@,
                ));
                if x == s@ {
                    assert(o[p as int] == x);
                }
            }
        }
        i = i + 1;
    }
    assert(views(v@).subrange(0, v.len() as int) =~= views(v@));
    out
}

/// Index of the first whitespace character at or after `i` (or `s.len()`).
pub open spec fn next_ws_from(s: Seq<char>, i: int) -> int
    decreases s.len() - i,
{
    if 0 <= i < s.len() && !is_ws(s[i]) {
        next_ws_from(s, i + 1)
    } else {
        i
    }
}

proof fn lemma_next_ws_bounds(s: Seq<char>, i: int)
    requires
        0 <= i <= s.len(),
    ensures
        i <= next_ws_from(s, i) <= s.len(),
    decreases s.len() - i,
{
    if i < s.len() && !is_ws(s[i]) {
        lemma_next_ws_bounds(s, i + 1);
    }
}

/// Whitespace-separated words of `s` from position `i`, as
/// `str::split_whitespace` yields them.
pub open spec fn words_from(s: Seq<char>, i: int) -> Seq<Seq<char>>
    decreases s.len() - i,
{
    if i < 0 || i >= s.len() {
        Seq::empty()
    } else {
        let j = skip_ws_from(s, i);
        if j >= s.len() || j < i {
            Seq::empty()
        } else {
            let e = next_ws_from(s, j);
            if e <= j || e > s.len() {
                Seq::empty()
            } else {
                seq![s.subrange(j, e)] + words_from(s, e)
            }
        }
    }
}

/// Whitespace-separated words of `s`.
pub fn split_words(s: &str) -> (r: Vec<String>)
    ensures
        views(r@) == words_from(s@, 0),
{
    let v = chars_of(s);
    let ghost sv = v@;
    let mut out: Vec<String> = Vec::new();
    let mut i: usize = 0;
    assert(views(out@) =~= Seq::<Seq<char>>::empty());
    while i < v.len()
        invariant
            sv == v@,
            sv == s@,
            i <= v.len(),
            words_from(sv, 0) == views(out@) + words_from(sv, i as int),
        decreases v.len() - i,
    {
        let mut j = i;
        proof {
            lemma_skip_ws_bounds(sv, i as int);
        }
        while j < v.len() && char_is_ws(v[j])
            invariant
                sv == v@,
                i <= j <= v.len(),
                skip_ws_from(sv, i as int) == skip_ws_from(sv, j as int),
            decreases v.len() - j,
        {
            j = j + 1;
        }
        if j >= v.len() {
            assert(words_from(sv, i as int) =~= Seq::<Seq<char>>::empty());
            assert(views(out@) + Seq::<Seq<char>>::empty() =~= views(out@));
            return out;
        }
        let mut e = j;
        proof {
            lemma_next_ws_bounds(sv, j as int);
        }
        while e < v.len() && !char_is_ws(v[e])
            invariant
                sv == v@,
                j <= e <= v.len(),
                next_ws_from(sv, j as int) == next_ws_from(sv, e as int),
            decreases v.len() - e,
        {
            e = e + 1;
        }
        let word = crate::template::substring(&v, j, e);
        let ghost before = views(out@);
        let ghost wv = word@;
        out.push(word);
        assert(views(out@) =~= before.push(wv));
        assert(before + (seq![wv] + words_from(sv, e as int)) =~= before.push(wv) + words_from(
            sv,
            e as int,
        ));
        i = e;
    }
    assert(words_from(sv, i as int) =~= Seq::<Seq<char>>::empty());
    assert(views(out@) + Seq::<Seq<char>>::empty() =~= views(out@));
    out
}

/// Lines of `s` from position `i`, as `str::lines` yields them: split at
/// `\n`, a `\r` before that `\n` dropped, no empty line after a final `\n`.
pub open spec fn lines_from(s: Seq<char>, i: int) -> Seq<Seq<char>>
    decreases s.len() - i,
{
    if i < 0 || i >= s.len() {
        Seq::empty()
    } else {
        match find_char_from(s, '\n', i) {
            None => seq![s.subrange(i, s.len() as int)],
            Some(e) => if e < i || e >= s.len() {
                Seq::empty()
            } else {
                let raw = s.subrange(i, e);
                let line = if raw.len() > 0 && raw.last() == '\r' {
                    raw.drop_last()
                } else {
                    raw
                };
                seq![line] + lines_from(s, e + 1)
            },
        }
    }
}

/// Lines of `s`, as `str::lines` yields them.
pub fn split_lines(s: &str) -> (r: Vec<String>)
    ensures
        views(r@) == lines_from(s@, 0),
{
    let v = chars_of(s);
    let ghost sv = v@;
    let mut out: Vec<String> = Vec::new();
    let mut i: usize = 0;
    assert(views(out@) =~= Seq::<Seq<char>>::empty());
    while i < v.len()
        invariant
            sv == v@,
            sv == s@,
            i <= v.len(),
            lines_from(sv, 0) == views(out@) + lines_from(sv, i as int),
        decreases v.len() - i,
    {
        proof {
            lemma_find_char_from(sv, '\n', i as int);
        }
        let ghost before = views(out@);
        match crate::template::find_char(&v, '\n', i) {
            None => {
                let line = crate::template::substring(&v, i, v.len());
                let ghost lv = line@;
                out.push(line);
                assert(views(out@) =~= before.push(lv));
                assert(before + seq![lv] =~= before.push(lv));
                return out;
            },
            Some(e) => {
                let raw = crate::template::substring(&v, i, e);
                let line = if e > i && v[e - 1] == '\r' {
                    crate::template::substring(&v, i, e - 1)
                } else {
                    raw
                };
                let ghost r = sv.subrange(i as int, e as int);
                assert(line@ == (if r.len() > 0 && r.last() == '\r' {
                    r.drop_last()
                } else {
                    r
                })) by {
                    if e > i && sv[e - 1] == '\r' {
                        assert(sv.subrange(i as int, e - 1) =~= r.drop_last());
                    }
                }
                let ghost lv = line@;
                out.push(line);
                assert(views(out@) =~= before.push(lv));
                assert(before + (seq![lv] + lines_from(sv, e + 1)) =~= before.push(lv) + lines_from(
                    sv,
                    e + 1,
                ));
                i = e + 1;
            },
        }
    }
    assert(lines_from(sv, i as int) =~= Seq::<Seq<char>>::empty());
    assert(views(out@) + Seq::<Seq<char>>::empty() =~= views(out@));
    out
}

} // verus!
