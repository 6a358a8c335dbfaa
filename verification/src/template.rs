//! Template text: literal runs and `{name}` variables.

use vstd::prelude::*;

use crate::errors::{ExtensionError, TemplateErrorKind};
use crate::text::{chars_of, concat3, find_char_from, lemma_find_char_from, push_char};

verus! {

/// One piece of a template.
#[derive(Debug)]
pub enum TemplatePart {
    /// Literal text.
    Lit(String),
    /// A `{name}` variable (the name without braces).
    Var(String),
}

/// Mathematical form of a [`TemplatePart`].
pub enum PartView {
    Lit(Seq<char>),
    Var(Seq<char>),
}

/// Views of a list of parts.
pub open spec fn parts_view(v: Seq<TemplatePart>) -> Seq<PartView> {
    v.map_values(
        |p: TemplatePart|
            match p {
                TemplatePart::Lit(s) => PartView::Lit(s@),
                TemplatePart::Var(s) => PartView::Var(s@),
            },
    )
}

/// Parts of `s` from position `i`; `None` when a `{` has no closing `}`.
pub open spec fn parse_from(s: Seq<char>, i: int) -> Option<Seq<PartView>>
    decreases s.len() - i,
{
    if i < 0 || i > s.len() {
        None
    } else {
        match find_char_from(s, '{', i) {
            None => if i < s.len() {
                Some(seq![PartView::Lit(s.subrange(i, s.len() as int))])
            } else {
                Some(Seq::empty())
            },
            Some(st) => {
                let lit: Seq<PartView> = if st > i {
                    seq![PartView::Lit(s.subrange(i, st))]
                } else {
                    Seq::empty()
                };
                match find_char_from(s, '}', st + 1) {
                    None => None,
                    Some(en) => if i < en + 1 <= s.len() {
                        match parse_from(s, en + 1) {
                            None => None,
                            Some(rest) => Some(
                                lit + seq![PartView::Var(s.subrange(st + 1, en))] + rest,
                            ),
                        }
                    } else {
                        None
                    },
                }
            },
        }
    }
}

/// Parts of a template; `None` when a `{` has no closing `}`.
pub open spec fn parse_spec(s: Seq<char>) -> Option<Seq<PartView>> {
    parse_from(s, 0)
}

/// Variable names of `s` from position `i`, stopping at an unclosed `{`.
pub open spec fn vars_from(s: Seq<char>, i: int) -> Seq<Seq<char>>
    decreases s.len() - i,
{
    if i < 0 || i > s.len() {
        Seq::empty()
    } else {
        match find_char_from(s, '{', i) {
            None => Seq::empty(),
            Some(st) => match find_char_from(s, '}', st + 1) {
                None => Seq::empty(),
                Some(en) => if i < en + 1 <= s.len() {
                    seq![s.subrange(st + 1, en)] + vars_from(s, en + 1)
                } else {
                    Seq::empty()
                },
            },
        }
    }
}

/// Variable names of a template, in order, up to an unclosed `{`.
pub open spec fn template_vars(s: Seq<char>) -> Seq<Seq<char>> {
    vars_from(s, 0)
}

/// First position at or after `from` holding `c`.
pub fn find_char(v: &Vec<char>, c: char, from: usize) -> (r: Option<usize>)
    ensures
        match r {
            Some(k) => find_char_from(v@, c, from as int) == Some(k as int),
            None => find_char_from(v@, c, from as int) is None,
        },
{
    proof {
        lemma_find_char_from(v@, c, from as int);
    }
    let mut k = from;
    while k < v.len()
        invariant
            from <= k,
            forall|j: int| from <= j < k ==> #[trigger] v@[j] != c,
            match find_char_from(v@, c, from as int) {
                Some(m) => from <= m < v@.len() && v@[m] == c && forall|j: int|
                    from <= j < m ==> #[trigger] v@[j] != c,
                None => forall|j: int| from <= j < v@.len() ==> #[trigger] v@[j] != c,
            },
        decreases v.len() - k,
    {
        if v[k] == c {
            return Some(k);
        }
        k = k + 1;
    }
    None
}

/// The characters `v[a..b]` as a string.
pub fn substring(v: &Vec<char>, a: usize, b: usize) -> (r: String)
    requires
        a <= b <= v.len(),
    ensures
        r@ == v@.subrange(a as int, b as int),
{
    let mut s = String::new();
    let mut k = a;
    while k < b
        invariant
            a <= k <= b <= v.len(),
            s@ == v@.subrange(a as int, k as int),
        decreases b - k,
    {
        push_char(&mut s, v[k]);
        k = k + 1;
        assert(s@ =~= v@.subrange(a as int, k as int));
    }
    s
}

/// Split a template into literal runs and `{name}` variables. A `{` without
/// a closing `}` is an `UnclosedBrace` template error.
pub fn parse_template(template: &str) -> (r: Result<Vec<TemplatePart>, ExtensionError>)
    ensures
        match r {
            Ok(parts) => parse_spec(template@) == Some(parts_view(parts@)),
            Err(e) => parse_spec(template@) is None && e == (ExtensionError::Template {
                kind: TemplateErrorKind::UnclosedBrace,
                message: e->Template_message,
            }) && e->Template_message@ == "unclosed '{' in template '"@ + template@ + "'"@,
        },
{
    let v = chars_of(template);
    let ghost s = v@;
    let mut out: Vec<TemplatePart> = Vec::new();
    let mut i: usize = 0;
    assert(parts_view(out@) =~= Seq::<PartView>::empty());
    loop
        invariant
            s == v@,
            s == template@,
            i <= v.len(),
            forall|tail: Seq<PartView>|
                parse_from(s, i as int) == Some(tail) ==> parse_spec(s) == Some(
                    parts_view(out@) + tail,
                ),
            parse_from(s, i as int) is None ==> parse_spec(s) is None,
        decreases v.len() - i,
    {
        match find_char(&v, '{', i) {
            None => {
                proof {
                    lemma_find_char_from(s, '{', i as int);
                }
                let ghost before = parts_view(out@);
                if i < v.len() {
                    let lit = substring(&v, i, v.len());
                    out.push(TemplatePart::Lit(lit));
                    assert(parts_view(out@) =~= before + seq![
                        PartView::Lit(s.subrange(i as int, s.len() as int)),
                    ]);
                } else {
                    assert(before + Seq::<PartView>::empty() =~= before);
                }
                return Ok(out);
            },
            Some(st) => {
                proof {
                    lemma_find_char_from(s, '{', i as int);
                    lemma_find_char_from(s, '}', st + 1);
                }
                match find_char(&v, '}', st + 1) {
                    None => {
                        let message = concat3("unclosed '{' in template '", template, "'");
                        return Err(
                            ExtensionError::Template {
                                kind: TemplateErrorKind::UnclosedBrace,
                                message,
                            },
                        );
                    },
                    Some(en) => {
                        let ghost before = parts_view(out@);
                        let ghost lit: Seq<PartView> = if st > i {
                            seq![PartView::Lit(s.subrange(i as int, st as int))]
                        } else {
                            Seq::empty()
                        };
                        if st > i {
                            let l = substring(&v, i, st);
                            out.push(TemplatePart::Lit(l));
                        }
                        let name = substring(&v, st + 1, en);
                        out.push(TemplatePart::Var(name));
                        assert(parts_view(out@) =~= before + lit + seq![
                            PartView::Var(s.subrange(st + 1, en as int)),
                        ]);
                        assert forall|tail: Seq<PartView>|
                            parse_from(s, en + 1) == Some(tail) implies parse_spec(s) == Some(
                            parts_view(out@) + tail,
                        ) by {
                            assert(parse_from(s, i as int) == Some(
                                lit + seq![PartView::Var(s.subrange(st + 1, en as int))] + tail,
                            ));
                            assert(before + (lit + seq![
                                PartView::Var(s.subrange(st + 1, en as int)),
                            ] + tail) =~= parts_view(out@) + tail);
                        }
                        i = en + 1;
                    },
                }
            },
        }
    }
}

/// Variable names of a template, in order, up to an unclosed `{`.
pub fn collect_template_vars(template: &str) -> (r: Vec<String>)
    ensures
        crate::text::views(r@) == template_vars(template@),
{
    let v = chars_of(template);
    let ghost s = v@;
    let mut out: Vec<String> = Vec::new();
    let mut i: usize = 0;
    assert(crate::text::views(out@) =~= Seq::<Seq<char>>::empty());
    loop
        invariant
            s == v@,
            s == template@,
            i <= v.len(),
            template_vars(s) == crate::text::views(out@) + vars_from(s, i as int),
        decreases v.len() - i,
    {
        let ghost before = crate::text::views(out@);
        match find_char(&v, '{', i) {
            None => {
                assert(before + Seq::<Seq<char>>::empty() =~= before);
                return out;
            },
            Some(st) => {
                proof {
                    lemma_find_char_from(s, '{', i as int);
                    lemma_find_char_from(s, '}', st + 1);
                }
                match find_char(&v, '}', st + 1) {
                    None => {
                        assert(before + Seq::<Seq<char>>::empty() =~= before);
                        return out;
                    },
                    Some(en) => {
                        let name = substring(&v, st + 1, en);
                        let ghost nv = name@;
                        out.push(name);
                        assert(crate::text::views(out@) =~= before.push(nv));
                        assert(before + (seq![nv] + vars_from(s, en + 1)) =~= before.push(nv)
                            + vars_from(s, en + 1));
                        i = en + 1;
                    },
                }
            },
        }
    }
}

/// Template text of a list of parts: literals as written, variables in braces.
pub open spec fn render_parts(ps: Seq<PartView>) -> Seq<char>
    decreases ps.len(),
{
    if ps.len() == 0 {
        Seq::empty()
    } else {
        render_parts(ps.drop_last()) + match ps.last() {
            PartView::Lit(l) => l,
            PartView::Var(n) => seq!['{'] + n + seq!['}'],
        }
    }
}

proof fn lemma_render_concat(a: Seq<PartView>, b: Seq<PartView>)
    ensures
        render_parts(a + b) == render_parts(a) + render_parts(b),
    decreases b.len(),
{
    if b.len() == 0 {
        assert(a + b =~= a);
    } else {
        lemma_render_concat(a, b.drop_last());
        assert((a + b).drop_last() =~= a + b.drop_last());
    }
}

proof fn lemma_parse_from_renders(s: Seq<char>, i: int)
    requires
        0 <= i <= s.len(),
    ensures
        parse_from(s, i) matches Some(ps) ==> render_parts(ps) == s.subrange(i, s.len() as int),
    decreases s.len() - i,
{
    lemma_find_char_from(s, '{', i);
    assert(render_parts(Seq::<PartView>::empty()) == Seq::<char>::empty());
    match find_char_from(s, '{', i) {
        None => {
            if i < s.len() {
                let ps = seq![PartView::Lit(s.subrange(i, s.len() as int))];
                assert(ps.drop_last() =~= Seq::<PartView>::empty());
                assert(render_parts(ps) =~= s.subrange(i, s.len() as int));
            } else {
                assert(s.subrange(i, s.len() as int) =~= Seq::<char>::empty());
            }
        },
        Some(st) => {
            lemma_find_char_from(s, '}', st + 1);
            match find_char_from(s, '}', st + 1) {
                None => {},
                Some(en) => {
                    lemma_parse_from_renders(s, en + 1);
                    if let Some(rest) = parse_from(s, en + 1) {
                        let lit: Seq<PartView> = if st > i {
                            seq![PartView::Lit(s.subrange(i, st))]
                        } else {
                            Seq::empty()
                        };
                        let var = seq![PartView::Var(s.subrange(st + 1, en))];
                        lemma_render_concat(lit + var, rest);
                        lemma_render_concat(lit, var);
                        assert(var.drop_last() =~= Seq::<PartView>::empty());
                        if st > i {
                            assert(lit.drop_last() =~= Seq::<PartView>::empty());
                            assert(render_parts(lit) =~= s.subrange(i, st));
                        } else {
                            assert(render_parts(lit) =~= s.subrange(i, st));
                        }
                        assert(render_parts(var) =~= seq!['{'] + s.subrange(st + 1, en) + seq![
                            '}',
                        ]);
                        assert(s.subrange(i, s.len() as int) =~= s.subrange(i, st) + (seq!['{']
                            + s.subrange(st + 1, en) + seq!['}']) + s.subrange(
                            en + 1,
                            s.len() as int,
                        ));
                    }
                },
            }
        },
    }
}

/// Parsing a template and writing its parts back (variables in braces)
/// gives the template again.
pub proof fn lemma_parse_render_roundtrip(s: Seq<char>)
    ensures
        parse_spec(s) matches Some(ps) ==> render_parts(ps) == s,
{
    lemma_parse_from_renders(s, 0);
    assert(s.subrange(0, s.len() as int) =~= s);
}

} // verus!
