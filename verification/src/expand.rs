//! Two-phase template substitution: phase 1 expands preexec `cmd`/`args`,
//! phase 2 the command JSON (or `command_from_file` path) and host overrides.

use vstd::prelude::*;

use crate::catalog::{example_line, example_line_spec, invocation_line, invocation_spec, skill_help_command, skill_help_spec};
use crate::envelope::{push_owned, push_string};
use vstd::pervasive::VecAdditionalExecFns;
use crate::errors::{ExtensionError, TemplateErrorKind};
use crate::ids::ArgName;
use crate::json::{JsonValue, JsonView};
use crate::matching::{file_name_of, kind_path, kind_rest, match_kind, path_file_name, stem_split, ExtensionMatch};
use crate::registry::{opt_view, ExtensionDef, PreexecSpec};
use crate::skill_args::{args_view, declared_args_spec, declared_skill_args, ArgView, SkillArg};
use crate::template::{
    parse_spec, parse_template, parts_view, substring, PartView, TemplatePart,
};
use crate::text::{
    chars_of, concat2, concat3, contains_seq, decimal, push_decimal, copy_string, ends_with, find_char_from,
    is_empty_str, join, join_spec, lemma_find_char_from, owned, push_char, push_str,
    sorted_distinct, sorted_strict, starts_with, str_contains_char, str_ends_with, str_eq,
    str_starts_with, trim_spec, views,
};

verus! {

/// Context collected from an argv match plus optional preexec outputs.
#[derive(Debug)]
pub struct MatchContext {
    /// Matched file path (`None` for prefix-only matches).
    pub path: Option<String>,
    /// Tokens after an argv prefix.
    pub args_after_prefix: Vec<String>,
    /// Captured preexec stdout when `preexec.stdout` is `markdown`.
    pub preexec_stdout: Option<String>,
    /// Lexicographically first `*.html` under `{tmpdir}/pages/`.
    pub rendered_basename: Option<String>,
    /// Secure temp dir path when `{tmpdir}` is referenced.
    pub tmpdir: Option<String>,
    /// Unified `{wyvern_share}` root.
    pub wyvern_share: String,
    /// Nearest ancestor of `path`'s directory holding `wizard.json` or
    /// `pages/`, as found by the caller; `None` stands for the start
    /// directory (the path's parent, or `.`), as when no marker is found.
    pub wizard_root: Option<String>,
}

/// Initial context of a match (no preexec outputs yet).
pub fn build_match_context<'a>(m: &ExtensionMatch<'a>, wyvern_share: &str) -> (r: MatchContext)
    ensures
        opt_view(r.path) == kind_path(match_kind(*m)),
        views(r.args_after_prefix@) == kind_rest(match_kind(*m)),
        r.preexec_stdout is None,
        r.rendered_basename is None,
        r.tmpdir is None,
        r.wyvern_share@ == wyvern_share@,
        r.wizard_root is None,
{
    let path = match m.path() {
        Some(p) => Some(owned(p)),
        None => None,
    };
    let rest = m.args_after_prefix();
    let mut args: Vec<String> = Vec::new();
    let mut i: usize = 0;
    while i < rest.len()
        invariant
            i <= rest.len(),
            views(args@) == views(rest@).subrange(0, i as int),
        decreases rest.len() - i,
    {
        push_string(&mut args, copy_string(&rest[i]));
        assert(views(rest@).subrange(0, i + 1) =~= views(rest@).subrange(0, i as int).push(
            rest@[i as int]@,
        ));
        i = i + 1;
    }
    assert(views(rest@).subrange(0, rest.len() as int) =~= views(rest@));
    MatchContext {
        path,
        args_after_prefix: args,
        preexec_stdout: None,
        rendered_basename: None,
        tmpdir: None,
        wyvern_share: owned(wyvern_share),
        wizard_root: None,
    }
}

/// Expansion phase.
#[derive(Debug, Clone, Copy, PartialEq, Eq)]
pub enum Phase {
    /// Phase 1: preexec `cmd` and `args`.
    Preexec,
    /// Phase 2: command JSON and host overrides.
    Command,
}

/// Why an expansion failed; the error also carries the extension's declared
/// flags, id, example and help command where the kind calls for them.
pub enum ExpandFailure {
    /// Required flags (with dashes) were not given.
    Missing(Seq<Seq<char>>),
    /// A token after the prefix is not accepted.
    Unexpected(Seq<char>),
    /// A path variable was used without a matched path.
    PathVar(Seq<char>),
    /// A template failure of the given kind, with its message.
    Template(TemplateErrorKind, Seq<char>),
}

/// Names of the declared flags of an extension.
pub open spec fn declared_names(ext: ExtensionDef) -> Seq<Seq<char>> {
    declared_args_spec(ext@).map_values(|a: ArgView| a.name)
}

/// Copy-paste example of an extension: its first registry example, or the
/// generated one.
pub open spec fn example_spec(ext: ExtensionDef) -> Seq<char> {
    if ext.examples@.len() > 0 {
        ext.examples@[0]@
    } else {
        let args = declared_args_spec(ext@);
        example_line_spec(ext.match_spec@, invocation_spec(ext.match_spec@, args), args)
    }
}

/// `declared` lists the declared flag names of `ext`, sorted, once each.
pub open spec fn declared_listing(declared: Seq<Seq<char>>, ext: ExtensionDef) -> bool {
    &&& sorted_strict(declared)
    &&& forall|x: Seq<char>| declared.contains(x) <==> declared_names(ext).contains(x)
}

/// `e` is the extension error reporting failure `f` of `ext`.
pub open spec fn failure_error(ext: ExtensionDef, f: ExpandFailure, e: ExtensionError) -> bool {
    match f {
        ExpandFailure::Missing(m) => match e {
            ExtensionError::MissingArgs { missing, declared, extension_id, example, help_command } => {
                &&& views(missing@) == m
                &&& declared_listing(views(declared@), ext)
                &&& extension_id@ == ext.id@
                &&& example@ == example_spec(ext)
                &&& help_command@ == skill_help_spec(ext@)
            },
            _ => false,
        },
        ExpandFailure::Unexpected(t) => match e {
            ExtensionError::UnexpectedArg { token, declared, extension_id, help_command } => {
                &&& token@ == t
                &&& declared_listing(views(declared@), ext)
                &&& extension_id@ == ext.id@
                &&& help_command@ == skill_help_spec(ext@)
            },
            _ => false,
        },
        ExpandFailure::PathVar(v) => match e {
            ExtensionError::PathVarWithoutPath { var } => var@ == v,
            _ => false,
        },
        ExpandFailure::Template(k, msg) => match e {
            ExtensionError::Template { kind, message } => kind == k && message@ == msg,
            _ => false,
        },
    }
}

/// Parsed flag values, keyed by trimmed flag name.
pub open spec fn key_index(args: Seq<(Seq<char>, Seq<Seq<char>>)>, name: Seq<char>) -> Option<int>
    decreases args.len(),
{
    if args.len() == 0 {
        None
    } else {
        match key_index(args.drop_last(), name) {
            Some(k) => Some(k),
            None => if args.last().0 == name {
                Some(args.len() - 1)
            } else {
                None
            },
        }
    }
}

proof fn lemma_key_index(args: Seq<(Seq<char>, Seq<Seq<char>>)>, name: Seq<char>)
    ensures
        match key_index(args, name) {
            Some(k) => 0 <= k < args.len() && args[k].0 == name && forall|j: int|
                0 <= j < k ==> #[trigger] args[j].0 != name,
            None => forall|j: int| 0 <= j < args.len() ==> #[trigger] args[j].0 != name,
        },
    decreases args.len(),
{
    if args.len() > 0 {
        lemma_key_index(args.drop_last(), name);
        assert forall|j: int| 0 <= j < args.len() - 1 implies #[trigger] args[j] == args.drop_last()[j] by {}
    }
}

/// Values given for flag `name`.
pub open spec fn arg_values(args: Seq<(Seq<char>, Seq<Seq<char>>)>, name: Seq<char>) -> Option<Seq<Seq<char>>> {
    match key_index(args, name) {
        Some(k) => Some(args[k].1),
        None => None,
    }
}

/// Record one more value for flag `name`.
pub open spec fn args_add(
    args: Seq<(Seq<char>, Seq<Seq<char>>)>,
    name: Seq<char>,
    value: Seq<char>,
) -> Seq<(Seq<char>, Seq<Seq<char>>)> {
    match key_index(args, name) {
        Some(k) => args.update(k, (name, args[k].1.push(value))),
        None => args.push((name, seq![value])),
    }
}

/// Parse `--name value` / `--name=value` flags after the prefix from
/// position `i`; the matched path token is skipped; anything else is
/// unexpected.
pub open spec fn parse_args_from(
    tokens: Seq<Seq<char>>,
    i: int,
    declared: Seq<Seq<char>>,
    path: Option<Seq<char>>,
    acc: Seq<(Seq<char>, Seq<Seq<char>>)>,
) -> Result<Seq<(Seq<char>, Seq<Seq<char>>)>, ExpandFailure>
    decreases tokens.len() - i,
{
    if i < 0 || i >= tokens.len() {
        Ok(acc)
    } else {
        let token = tokens[i];
        if starts_with(token, "--"@) {
            let name = token.subrange(2, token.len() as int);
            if name.len() == 0 {
                Err(ExpandFailure::Unexpected(token))
            } else {
                let (n, inline) = match find_char_from(name, '=', 0) {
                    Some(k) => (name.subrange(0, k), Some(name.subrange(k + 1, name.len() as int))),
                    None => (name, None),
                };
                let key = trim_spec(n);
                if key.len() == 0 || !declared.contains(key) {
                    Err(ExpandFailure::Unexpected(token))
                } else {
                    match inline {
                        Some(v) => parse_args_from(tokens, i + 1, declared, path, args_add(acc, key, v)),
                        None => if i + 1 < tokens.len() {
                            parse_args_from(
                                tokens,
                                i + 2,
                                declared,
                                path,
                                args_add(acc, key, tokens[i + 1]),
                            )
                        } else {
                            Err(ExpandFailure::Missing(seq!["--"@ + n]))
                        },
                    }
                }
            }
        } else if path == Some(token) {
            parse_args_from(tokens, i + 1, declared, path, acc)
        } else {
            Err(ExpandFailure::Unexpected(token))
        }
    }
}

/// Required flags (with dashes) of `skill` that have no value in `args`.
pub open spec fn missing_required(skill: Seq<ArgView>, args: Seq<(Seq<char>, Seq<Seq<char>>)>) -> Seq<Seq<char>>
    decreases skill.len(),
{
    if skill.len() == 0 {
        Seq::empty()
    } else {
        let prev = missing_required(skill.drop_last(), args);
        let a = skill.last();
        if a.required && key_index(args, a.name) is None {
            prev.push("--"@ + a.name)
        } else {
            prev
        }
    }
}

/// Flag values of a match context, or why they are unusable.
pub open spec fn env_args(ext: ExtensionDef, ctx: MatchContext) -> Result<Seq<(Seq<char>, Seq<Seq<char>>)>, ExpandFailure> {
    match parse_args_from(
        views(ctx.args_after_prefix@),
        0,
        declared_names(ext),
        opt_view(ctx.path),
        Seq::empty(),
    ) {
        Err(f) => Err(f),
        Ok(args) => {
            let missing = missing_required(declared_args_spec(ext@), args);
            if missing.len() > 0 {
                Err(ExpandFailure::Missing(missing))
            } else {
                Ok(args)
            }
        },
    }
}

/// The matched path token is never an unexpected argument: from any
/// position, tokens that are all the matched path (and do not read as a
/// `--` flag) parse to the flags already gathered, whatever is declared.
pub proof fn lemma_path_tokens_are_skipped(
    tokens: Seq<Seq<char>>,
    i: int,
    declared: Seq<Seq<char>>,
    p: Seq<char>,
    acc: Seq<(Seq<char>, Seq<Seq<char>>)>,
)
    requires
        0 <= i,
        forall|k: int| i <= k < tokens.len() ==> #[trigger] tokens[k] == p,
        !starts_with(p, "--"@),
    ensures
        parse_args_from(tokens, i, declared, Some(p), acc) == Ok::<
            Seq<(Seq<char>, Seq<Seq<char>>)>,
            ExpandFailure,
        >(acc),
    decreases tokens.len() - i,
{
    if i < tokens.len() {
        assert(tokens[i] == p);
        lemma_path_tokens_are_skipped(tokens, i + 1, declared, p, acc);
    }
}

/// Wherever the matched path token stands among the tokens after the prefix
/// (where a token is read, not as a flag's value), the parse goes on past
/// it as if it were absent: it neither fails nor records a flag.
pub proof fn lemma_path_token_is_transparent(
    tokens: Seq<Seq<char>>,
    i: int,
    declared: Seq<Seq<char>>,
    p: Seq<char>,
    acc: Seq<(Seq<char>, Seq<Seq<char>>)>,
)
    requires
        0 <= i < tokens.len(),
        tokens[i] == p,
        !starts_with(p, "--"@),
    ensures
        parse_args_from(tokens, i, declared, Some(p), acc) == parse_args_from(
            tokens.remove(i),
            i,
            declared,
            Some(p),
            acc,
        ),
{
    lemma_parse_shift(tokens, i + 1, declared, Some(p), acc, i);
}

/// Parsing from `j > i` does not look at tokens before `j`, so removing
/// token `i` shifts positions by one.
proof fn lemma_parse_shift(
    tokens: Seq<Seq<char>>,
    j: int,
    declared: Seq<Seq<char>>,
    path: Option<Seq<char>>,
    acc: Seq<(Seq<char>, Seq<Seq<char>>)>,
    i: int,
)
    requires
        0 <= i < j,
        i < tokens.len(),
    ensures
        parse_args_from(tokens, j, declared, path, acc) == parse_args_from(
            tokens.remove(i),
            j - 1,
            declared,
            path,
            acc,
        ),
    decreases tokens.len() - j,
{
    let t2 = tokens.remove(i);
    if j < tokens.len() {
        assert(t2[j - 1] == tokens[j]);
        if j + 1 < tokens.len() {
            assert(t2[j] == tokens[j + 1]);
        }
        let token = tokens[j];
        if starts_with(token, "--"@) {
            let name = token.subrange(2, token.len() as int);
            let (n, inline) = match find_char_from(name, '=', 0) {
                Some(k) => (name.subrange(0, k), Some(name.subrange(k + 1, name.len() as int))),
                None => (name, None),
            };
            let key = trim_spec(n);
            match inline {
                Some(v) => {
                    lemma_parse_shift(tokens, j + 1, declared, path, args_add(acc, key, v), i);
                },
                None => {
                    if j + 1 < tokens.len() {
                        lemma_parse_shift(
                            tokens,
                            j + 2,
                            declared,
                            path,
                            args_add(acc, key, tokens[j + 1]),
                            i,
                        );
                    }
                },
            }
        } else {
            lemma_parse_shift(tokens, j + 1, declared, path, acc, i);
        }
    }
}

proof fn lemma_none_required_none_missing(skill: Seq<ArgView>, args: Seq<(Seq<char>, Seq<Seq<char>>)>)
    requires
        forall|k: int| 0 <= k < skill.len() ==> !(#[trigger] skill[k]).required,
    ensures
        missing_required(skill, args).len() == 0,
    decreases skill.len(),
{
    if skill.len() > 0 {
        assert(!skill[skill.len() - 1].required);
        lemma_none_required_none_missing(skill.drop_last(), args);
    }
}

/// A match whose only tokens after the prefix are its matched path yields
/// no flags and no failure when the extension requires no flag: the path is
/// not reported as an unexpected argument.
pub proof fn lemma_path_only_match_has_no_flags(ext: ExtensionDef, ctx: MatchContext)
    requires
        ctx.path matches Some(p) && forall|k: int|
            0 <= k < ctx.args_after_prefix@.len() ==> (#[trigger] ctx.args_after_prefix@[k])@ == p@,
        ctx.path matches Some(p) && !starts_with(p@, "--"@),
        forall|k: int|
            0 <= k < declared_args_spec(ext@).len() ==> !(#[trigger] declared_args_spec(ext@)[k]).required,
    ensures
        env_args(ext, ctx) == Ok::<Seq<(Seq<char>, Seq<Seq<char>>)>, ExpandFailure>(Seq::empty()),
{
    let p = ctx.path->Some_0;
    let tv = views(ctx.args_after_prefix@);
    assert forall|k: int| 0 <= k < tv.len() implies #[trigger] tv[k] == p@ by {
        assert(tv[k] == ctx.args_after_prefix@[k]@);
    }
    lemma_path_tokens_are_skipped(tv, 0, declared_names(ext), p@, Seq::empty());
    lemma_none_required_none_missing(declared_args_spec(ext@), Seq::empty());
}

/// Exec form of the flag values: one entry per flag name, in the order the
/// names were first given, each with its values in order. It stands for a
/// map from flag name to values; a `Vec` is used because vstd specifies
/// std's maps only in a form that proves little for `String` keys, and every
/// lookup here goes by name, so the entry order is never observed.
pub struct ArgValues {
    entries: Vec<(String, Vec<String>)>,
}

impl View for ArgValues {
    type V = Seq<(Seq<char>, Seq<Seq<char>>)>;

    closed spec fn view(&self) -> Seq<(Seq<char>, Seq<Seq<char>>)> {
        self.entries@.map_values(|e: (String, Vec<String>)| (e.0@, views(e.1@)))
    }
}

impl ArgValues {
    fn new() -> (r: Self)
        ensures
            r@ == Seq::<(Seq<char>, Seq<Seq<char>>)>::empty(),
    {
        let r = ArgValues { entries: Vec::new() };
        assert(r@ =~= Seq::<(Seq<char>, Seq<Seq<char>>)>::empty());
        r
    }

    fn find(&self, name: &str) -> (r: Option<usize>)
        ensures
            match r {
                Some(k) => k < self.entries.len() && key_index(self@, name@) == Some(k as int),
                None => key_index(self@, name@) is None,
            },
    {
        let ghost v = self@;
        proof {
            lemma_key_index(v, name@);
        }
        let mut i: usize = 0;
        while i < self.entries.len()
            invariant
                v == self@,
                i <= self.entries.len(),
                forall|j: int| 0 <= j < i ==> #[trigger] v[j].0 != name@,
                match key_index(v, name@) {
                    Some(k) => 0 <= k < v.len() && v[k].0 == name@ && forall|j: int|
                        0 <= j < k ==> #[trigger] v[j].0 != name@,
                    None => forall|j: int| 0 <= j < v.len() ==> #[trigger] v[j].0 != name@,
                },
            decreases self.entries.len() - i,
        {
            if str_eq(self.entries[i].0.as_str(), name) {
                assert(v[i as int].0 == name@);
                return Some(i);
            }
            assert(v[i as int].0 != name@);
            i = i + 1;
        }
        None
    }

    fn add(&mut self, name: String, value: String)
        ensures
            final(self)@ == args_add(old(self)@, name@, value@),
    {
        let ghost before = self@;
        match self.find(name.as_str()) {
            Some(k) => {
                let ghost vk = before[k as int];
                assert(vk == (self.entries@[k as int].0@, views(self.entries@[k as int].1@)));
                let mut entry = (copy_string(&self.entries[k].0), Vec::new());
                let mut j: usize = 0;
                while j < self.entries[k].1.len()
                    invariant
                        k < self.entries.len(),
                        self@ == before,
                        vk == before[k as int],
                        key_index(before, name@) == Some(k as int),
                        entry.0@ == self.entries@[k as int].0@,
                        j <= self.entries[k as int].1.len(),
                        views(entry.1@) == views(self.entries@[k as int].1@).subrange(0, j as int),
                    decreases self.entries[k as int].1.len() - j,
                {
                    push_string(&mut entry.1, copy_string(&self.entries[k].1[j]));
                    assert(views(self.entries@[k as int].1@).subrange(0, j + 1) =~= views(
                        self.entries@[k as int].1@,
                    ).subrange(0, j as int).push(self.entries@[k as int].1@[j as int]@));
                    j = j + 1;
                }
                assert(views(self.entries@[k as int].1@).subrange(
                    0,
                    self.entries@[k as int].1@.len() as int,
                ) =~= views(self.entries@[k as int].1@));
                let ghost vv = value@;
                push_string(&mut entry.1, value);
                proof {
                    lemma_key_index(before, name@);
                }
                assert(views(entry.1@) =~= vk.1.push(vv));
                let ghost ev = (entry.0@, views(entry.1@));
                assert(ev == (name@, vk.1.push(vv)));
                let mut entries = Vec::new();
                std::mem::swap(&mut entries, &mut self.entries);
                entries.set(k, entry);
                self.entries = entries;
                assert(self@ =~= before.update(k as int, ev));
            },
            None => {
                let mut vals: Vec<String> = Vec::new();
                push_string(&mut vals, value);
                let ghost ev = (name@, views(vals@));
                assert(views(vals@) =~= seq![value@]);
                self.entries.push((name, vals));
                assert(self@ =~= before.push(ev));
            },
        }
    }

    fn values(&self, name: &str) -> (r: Option<&Vec<String>>)
        ensures
            match r {
                Some(v) => arg_values(self@, name@) == Some(views(v@)),
                None => arg_values(self@, name@) is None,
            },
    {
        match self.find(name) {
            Some(k) => Some(&self.entries[k].1),
            None => None,
        }
    }
}

/// Flags declared by an extension, with the forms errors report them in.
struct Declared {
    skill: Vec<SkillArg>,
    names: Vec<String>,
    sorted: Vec<String>,
}

impl Declared {
    spec fn of(&self, ext: ExtensionDef) -> bool {
        &&& args_view(self.skill@) == declared_args_spec(ext@)
        &&& views(self.names@) == declared_names(ext)
        &&& declared_listing(views(self.sorted@), ext)
    }
}

fn declared_of(ext: &ExtensionDef) -> (r: Declared)
    ensures
        r.of(*ext),
{
    let skill = declared_skill_args(ext);
    let mut names: Vec<String> = Vec::new();
    let mut i: usize = 0;
    while i < skill.len()
        invariant
            i <= skill.len(),
            views(names@) == args_view(skill@).subrange(0, i as int).map_values(|a: ArgView| a.name),
        decreases skill.len() - i,
    {
        push_owned(&mut names, skill[i].name.as_str());
        assert(args_view(skill@).subrange(0, i + 1).map_values(|a: ArgView| a.name) =~= args_view(
            skill@,
        ).subrange(0, i as int).map_values(|a: ArgView| a.name).push(skill@[i as int].name@));
        i = i + 1;
    }
    assert(args_view(skill@).subrange(0, skill.len() as int) =~= args_view(skill@));
    let sorted = sorted_distinct(&names);
    Declared { skill, names, sorted }
}

fn copy_list(v: &Vec<String>) -> (r: Vec<String>)
    ensures
        views(r@) == views(v@),
{
    crate::registry::copy_strings(v)
}

fn example_of(ext: &ExtensionDef, skill: &Vec<SkillArg>) -> (r: String)
    requires
        args_view(skill@) == declared_args_spec(ext@),
    ensures
        r@ == example_spec(*ext),
{
    if ext.examples.len() > 0 {
        copy_string(&ext.examples[0])
    } else {
        let inv = invocation_line(ext, skill);
        example_line(ext, inv.as_str(), skill)
    }
}

fn unexpected_arg(token: &str, d: &Declared, ext: &ExtensionDef) -> (r: ExtensionError)
    requires
        d.of(*ext),
    ensures
        failure_error(*ext, ExpandFailure::Unexpected(token@), r),
{
    ExtensionError::UnexpectedArg {
        token: owned(token),
        declared: copy_list(&d.sorted),
        extension_id: ext.id.copy(),
        help_command: skill_help_command(ext),
    }
}

fn missing_args_error(ext: &ExtensionDef, missing: Vec<String>, d: &Declared) -> (r: ExtensionError)
    requires
        d.of(*ext),
    ensures
        failure_error(*ext, ExpandFailure::Missing(views(missing@)), r),
{
    ExtensionError::MissingArgs {
        missing,
        declared: copy_list(&d.sorted),
        extension_id: ext.id.copy(),
        example: example_of(ext, &d.skill),
        help_command: skill_help_command(ext),
    }
}

fn names_contain(names: &Vec<String>, s: &str) -> (r: bool)
    ensures
        r == views(names@).contains(s@),
{
    let mut i: usize = 0;
    while i < names.len()
        invariant
            i <= names.len(),
            forall|k: int| 0 <= k < i ==> #[trigger] views(names@)[k] != s@,
        decreases names.len() - i,
    {
        if str_eq(names[i].as_str(), s) {
            assert(views(names@)[i as int] == s@);
            return true;
        }
        i = i + 1;
    }
    false
}

/// Parse the flags after the prefix.
#[verifier::loop_isolation(false)]
fn parse_named_args(
    tokens: &Vec<String>,
    d: &Declared,
    path: &Option<String>,
    ext: &ExtensionDef,
) -> (r: Result<ArgValues, ExtensionError>)
    requires
        d.of(*ext),
    ensures
        match r {
            Ok(a) => parse_args_from(views(tokens@), 0, declared_names(*ext), opt_view(*path), Seq::empty())
                == Ok::<Seq<(Seq<char>, Seq<Seq<char>>)>, ExpandFailure>(a@),
            Err(e) => match parse_args_from(
                views(tokens@),
                0,
                declared_names(*ext),
                opt_view(*path),
                Seq::empty(),
            ) {
                Err(f) => failure_error(*ext, f, e),
                Ok(_) => false,
            },
        },
{
    proof {
        reveal_strlit("--");
    }
    let ghost tv = views(tokens@);
    let ghost dn = declared_names(*ext);
    let ghost pv = opt_view(*path);
    let mut args = ArgValues::new();
    let mut i: usize = 0;
    while i < tokens.len()
        invariant
            tv == views(tokens@),
            i <= tokens.len() + 1,
            parse_args_from(tv, 0, dn, pv, Seq::empty()) == parse_args_from(tv, i as int, dn, pv, args@),
        decreases tokens.len() - i,
    {
        let token = tokens[i].as_str();
        assert(tv[i as int] == token@);
        if str_starts_with(token, "--") {
            let tc = chars_of(token);
            let name = substring(&tc, 2, tc.len());
            if is_empty_str(name.as_str()) {
                return Err(unexpected_arg(token, d, ext));
            }
            let nc = chars_of(name.as_str());
            proof {
                lemma_find_char_from(name@, '=', 0);
            }
            let (n, inline): (String, Option<String>) = match crate::template::find_char(&nc, '=', 0) {
                Some(k) => (substring(&nc, 0, k), Some(substring(&nc, k + 1, nc.len()))),
                None => (copy_string(&name), None),
            };
            let arg_name = match ArgName::new(n.as_str()) {
                Some(a) => a,
                None => {
                    return Err(unexpected_arg(token, d, ext));
                },
            };
            if !names_contain(&d.names, arg_name.as_str()) {
                return Err(unexpected_arg(token, d, ext));
            }
            let key = owned(arg_name.as_str());
            match inline {
                Some(v) => {
                    args.add(key, v);
                    i = i + 1;
                },
                None => {
                    if i + 1 < tokens.len() {
                        assert(tv[i + 1] == tokens@[i + 1]@);
                        let v = copy_string(&tokens[i + 1]);
                        args.add(key, v);
                        i = i + 2;
                    } else {
                        let mut missing: Vec<String> = Vec::new();
                        push_string(&mut missing, concat2("--", n.as_str()));
                        assert(views(missing@) =~= seq!["--"@ + n@]);
                        return Err(missing_args_error(ext, missing, d));
                    }
                },
            }
        } else {
            let skip = match path {
                Some(p) => str_eq(p.as_str(), token),
                None => false,
            };
            if skip {
                i = i + 1;
            } else {
                return Err(unexpected_arg(token, d, ext));
            }
        }
    }
    Ok(args)
}

/// Flag values and declared flags of a usable context.
struct Env {
    d: Declared,
    args: ArgValues,
}

/// Check the flags of `ctx` against `ext`: parse them and require every
/// `{arg:name}` flag.
fn env_from_context(ext: &ExtensionDef, ctx: &MatchContext) -> (r: Result<Env, ExtensionError>)
    ensures
        match r {
            Ok(env) => env.d.of(*ext) && env_args(*ext, *ctx) == Ok::<
                Seq<(Seq<char>, Seq<Seq<char>>)>,
                ExpandFailure,
            >(env.args@),
            Err(e) => match env_args(*ext, *ctx) {
                Err(f) => failure_error(*ext, f, e),
                Ok(_) => false,
            },
        },
{
    let d = declared_of(ext);
    let args = parse_named_args(&ctx.args_after_prefix, &d, &ctx.path, ext)?;
    let ghost sk = args_view(d.skill@);
    let mut missing: Vec<String> = Vec::new();
    let mut i: usize = 0;
    assert(views(missing@) =~= missing_required(sk.subrange(0, 0), args@));
    while i < d.skill.len()
        invariant
            sk == args_view(d.skill@),
            i <= d.skill.len(),
            views(missing@) == missing_required(sk.subrange(0, i as int), args@),
        decreases d.skill.len() - i,
    {
        assert(sk.subrange(0, i + 1).drop_last() =~= sk.subrange(0, i as int));
        assert(sk.subrange(0, i + 1).last() == sk[i as int]);
        let a = &d.skill[i];
        if a.required {
            if args.find(a.name.as_str()).is_none() {
                push_string(&mut missing, concat2("--", a.name.as_str()));
            }
        }
        i = i + 1;
    }
    assert(sk.subrange(0, d.skill.len() as int) =~= sk);
    if missing.len() > 0 {
        let ghost mv = views(missing@);
        let e = missing_args_error(ext, missing, &d);
        assert(env_args(*ext, *ctx) == Err::<Seq<(Seq<char>, Seq<Seq<char>>)>, ExpandFailure>(
            ExpandFailure::Missing(mv),
        ));
        return Err(e);
    }
    Ok(Env { d, args })
}

/// `s` with `\` turned into `/`.
pub open spec fn slashes(s: Seq<char>) -> Seq<char> {
    s.map_values(
        |c: char|
            if c == '\\' {
                '/'
            } else {
                c
            },
    )
}

pub(crate) fn slashes_exec(s: &str) -> (r: String)
    ensures
        r@ == slashes(s@),
{
    let v = chars_of(s);
    let mut out = String::new();
    let mut i: usize = 0;
    while i < v.len()
        invariant
            v@ == s@,
            i <= v.len(),
            out@ == slashes(s@).subrange(0, i as int),
        decreases v.len() - i,
    {
        if v[i] == '\\' {
            push_char(&mut out, '/');
        } else {
            push_char(&mut out, v[i]);
        }
        i = i + 1;
        assert(out@ =~= slashes(s@).subrange(0, i as int));
    }
    assert(slashes(s@).subrange(0, v.len() as int) =~= slashes(s@));
    out
}

/// The file stem of a path, as std's `Path::file_stem` documents it: none
/// without a file name; the whole file name when it has no `.` past its first
/// character; else the part before its last `.`.
pub open spec fn path_file_stem(path: Seq<char>) -> Option<Seq<char>> {
    match path_file_name(path) {
        Some(name) => match stem_split(name) {
            Some(k) => Some(name.subrange(0, k)),
            None => Some(name),
        },
        None => None,
    }
}

/// Calls `std::path::Path::file_stem` on `path`, converted to a `String`.
#[verifier::external_body]
fn file_stem_of(path: &str) -> (r: Option<String>)
    ensures
        opt_view(r) == path_file_stem(path@),
{
    std::path::Path::new(path).file_stem().and_then(|s| s.to_str()).map(|s| s.to_string())
}

/// The parent of a path, as std's `Path::parent` computes it.
pub uninterp spec fn path_parent(path: Seq<char>) -> Option<Seq<char>>;

/// Calls `std::path::Path::parent` on `path`, converted to a `String`.
#[verifier::external_body]
pub(crate) fn parent_of(path: &str) -> (r: Option<String>)
    ensures
        opt_view(r) == path_parent(path@),
{
    std::path::Path::new(path).parent().map(|p| p.to_string_lossy().into_owned())
}

/// `path` relative to `base`, as std's `Path::strip_prefix` computes it
/// (`None` when `base` is not a prefix).
pub uninterp spec fn path_strip_prefix(path: Seq<char>, base: Seq<char>) -> Option<Seq<char>>;

/// Calls `std::path::Path::strip_prefix`; its error becomes `None`.
#[verifier::external_body]
pub(crate) fn strip_path_prefix(path: &str, base: &str) -> (r: Option<String>)
    ensures
        opt_view(r) == path_strip_prefix(path@, base@),
{
    std::path::Path::new(path).strip_prefix(base).ok().map(|p| p.to_string_lossy().into_owned())
}

/// `path` relative to `wizard_root`, with `/` separators (the whole path
/// when it is not under the root).
pub open spec fn relpath_spec(path: Seq<char>, root: Seq<char>) -> Seq<char> {
    slashes(
        match path_strip_prefix(path, root) {
            Some(rel) => rel,
            None => path,
        },
    )
}

/// `{path}` relative to `{wizard_root}` using `/` separators.
pub fn relpath_from_ui_root(path: &str, wizard_root: &str) -> (r: String)
    ensures
        r@ == relpath_spec(path@, wizard_root@),
{
    match strip_path_prefix(path, wizard_root) {
        Some(rel) => slashes_exec(rel.as_str()),
        None => slashes_exec(path),
    }
}

/// Wizard root of a matched path: the one the caller found, or the start
/// directory (the parent of the path, or `.`).
pub open spec fn wizard_root_of(ctx: MatchContext, path: Seq<char>) -> Seq<char> {
    match ctx.wizard_root {
        Some(r) => r@,
        None => match path_parent(path) {
            Some(p) => p,
            None => "."@,
        },
    }
}

/// `--name value` pairs for every value of a repeated flag.
pub open spec fn repeat_tokens(name: Seq<char>, values: Seq<Seq<char>>) -> Seq<Seq<char>>
    decreases values.len(),
{
    if values.len() == 0 {
        Seq::empty()
    } else {
        repeat_tokens(name, values.drop_last()) + seq!["--"@ + name, values.last()]
    }
}

/// Values of a flag named (after trimming) `name`.
pub open spec fn lookup_values(args: Seq<(Seq<char>, Seq<Seq<char>>)>, name: Seq<char>) -> Option<Seq<Seq<char>>> {
    if trim_spec(name).len() > 0 {
        arg_values(args, trim_spec(name))
    } else {
        None
    }
}

/// Value of template variable `name`.
pub open spec fn lookup_spec(
    ext: ExtensionDef,
    ctx: MatchContext,
    args: Seq<(Seq<char>, Seq<Seq<char>>)>,
    phase: Phase,
    name: Seq<char>,
) -> Result<Seq<char>, ExpandFailure> {
    let path = opt_view(ctx.path);
    if starts_with(name, "arg:"@) {
        let an = name.subrange(4, name.len() as int);
        if ends_with(an, ":repeat"@) {
            let rn = an.subrange(0, an.len() - 7);
            let vals = match lookup_values(args, rn) {
                Some(v) => v,
                None => Seq::empty(),
            };
            Ok(join_spec(repeat_tokens(rn, vals), " "@))
        } else {
            match lookup_values(args, an) {
                Some(v) => if v.len() > 0 {
                    Ok(v[0])
                } else {
                    Err(ExpandFailure::Missing(seq!["--"@ + an]))
                },
                None => Err(ExpandFailure::Missing(seq!["--"@ + an])),
            }
        }
    } else if name == "path"@ || name == "basename"@ || name == "stem"@ || name == "parent_dir"@
        || name == "wizard_root"@ || name == "relpath_from_ui_root"@ {
        match path {
            None => Err(ExpandFailure::PathVar(name)),
            Some(p) => if name == "path"@ {
                Ok(p)
            } else if name == "basename"@ {
                match path_file_name(p) {
                    Some(b) => Ok(b),
                    None => Err(
                        ExpandFailure::Template(
                            TemplateErrorKind::Unavailable,
                            "{basename} has no file name for '"@ + p + "'"@,
                        ),
                    ),
                }
            } else if name == "stem"@ {
                match path_file_stem(p) {
                    Some(b) => Ok(b),
                    None => Err(
                        ExpandFailure::Template(
                            TemplateErrorKind::Unavailable,
                            "{stem} has no file stem for '"@ + p + "'"@,
                        ),
                    ),
                }
            } else if name == "parent_dir"@ {
                match path_parent(p) {
                    Some(d) => Ok(d),
                    None => Ok("."@),
                }
            } else if name == "wizard_root"@ {
                Ok(wizard_root_of(ctx, p))
            } else {
                Ok(relpath_spec(p, wizard_root_of(ctx, p)))
            },
        }
    } else if name == "tmpdir"@ {
        match ctx.tmpdir {
            Some(t) => Ok(t@),
            None => Err(
                ExpandFailure::Template(
                    TemplateErrorKind::Unavailable,
                    "{tmpdir} was not created for this expansion"@,
                ),
            ),
        }
    } else if name == "wyvern_share"@ {
        Ok(ctx.wyvern_share@)
    } else if name == "preexec.stdout"@ {
        match phase {
            Phase::Preexec => Err(
                ExpandFailure::Template(
                    TemplateErrorKind::PhaseRestricted,
                    "{preexec.stdout} is only available in phase 2"@,
                ),
            ),
            Phase::Command => match ctx.preexec_stdout {
                Some(t) => Ok(t@),
                None => Err(
                    ExpandFailure::Template(
                        TemplateErrorKind::Unavailable,
                        "{preexec.stdout} is empty (no markdown capture)"@,
                    ),
                ),
            },
        }
    } else if name == "rendered_basename"@ {
        match phase {
            Phase::Preexec => Err(
                ExpandFailure::Template(
                    TemplateErrorKind::PhaseRestricted,
                    "{rendered_basename} is only available in phase 2"@,
                ),
            ),
            Phase::Command => match ctx.rendered_basename {
                Some(t) => Ok(t@),
                None => Err(
                    ExpandFailure::Template(
                        TemplateErrorKind::Unavailable,
                        "{rendered_basename} is not set"@,
                    ),
                ),
            },
        }
    } else {
        Err(
            ExpandFailure::Template(
                TemplateErrorKind::UnknownVariable,
                "unknown template variable {"@ + name + "}"@,
            ),
        )
    }
}

fn template_error(kind: TemplateErrorKind, message: String) -> (r: ExtensionError)
    ensures
        forall|ext: ExtensionDef|
            failure_error(ext, ExpandFailure::Template(kind, message@), r),
{
    ExtensionError::Template { kind, message }
}

fn find_values<'b>(args: &'b ArgValues, name: &str) -> (r: Option<&'b Vec<String>>)
    ensures
        match r {
            Some(v) => lookup_values(args@, name@) == Some(views(v@)),
            None => lookup_values(args@, name@) is None,
        },
{
    match ArgName::new(name) {
        Some(n) => args.values(n.as_str()),
        None => None,
    }
}

/// Value of template variable `name`.
fn lookup_string(
    ext: &ExtensionDef,
    ctx: &MatchContext,
    env: &Env,
    phase: Phase,
    name: &str,
) -> (r: Result<String, ExtensionError>)
    requires
        env.d.of(*ext),
    ensures
        match r {
            Ok(v) => lookup_spec(*ext, *ctx, env.args@, phase, name@) == Ok::<Seq<char>, ExpandFailure>(
                v@,
            ),
            Err(e) => match lookup_spec(*ext, *ctx, env.args@, phase, name@) {
                Err(f) => failure_error(*ext, f, e),
                Ok(_) => false,
            },
        },
{
    proof {
        reveal_strlit("arg:");
        reveal_strlit(":repeat");
    }
    let args = &env.args;
    if str_starts_with(name, "arg:") {
        let nc = chars_of(name);
        let an = substring(&nc, 4, nc.len());
        if str_ends_with(an.as_str(), ":repeat") {
            let ac = chars_of(an.as_str());
            let rn = substring(&ac, 0, ac.len() - 7);
            let mut tokens: Vec<String> = Vec::new();
            let ghost vals = match lookup_values(args@, rn@) {
                Some(v) => v,
                None => Seq::<Seq<char>>::empty(),
            };
            assert(views(tokens@) =~= repeat_tokens(rn@, vals.subrange(0, 0)));
            match find_values(args, rn.as_str()) {
                Some(values) => {
                    let mut i: usize = 0;
                    while i < values.len()
                        invariant
                            vals == views(values@),
                            i <= values.len(),
                            views(tokens@) == repeat_tokens(rn@, vals.subrange(0, i as int)),
                        decreases values.len() - i,
                    {
                        assert(vals.subrange(0, i + 1).drop_last() =~= vals.subrange(0, i as int));
                        push_string(&mut tokens, concat2("--", rn.as_str()));
                        push_string(&mut tokens, copy_string(&values[i]));
                        assert(views(tokens@) =~= repeat_tokens(rn@, vals.subrange(0, i + 1)));
                        i = i + 1;
                    }
                    assert(vals.subrange(0, values.len() as int) =~= vals);
                },
                None => {},
            }
            return Ok(join(&tokens, " "));
        }
        return match find_values(args, an.as_str()) {
            Some(values) => {
                if values.len() > 0 {
                    Ok(copy_string(&values[0]))
                } else {
                    let mut missing: Vec<String> = Vec::new();
                    push_string(&mut missing, concat2("--", an.as_str()));
                    assert(views(missing@) =~= seq!["--"@ + an@]);
                    Err(missing_args_error(ext, missing, &env.d))
                }
            },
            None => {
                let mut missing: Vec<String> = Vec::new();
                push_string(&mut missing, concat2("--", an.as_str()));
                assert(views(missing@) =~= seq!["--"@ + an@]);
                Err(missing_args_error(ext, missing, &env.d))
            },
        };
    }
    if str_eq(name, "path") || str_eq(name, "basename") || str_eq(name, "stem") || str_eq(
        name,
        "parent_dir",
    ) || str_eq(name, "wizard_root") || str_eq(name, "relpath_from_ui_root") {
        let p = match &ctx.path {
            Some(p) => p.as_str(),
            None => {
                let e = ExtensionError::PathVarWithoutPath { var: owned(name) };
                assert(failure_error(*ext, ExpandFailure::PathVar(name@), e));
                assert(lookup_spec(*ext, *ctx, env.args@, phase, name@) == Err::<
                    Seq<char>,
                    ExpandFailure,
                >(ExpandFailure::PathVar(name@)));
                return Err(e);
            },
        };
        if str_eq(name, "path") {
            return Ok(owned(p));
        }
        if str_eq(name, "basename") {
            return match file_name_of(p) {
                Some(b) => Ok(b),
                None => Err(
                    template_error(
                        TemplateErrorKind::Unavailable,
                        concat3("{basename} has no file name for '", p, "'"),
                    ),
                ),
            };
        }
        if str_eq(name, "stem") {
            return match file_stem_of(p) {
                Some(b) => Ok(b),
                None => Err(
                    template_error(
                        TemplateErrorKind::Unavailable,
                        concat3("{stem} has no file stem for '", p, "'"),
                    ),
                ),
            };
        }
        if str_eq(name, "parent_dir") {
            return match parent_of(p) {
                Some(d) => Ok(d),
                None => Ok(owned(".")),
            };
        }
        let root = match &ctx.wizard_root {
            Some(r) => copy_string(r),
            None => match parent_of(p) {
                Some(d) => d,
                None => owned("."),
            },
        };
        if str_eq(name, "wizard_root") {
            return Ok(root);
        }
        return Ok(relpath_from_ui_root(p, root.as_str()));
    }
    if str_eq(name, "tmpdir") {
        return match &ctx.tmpdir {
            Some(t) => Ok(copy_string(t)),
            None => Err(
                template_error(
                    TemplateErrorKind::Unavailable,
                    owned("{tmpdir} was not created for this expansion"),
                ),
            ),
        };
    }
    if str_eq(name, "wyvern_share") {
        return Ok(copy_string(&ctx.wyvern_share));
    }
    if str_eq(name, "preexec.stdout") {
        return match phase {
            Phase::Preexec => Err(
                template_error(
                    TemplateErrorKind::PhaseRestricted,
                    owned("{preexec.stdout} is only available in phase 2"),
                ),
            ),
            Phase::Command => match &ctx.preexec_stdout {
                Some(t) => Ok(copy_string(t)),
                None => Err(
                    template_error(
                        TemplateErrorKind::Unavailable,
                        owned("{preexec.stdout} is empty (no markdown capture)"),
                    ),
                ),
            },
        };
    }
    if str_eq(name, "rendered_basename") {
        return match phase {
            Phase::Preexec => Err(
                template_error(
                    TemplateErrorKind::PhaseRestricted,
                    owned("{rendered_basename} is only available in phase 2"),
                ),
            ),
            Phase::Command => match &ctx.rendered_basename {
                Some(t) => Ok(copy_string(t)),
                None => Err(
                    template_error(
                        TemplateErrorKind::Unavailable,
                        owned("{rendered_basename} is not set"),
                    ),
                ),
            },
        };
    }
    let msg = concat3("unknown template variable {", name, "}");
    let ghost f = ExpandFailure::Template(TemplateErrorKind::UnknownVariable, msg@);
    let e = template_error(TemplateErrorKind::UnknownVariable, msg);
    assert(failure_error(*ext, f, e));
    assert(lookup_spec(*ext, *ctx, env.args@, phase, name@) == Err::<Seq<char>, ExpandFailure>(f));
    Err(e)
}

/// Substitute the parts of a template in order; the first failing variable
/// decides the failure.
pub open spec fn expand_parts(
    ext: ExtensionDef,
    ctx: MatchContext,
    args: Seq<(Seq<char>, Seq<Seq<char>>)>,
    phase: Phase,
    ps: Seq<PartView>,
) -> Result<Seq<char>, ExpandFailure>
    decreases ps.len(),
{
    if ps.len() == 0 {
        Ok(Seq::empty())
    } else {
        match expand_parts(ext, ctx, args, phase, ps.drop_last()) {
            Err(f) => Err(f),
            Ok(acc) => match ps.last() {
                PartView::Lit(l) => Ok(acc + l),
                PartView::Var(n) => match lookup_spec(ext, ctx, args, phase, n) {
                    Err(f) => Err(f),
                    Ok(v) => Ok(acc + v),
                },
            },
        }
    }
}

/// Substitute every variable of template `t`.
pub open spec fn expand_string_spec(
    ext: ExtensionDef,
    ctx: MatchContext,
    args: Seq<(Seq<char>, Seq<Seq<char>>)>,
    phase: Phase,
    t: Seq<char>,
) -> Result<Seq<char>, ExpandFailure> {
    match parse_spec(t) {
        None => Err(
            ExpandFailure::Template(
                TemplateErrorKind::UnclosedBrace,
                "unclosed '{' in template '"@ + t + "'"@,
            ),
        ),
        Some(ps) => expand_parts(ext, ctx, args, phase, ps),
    }
}

fn expand_string(
    ext: &ExtensionDef,
    ctx: &MatchContext,
    env: &Env,
    phase: Phase,
    template: &str,
) -> (r: Result<String, ExtensionError>)
    requires
        env.d.of(*ext),
    ensures
        match r {
            Ok(v) => expand_string_spec(*ext, *ctx, env.args@, phase, template@) == Ok::<
                Seq<char>,
                ExpandFailure,
            >(v@),
            Err(e) => match expand_string_spec(*ext, *ctx, env.args@, phase, template@) {
                Err(f) => failure_error(*ext, f, e),
                Ok(_) => false,
            },
        },
{
    let parts = match parse_template(template) {
        Ok(p) => p,
        Err(e) => {
            assert(failure_error(
                *ext,
                ExpandFailure::Template(
                    TemplateErrorKind::UnclosedBrace,
                    "unclosed '{' in template '"@ + template@ + "'"@,
                ),
                e,
            ));
            return Err(e);
        },
    };
    let ghost ps = parts_view(parts@);
    let mut out = String::new();
    let mut i: usize = 0;
    assert(ps.subrange(0, 0) =~= Seq::<PartView>::empty());
    while i < parts.len()
        invariant
            ps == parts_view(parts@),
            parse_spec(template@) == Some(ps),
            i <= parts.len(),
            expand_parts(*ext, *ctx, env.args@, phase, ps.subrange(0, i as int)) == Ok::<
                Seq<char>,
                ExpandFailure,
            >(out@),
            env.d.of(*ext),
        decreases parts.len() - i,
    {
        assert(ps.subrange(0, i + 1).drop_last() =~= ps.subrange(0, i as int));
        match &parts[i] {
            TemplatePart::Lit(l) => {
                assert(ps[i as int] == PartView::Lit(l@));
                push_str(&mut out, l.as_str());
            },
            TemplatePart::Var(n) => {
                let v = lookup_string(ext, ctx, env, phase, n.as_str());
                match v {
                    Ok(v) => push_str(&mut out, v.as_str()),
                    Err(e) => {
                        proof {
                            assert(ps[i as int] == PartView::Var(n@));
                            assert(ps.subrange(0, i + 1).last() == ps[i as int]);
                            assert(expand_parts(*ext, *ctx, env.args@, phase, ps.subrange(0, i + 1))
                                == Err::<Seq<char>, ExpandFailure>(
                                match lookup_spec(*ext, *ctx, env.args@, phase, n@) {
                                    Err(f) => f,
                                    Ok(_) => ExpandFailure::PathVar(Seq::empty()),
                                },
                            ));
                            lemma_expand_parts_err(*ext, *ctx, env.args@, phase, ps, (i + 1) as nat);
                        }
                        return Err(e);
                    },
                }
            },
        }
        i = i + 1;
    }
    assert(ps.subrange(0, parts.len() as int) =~= ps);
    Ok(out)
}

/// Once a prefix of the parts fails, the whole template fails the same way.
proof fn lemma_expand_parts_err(
    ext: ExtensionDef,
    ctx: MatchContext,
    args: Seq<(Seq<char>, Seq<Seq<char>>)>,
    phase: Phase,
    ps: Seq<PartView>,
    k: nat,
)
    requires
        k <= ps.len(),
        expand_parts(ext, ctx, args, phase, ps.subrange(0, k as int)) is Err,
    ensures
        expand_parts(ext, ctx, args, phase, ps) == expand_parts(ext, ctx, args, phase, ps.subrange(0, k as int)),
    decreases ps.len() - k,
{
    if k < ps.len() {
        assert(ps.subrange(0, (k + 1) as int).drop_last() =~= ps.subrange(0, k as int));
        lemma_expand_parts_err(ext, ctx, args, phase, ps, k + 1);
    } else {
        assert(ps.subrange(0, k as int) =~= ps);
    }
}

/// The flag a `{arg:name:repeat}` argv token splices, if the token is one.
pub open spec fn splice_name(t: Seq<char>) -> Option<Seq<char>> {
    if starts_with(t, "{arg:"@) {
        let rest = t.subrange(5, t.len() as int);
        if ends_with(rest, ":repeat}"@) {
            let name = rest.subrange(0, rest.len() - 8);
            if name.contains('{') {
                None
            } else {
                Some(name)
            }
        } else {
            None
        }
    } else {
        None
    }
}

/// Expand argv templates in order: a whole-token `{arg:name:repeat}` splices
/// `--name value` for each value; any other token is one expanded string.
pub open spec fn expand_argv_spec(
    ext: ExtensionDef,
    ctx: MatchContext,
    args: Seq<(Seq<char>, Seq<Seq<char>>)>,
    phase: Phase,
    ts: Seq<Seq<char>>,
) -> Result<Seq<Seq<char>>, ExpandFailure>
    decreases ts.len(),
{
    if ts.len() == 0 {
        Ok(Seq::empty())
    } else {
        match expand_argv_spec(ext, ctx, args, phase, ts.drop_last()) {
            Err(f) => Err(f),
            Ok(acc) => match splice_name(ts.last()) {
                Some(name) => Ok(
                    acc + match lookup_values(args, name) {
                        Some(vals) => repeat_tokens(name, vals),
                        None => Seq::empty(),
                    },
                ),
                None => match expand_string_spec(ext, ctx, args, phase, ts.last()) {
                    Err(f) => Err(f),
                    Ok(v) => Ok(acc.push(v)),
                },
            },
        }
    }
}

fn splice_name_exec(t: &str) -> (r: Option<String>)
    ensures
        opt_view(r) == splice_name(t@),
{
    proof {
        reveal_strlit("{arg:");
        reveal_strlit(":repeat}");
    }
    if !str_starts_with(t, "{arg:") {
        return None;
    }
    let tc = chars_of(t);
    let rest = substring(&tc, 5, tc.len());
    if !str_ends_with(rest.as_str(), ":repeat}") {
        return None;
    }
    let rc = chars_of(rest.as_str());
    let name = substring(&rc, 0, rc.len() - 8);
    if str_contains_char(name.as_str(), '{') {
        None
    } else {
        Some(name)
    }
}

fn expand_argv(
    ext: &ExtensionDef,
    ctx: &MatchContext,
    env: &Env,
    phase: Phase,
    templates: &Vec<String>,
) -> (r: Result<Vec<String>, ExtensionError>)
    requires
        env.d.of(*ext),
    ensures
        match r {
            Ok(v) => expand_argv_spec(*ext, *ctx, env.args@, phase, views(templates@)) == Ok::<
                Seq<Seq<char>>,
                ExpandFailure,
            >(views(v@)),
            Err(e) => match expand_argv_spec(*ext, *ctx, env.args@, phase, views(templates@)) {
                Err(f) => failure_error(*ext, f, e),
                Ok(_) => false,
            },
        },
{
    let ghost ts = views(templates@);
    let mut out: Vec<String> = Vec::new();
    let mut i: usize = 0;
    assert(ts.subrange(0, 0) =~= Seq::<Seq<char>>::empty());
    assert(views(out@) =~= Seq::<Seq<char>>::empty());
    while i < templates.len()
        invariant
            ts == views(templates@),
            i <= templates.len(),
            expand_argv_spec(*ext, *ctx, env.args@, phase, ts.subrange(0, i as int)) == Ok::<
                Seq<Seq<char>>,
                ExpandFailure,
            >(views(out@)),
            env.d.of(*ext),
        decreases templates.len() - i,
    {
        assert(ts.subrange(0, i + 1).drop_last() =~= ts.subrange(0, i as int));
        assert(ts.subrange(0, i + 1).last() == templates@[i as int]@);
        let t = templates[i].as_str();
        match splice_name_exec(t) {
            Some(name) => {
                let ghost before = views(out@);
                let ghost vals = match lookup_values(env.args@, name@) {
                    Some(v) => v,
                    None => Seq::<Seq<char>>::empty(),
                };
                match find_values(&env.args, name.as_str()) {
                    Some(values) => {
                        let mut j: usize = 0;
                        assert(before + repeat_tokens(name@, vals.subrange(0, 0)) =~= before);
                        while j < values.len()
                            invariant
                                vals == views(values@),
                                j <= values.len(),
                                views(out@) == before + repeat_tokens(name@, vals.subrange(0, j as int)),
                            decreases values.len() - j,
                        {
                            assert(vals.subrange(0, j + 1).drop_last() =~= vals.subrange(0, j as int));
                            push_string(&mut out, concat2("--", name.as_str()));
                            push_string(&mut out, copy_string(&values[j]));
                            assert(views(out@) =~= before + repeat_tokens(
                                name@,
                                vals.subrange(0, j + 1),
                            ));
                            j = j + 1;
                        }
                        assert(vals.subrange(0, values.len() as int) =~= vals);
                    },
                    None => {
                        assert(before + Seq::<Seq<char>>::empty() =~= before);
                    },
                }
            },
            None => {
                match expand_string(ext, ctx, env, phase, t) {
                    Ok(v) => push_string(&mut out, v),
                    Err(e) => {
                        proof {
                            lemma_expand_argv_err(*ext, *ctx, env.args@, phase, ts, (i + 1) as nat);
                        }
                        return Err(e);
                    },
                }
            },
        }
        i = i + 1;
    }
    assert(ts.subrange(0, templates.len() as int) =~= ts);
    Ok(out)
}

proof fn lemma_expand_argv_err(
    ext: ExtensionDef,
    ctx: MatchContext,
    args: Seq<(Seq<char>, Seq<Seq<char>>)>,
    phase: Phase,
    ts: Seq<Seq<char>>,
    k: nat,
)
    requires
        k <= ts.len(),
        expand_argv_spec(ext, ctx, args, phase, ts.subrange(0, k as int)) is Err,
    ensures
        expand_argv_spec(ext, ctx, args, phase, ts) == expand_argv_spec(ext, ctx, args, phase, ts.subrange(0, k as int)),
    decreases ts.len() - k,
{
    if k < ts.len() {
        assert(ts.subrange(0, (k + 1) as int).drop_last() =~= ts.subrange(0, k as int));
        lemma_expand_argv_err(ext, ctx, args, phase, ts, k + 1);
    } else {
        assert(ts.subrange(0, k as int) =~= ts);
    }
}

/// Expand every string leaf of a JSON value (keys are kept as written).
pub open spec fn expand_value_spec(
    ext: ExtensionDef,
    ctx: MatchContext,
    args: Seq<(Seq<char>, Seq<Seq<char>>)>,
    phase: Phase,
    v: JsonView,
) -> Result<JsonView, ExpandFailure>
    decreases v, 0nat,
{
    match v {
        JsonView::Str(s) => match expand_string_spec(ext, ctx, args, phase, s) {
            Err(f) => Err(f),
            Ok(t) => Ok(JsonView::Str(t)),
        },
        JsonView::Array(xs) => match expand_list(ext, ctx, args, phase, xs, xs.len()) {
            Err(f) => Err(f),
            Ok(ys) => Ok(JsonView::Array(ys)),
        },
        JsonView::Object(ms) => match expand_members(ext, ctx, args, phase, ms, ms.len()) {
            Err(f) => Err(f),
            Ok(ys) => Ok(JsonView::Object(ys)),
        },
        _ => Ok(v),
    }
}

/// Expand the first `n` items of an array, in order.
pub open spec fn expand_list(
    ext: ExtensionDef,
    ctx: MatchContext,
    args: Seq<(Seq<char>, Seq<Seq<char>>)>,
    phase: Phase,
    xs: Seq<JsonView>,
    n: nat,
) -> Result<Seq<JsonView>, ExpandFailure>
    decreases xs, n,
{
    if n == 0 || n > xs.len() {
        Ok(Seq::empty())
    } else {
        match expand_list(ext, ctx, args, phase, xs, (n - 1) as nat) {
            Err(f) => Err(f),
            Ok(acc) => match expand_value_spec(ext, ctx, args, phase, xs[n - 1]) {
                Err(f) => Err(f),
                Ok(y) => Ok(acc.push(y)),
            },
        }
    }
}

/// Expand the values of the first `n` members of an object, in order.
pub open spec fn expand_members(
    ext: ExtensionDef,
    ctx: MatchContext,
    args: Seq<(Seq<char>, Seq<Seq<char>>)>,
    phase: Phase,
    ms: Seq<(Seq<char>, JsonView)>,
    n: nat,
) -> Result<Seq<(Seq<char>, JsonView)>, ExpandFailure>
    decreases ms, n,
{
    if n == 0 || n > ms.len() {
        Ok(Seq::empty())
    } else {
        proof {
            assert(decreases_to!(ms => ms[n - 1]));
        }
        match expand_members(ext, ctx, args, phase, ms, (n - 1) as nat) {
            Err(f) => Err(f),
            Ok(acc) => match expand_value_spec(ext, ctx, args, phase, ms[n - 1].1) {
                Err(f) => Err(f),
                Ok(y) => Ok(acc.push((ms[n - 1].0, y))),
            },
        }
    }
}

proof fn lemma_list_err(
    ext: ExtensionDef,
    ctx: MatchContext,
    args: Seq<(Seq<char>, Seq<Seq<char>>)>,
    phase: Phase,
    xs: Seq<JsonView>,
    k: nat,
    n: nat,
)
    requires
        k <= n <= xs.len(),
        expand_list(ext, ctx, args, phase, xs, k) is Err,
    ensures
        expand_list(ext, ctx, args, phase, xs, n) == expand_list(ext, ctx, args, phase, xs, k),
    decreases n,
{
    if n > k {
        lemma_list_err(ext, ctx, args, phase, xs, k, (n - 1) as nat);
    }
}

proof fn lemma_members_err(
    ext: ExtensionDef,
    ctx: MatchContext,
    args: Seq<(Seq<char>, Seq<Seq<char>>)>,
    phase: Phase,
    ms: Seq<(Seq<char>, JsonView)>,
    k: nat,
    n: nat,
)
    requires
        k <= n <= ms.len(),
        expand_members(ext, ctx, args, phase, ms, k) is Err,
    ensures
        expand_members(ext, ctx, args, phase, ms, n) == expand_members(ext, ctx, args, phase, ms, k),
    decreases n,
{
    if n > k {
        lemma_members_err(ext, ctx, args, phase, ms, k, (n - 1) as nat);
    }
}

#[verifier::loop_isolation(false)]
fn expand_value(
    ext: &ExtensionDef,
    ctx: &MatchContext,
    env: &Env,
    phase: Phase,
    v: &JsonValue,
) -> (r: Result<JsonValue, ExtensionError>)
    requires
        env.d.of(*ext),
    ensures
        match r {
            Ok(out) => expand_value_spec(*ext, *ctx, env.args@, phase, v@) == Ok::<
                JsonView,
                ExpandFailure,
            >(out@),
            Err(e) => match expand_value_spec(*ext, *ctx, env.args@, phase, v@) {
                Err(f) => failure_error(*ext, f, e),
                Ok(_) => false,
            },
        },
    decreases v,
{
    match v {
        JsonValue::Str(s) => match expand_string(ext, ctx, env, phase, s.as_str()) {
            Ok(t) => Ok(JsonValue::Str(t)),
            Err(e) => Err(e),
        },
        JsonValue::Array(items) => {
            let ghost xs = v@->Array_0;
            let mut out: Vec<JsonValue> = Vec::new();
            let mut i: usize = 0;
            assert(out@.map_values(|j: JsonValue| j@) =~= Seq::<JsonView>::empty());
            while i < items.len()
                invariant
                    xs == v@->Array_0,
                    xs.len() == items@.len(),
                    forall|k: int| 0 <= k < items@.len() ==> #[trigger] xs[k] == items@[k]@,
                    i <= items.len(),
                    out@.len() == i,
                    expand_list(*ext, *ctx, env.args@, phase, xs, i as nat) == Ok::<
                        Seq<JsonView>,
                        ExpandFailure,
                    >(out@.map_values(|j: JsonValue| j@)),
                decreases items.len() - i,
            {
                proof {
                    assert(decreases_to!(*v => *items));
                    assert(decreases_to!(*items => items@));
                    assert(decreases_to!(items@ => items@[i as int]));
                }
                assert(xs[i as int] == items@[i as int]@);
                match expand_value(ext, ctx, env, phase, &items[i]) {
                    Ok(y) => {
                        let ghost before = out@.map_values(|j: JsonValue| j@);
                        let ghost yv = y@;
                        out.push(y);
                        assert(out@.map_values(|j: JsonValue| j@) =~= before.push(yv));
                    },
                    Err(e) => {
                        proof {
                            lemma_list_err(*ext, *ctx, env.args@, phase, xs, (i + 1) as nat, xs.len());
                        }
                        return Err(e);
                    },
                }
                i = i + 1;
            }
            let r = JsonValue::Array(out);
            assert(r@->Array_0 =~= out@.map_values(|j: JsonValue| j@));
            Ok(r)
        },
        JsonValue::Object(members) => {
            let ghost ms = v@->Object_0;
            let mut out: Vec<(String, JsonValue)> = Vec::new();
            let mut i: usize = 0;
            assert(out@.map_values(|m: (String, JsonValue)| (m.0@, m.1@)) =~= Seq::<
                (Seq<char>, JsonView),
            >::empty());
            while i < members.len()
                invariant
                    ms == v@->Object_0,
                    ms.len() == members@.len(),
                    forall|k: int|
                        0 <= k < members@.len() ==> #[trigger] ms[k] == (
                            members@[k].0@,
                            members@[k].1@,
                        ),
                    i <= members.len(),
                    out@.len() == i,
                    expand_members(*ext, *ctx, env.args@, phase, ms, i as nat) == Ok::<
                        Seq<(Seq<char>, JsonView)>,
                        ExpandFailure,
                    >(out@.map_values(|m: (String, JsonValue)| (m.0@, m.1@))),
                decreases members.len() - i,
            {
                proof {
                    assert(decreases_to!(*v => *members));
                    assert(decreases_to!(*members => members@));
                    assert(decreases_to!(members@ => members@[i as int]));
                    assert(decreases_to!(members@[i as int] => members@[i as int].1));
                }
                assert(ms[i as int] == (members@[i as int].0@, members@[i as int].1@));
                match expand_value(ext, ctx, env, phase, &members[i].1) {
                    Ok(y) => {
                        let ghost before = out@.map_values(|m: (String, JsonValue)| (m.0@, m.1@));
                        let key = copy_string(&members[i].0);
                        let ghost mv = (key@, y@);
                        out.push((key, y));
                        assert(out@.map_values(|m: (String, JsonValue)| (m.0@, m.1@)) =~= before.push(
                            mv,
                        ));
                    },
                    Err(e) => {
                        proof {
                            lemma_members_err(
                                *ext,
                                *ctx,
                                env.args@,
                                phase,
                                ms,
                                (i + 1) as nat,
                                ms.len(),
                            );
                        }
                        return Err(e);
                    },
                }
                i = i + 1;
            }
            let r = JsonValue::Object(out);
            assert(r@->Object_0 =~= out@.map_values(|m: (String, JsonValue)| (m.0@, m.1@)));
            Ok(r)
        },
        JsonValue::Null => Ok(JsonValue::Null),
        JsonValue::Bool(b) => Ok(JsonValue::Bool(*b)),
        JsonValue::Number(n) => Ok(JsonValue::Number(copy_string(n))),
    }
}

/// Phase 1 outcome: the expanded `preexec.cmd` and `preexec.args`.
pub open spec fn preexec_args_spec(pre: PreexecSpec, ext: ExtensionDef, ctx: MatchContext) -> Result<
    (Seq<char>, Seq<Seq<char>>),
    ExpandFailure,
> {
    match env_args(ext, ctx) {
        Err(f) => Err(f),
        Ok(args) => match expand_string_spec(ext, ctx, args, Phase::Preexec, pre.cmd@) {
            Err(f) => Err(f),
            Ok(cmd) => match expand_argv_spec(ext, ctx, args, Phase::Preexec, views(pre.args@)) {
                Err(f) => Err(f),
                Ok(a) => Ok((cmd, a)),
            },
        },
    }
}

/// Phase 1: expand `preexec.cmd` and `preexec.args` only.
pub fn expand_preexec_args(pre: &PreexecSpec, ext: &ExtensionDef, ctx: &MatchContext) -> (r: Result<
    (String, Vec<String>),
    ExtensionError,
>)
    ensures
        match r {
            Ok((cmd, args)) => preexec_args_spec(*pre, *ext, *ctx) == Ok::<
                (Seq<char>, Seq<Seq<char>>),
                ExpandFailure,
            >((cmd@, views(args@))),
            Err(e) => match preexec_args_spec(*pre, *ext, *ctx) {
                Err(f) => failure_error(*ext, f, e),
                Ok(_) => false,
            },
        },
{
    let env = env_from_context(ext, ctx)?;
    let cmd = expand_string(ext, ctx, &env, Phase::Preexec, pre.cmd.as_str())?;
    let args = expand_argv(ext, ctx, &env, Phase::Preexec, &pre.args)?;
    Ok((cmd, args))
}

/// Where the command JSON of a phase-2 expansion comes from.
#[derive(Debug)]
pub enum CommandSource {
    /// The expanded inline command.
    Inline(JsonValue),
    /// The expanded `command_from_file` path; its contents are the command
    /// as written (literal braces stay).
    FromFile(String),
}

/// Mathematical form of a [`CommandSource`].
pub enum SourceView {
    Inline(JsonView),
    FromFile(Seq<char>),
}

/// Host overrides produced by phase 2 (`ui_root` only).
#[derive(Debug)]
pub struct HostOverrides {
    /// Replaces the CLI `--ui-root` when `Some`.
    pub ui_root: Option<String>,
}

/// Phase 2 outcome: the command source and the `ui_root` override.
pub open spec fn command_host_spec(ext: ExtensionDef, ctx: MatchContext) -> Result<
    (SourceView, Option<Seq<char>>),
    ExpandFailure,
> {
    match ext.expand {
        None => Err(
            ExpandFailure::Template(
                TemplateErrorKind::InvalidSpec,
                "extension '"@ + ext.id@ + "' has no expand block"@,
            ),
        ),
        Some(e) => if e.command is Some && e.command_from_file is Some {
            Err(
                ExpandFailure::Template(
                    TemplateErrorKind::InvalidSpec,
                    "extension '"@ + ext.id@ + "' sets both command and command_from_file"@,
                ),
            )
        } else {
            match env_args(ext, ctx) {
                Err(f) => Err(f),
                Ok(args) => {
                    let cmd: Result<SourceView, ExpandFailure> = match e.command {
                        Some(c) => match expand_value_spec(ext, ctx, args, Phase::Command, c@) {
                            Err(f) => Err(f),
                            Ok(v) => Ok(SourceView::Inline(v)),
                        },
                        None => match e.command_from_file {
                            Some(p) => match expand_string_spec(ext, ctx, args, Phase::Command, p@) {
                                Err(f) => Err(f),
                                Ok(v) => Ok(SourceView::FromFile(v)),
                            },
                            None => Err(
                                ExpandFailure::Template(
                                    TemplateErrorKind::InvalidSpec,
                                    "extension '"@ + ext.id@
                                        + "' expand has neither command nor command_from_file"@,
                                ),
                            ),
                        },
                    };
                    match cmd {
                        Err(f) => Err(f),
                        Ok(c) => match e.host {
                            Some(h) => match h.ui_root {
                                Some(t) => match expand_string_spec(
                                    ext,
                                    ctx,
                                    args,
                                    Phase::Command,
                                    t@,
                                ) {
                                    Err(f) => Err(f),
                                    Ok(u) => Ok((c, Some(u))),
                                },
                                None => Ok((c, None)),
                            },
                            None => Ok((c, None)),
                        },
                    }
                },
            }
        },
    }
}

/// View of a command source.
pub open spec fn source_view(c: CommandSource) -> SourceView {
    match c {
        CommandSource::Inline(v) => SourceView::Inline(v@),
        CommandSource::FromFile(p) => SourceView::FromFile(p@),
    }
}

/// Phase 2: expand `command` (or the `command_from_file` path) and `host`.
pub fn expand_command_host(ext: &ExtensionDef, ctx: &MatchContext) -> (r: Result<
    (CommandSource, HostOverrides),
    ExtensionError,
>)
    ensures
        match r {
            Ok((c, h)) => command_host_spec(*ext, *ctx) == Ok::<
                (SourceView, Option<Seq<char>>),
                ExpandFailure,
            >((source_view(c), opt_view(h.ui_root))),
            Err(e) => match command_host_spec(*ext, *ctx) {
                Err(f) => failure_error(*ext, f, e),
                Ok(_) => false,
            },
        },
{
    let spec = match &ext.expand {
        Some(s) => s,
        None => {
            let mut m = concat3("extension '", ext.id.as_str(), "' has no expand block");
            return Err(ExtensionError::Template { kind: TemplateErrorKind::InvalidSpec, message: m });
        },
    };
    if spec.command.is_some() && spec.command_from_file.is_some() {
        let m = concat3(
            "extension '",
            ext.id.as_str(),
            "' sets both command and command_from_file",
        );
        return Err(ExtensionError::Template { kind: TemplateErrorKind::InvalidSpec, message: m });
    }
    let env = env_from_context(ext, ctx)?;
    let command = match &spec.command {
        Some(template) => CommandSource::Inline(expand_value(ext, ctx, &env, Phase::Command, template)?),
        None => match &spec.command_from_file {
            Some(path_tmpl) => CommandSource::FromFile(
                expand_string(ext, ctx, &env, Phase::Command, path_tmpl.as_str())?,
            ),
            None => {
                let m = concat3(
                    "extension '",
                    ext.id.as_str(),
                    "' expand has neither command nor command_from_file",
                );
                return Err(
                    ExtensionError::Template { kind: TemplateErrorKind::InvalidSpec, message: m },
                );
            },
        },
    };
    let ui_root = match &spec.host {
        Some(h) => match &h.ui_root {
            Some(t) => Some(expand_string(ext, ctx, &env, Phase::Command, t.as_str())?),
            None => None,
        },
        None => None,
    };
    Ok((command, HostOverrides { ui_root }))
}

/// Some template of `ext` contains `needle`.
pub open spec fn templates_contain_spec(ext: ExtensionDef, needle: Seq<char>) -> bool {
    exists|i: int|
        0 <= i < crate::skill_args::ext_templates(ext@).len() && contains_seq(
            #[trigger] crate::skill_args::ext_templates(ext@)[i],
            needle,
        )
}

/// Whether any template of `ext` contains `needle`.
pub fn templates_contain(ext: &ExtensionDef, needle: &str) -> (r: bool)
    ensures
        r == templates_contain_spec(*ext, needle@),
{
    let ts = crate::skill_args::extension_templates(ext);
    let mut i: usize = 0;
    while i < ts.len()
        invariant
            views(ts@) == crate::skill_args::ext_templates(ext@),
            i <= ts.len(),
            forall|k: int| 0 <= k < i ==> !contains_seq(#[trigger] views(ts@)[k], needle@),
        decreases ts.len() - i,
    {
        if crate::text::str_contains(ts[i].as_str(), needle) {
            assert(contains_seq(views(ts@)[i as int], needle@));
            return true;
        }
        i = i + 1;
    }
    false
}

/// Whether a template of `ext` references `{tmpdir}`.
pub fn references_tmpdir(ext: &ExtensionDef) -> (r: bool)
    ensures
        r == templates_contain_spec(*ext, "{tmpdir}"@),
{
    templates_contain(ext, "{tmpdir}")
}

/// Whether a template of `ext` references `{rendered_basename}`.
pub fn references_rendered_basename(ext: &ExtensionDef) -> (r: bool)
    ensures
        r == templates_contain_spec(*ext, "{rendered_basename}"@),
{
    templates_contain(ext, "{rendered_basename}")
}

/// Most bytes of a `command_from_file` file.
pub const MAX_COMMAND_FROM_FILE_BYTES: usize = 1048576;

/// What reading a file up to a size limit gave: the read failure as
/// displayed, or the number of bytes read (reading stops one byte past the
/// limit) with their UTF-8 decoding or its failure as displayed.
#[derive(Debug)]
pub enum FileRead {
    /// Opening or reading failed.
    Failed(String),
    /// The bytes read.
    Read {
        /// Number of bytes read.
        len: usize,
        /// The bytes as text, or why they are not UTF-8.
        text: Result<String, String>,
    },
}

/// The command text of a `command_from_file` file at `path`, or the I/O
/// failure reported for it.
pub open spec fn command_file_text_spec(path: Seq<char>, read: FileRead) -> Result<
    Seq<char>,
    Seq<char>,
> {
    match read {
        FileRead::Failed(d) => Err("command_from_file '"@ + path + "': "@ + d@),
        FileRead::Read { len, text } => if len > MAX_COMMAND_FROM_FILE_BYTES {
            Err("command_from_file '"@ + path + "' exceeds maximum of "@ + decimal(
                MAX_COMMAND_FROM_FILE_BYTES as nat,
            ) + " bytes"@)
        } else {
            match text {
                Ok(t) => Ok(t@),
                Err(d) => Err("command_from_file '"@ + path + "' is not valid UTF-8: "@ + d@),
            }
        },
    }
}

/// The command text read from the `command_from_file` file at `path`:
/// failures to read, files over the limit and bytes that are not UTF-8 are
/// `ExtensionError::Io` failures.
pub fn command_file_text(path: &str, read: FileRead) -> (r: Result<String, ExtensionError>)
    ensures
        match command_file_text_spec(path@, read) {
            Ok(t) => r matches Ok(s) && s@ == t,
            Err(m) => r matches Err(ExtensionError::Io { message }) && message@ == m,
        },
{
    match read {
        FileRead::Failed(d) => {
            let head = concat3("command_from_file '", path, "': ");
            Err(ExtensionError::Io { message: concat2(head.as_str(), d.as_str()) })
        },
        FileRead::Read { len, text } => {
            if len > MAX_COMMAND_FROM_FILE_BYTES {
                let mut message = concat3("command_from_file '", path, "' exceeds maximum of ");
                push_decimal(&mut message, MAX_COMMAND_FROM_FILE_BYTES as u64);
                push_str(&mut message, " bytes");
                Err(ExtensionError::Io { message })
            } else {
                match text {
                    Ok(t) => Ok(t),
                    Err(d) => {
                        let head = concat3("command_from_file '", path, "' is not valid UTF-8: ");
                        Err(ExtensionError::Io { message: concat2(head.as_str(), d.as_str()) })
                    },
                }
            }
        },
    }
}

/// The failure reported when the text of the `command_from_file` file at
/// `path` is not JSON (`detail` is the parser's message).
pub fn command_file_json_error(path: &str, detail: &str) -> (r: ExtensionError)
    ensures
        r matches ExtensionError::Io { message } && message@ == "command_from_file '"@ + path@
            + "' is not JSON: "@ + detail@,
{
    let head = concat3("command_from_file '", path, "' is not JSON: ");
    ExtensionError::Io { message: concat2(head.as_str(), detail) }
}

} // verus!

