//! Skill catalog: one record per extension and the single text card that
//! help, `extensions list` and `extensions show` print.

use vstd::prelude::*;

use crate::envelope::{push_owned, push_string};
use crate::ids::{BinaryName, ExtensionId};
use crate::loader::ExtensionRegistry;
use crate::matching::{match_kind_summary, match_kind_text, RequiresProbe};
use crate::registry::{
    copy_opt_id, copy_strings, defs_view, opt_view, spec_requires, tokens_view, DefView,
    ExtensionDef, MatchView, SkillSource,
};
use crate::skill_args::{args_view, declared_args_spec, declared_skill_args, ArgView, SkillArg};
use crate::text::{
    ascii_upper, char_ascii_upper, chars_of, concat2, concat3, copy_string, is_empty_str, join,
    join_spec, owned, push_char, push_str, starts_with, str_eq, str_starts_with, trim_spec,
    trim_string, views,
};

verus! {

/// `name` with `-` turned into `_`, upper-cased (ASCII).
pub open spec fn placeholder_spec(name: Seq<char>) -> Seq<char> {
    name.map_values(
        |c: char|
            if c == '-' {
                '_'
            } else {
                ascii_upper(c)
            },
    )
}

/// Placeholder of a flag value in usage text.
pub fn placeholder(name: &str) -> (r: String)
    ensures
        r@ == placeholder_spec(name@),
{
    let v = chars_of(name);
    let mut out = String::new();
    let mut i: usize = 0;
    while i < v.len()
        invariant
            v@ == name@,
            i <= v.len(),
            out@ == placeholder_spec(name@).subrange(0, i as int),
        decreases v.len() - i,
    {
        let c = v[i];
        if c == '-' {
            push_char(&mut out, '_');
        } else {
            push_char(&mut out, char_ascii_upper(c));
        }
        i = i + 1;
        assert(out@ =~= placeholder_spec(name@).subrange(0, i as int));
    }
    assert(placeholder_spec(name@).subrange(0, v.len() as int) =~= placeholder_spec(name@));
    out
}

/// Usage text of one flag.
pub open spec fn format_arg_spec(a: ArgView) -> Seq<char> {
    if a.name == "root"@ && a.required {
        "--root <DIR>"@
    } else if a.name == "file"@ && a.required {
        "--file <FILE>"@
    } else if a.name == "var"@ && a.repeat {
        "[--var k=v]"@
    } else if a.name == "var-file"@ && a.repeat {
        "[--var-file vars.json]"@
    } else if a.name == "env-prefix"@ && a.repeat {
        "[--env-prefix PREFIX]"@
    } else if a.required {
        "--"@ + a.name + " <"@ + placeholder_spec(a.name) + ">"@
    } else if a.repeat {
        "[--"@ + a.name + " \u{2026}]"@
    } else {
        "[--"@ + a.name + " <"@ + placeholder_spec(a.name) + ">]"@
    }
}

/// Example text of one flag.
pub open spec fn example_arg_spec(a: ArgView) -> Seq<char> {
    if a.name == "root"@ && a.required {
        "--root DIR"@
    } else if a.name == "file"@ && a.required {
        "--file FILE.j2"@
    } else if a.name == "var"@ && a.repeat {
        "[--var k=v]"@
    } else if a.name == "var-file"@ && a.repeat {
        "[--var-file vars.json]"@
    } else if a.name == "env-prefix"@ && a.repeat {
        "[--env-prefix PREFIX]"@
    } else if a.required {
        "--"@ + a.name + " "@ + placeholder_spec(a.name)
    } else if a.repeat {
        "[--"@ + a.name + " \u{2026}]"@
    } else {
        "[--"@ + a.name + " "@ + placeholder_spec(a.name) + "]"@
    }
}

/// Usage text of one flag.
pub fn format_arg(arg: &SkillArg) -> (r: String)
    ensures
        r@ == format_arg_spec(ArgView { name: arg.name@, required: arg.required, repeat: arg.repeat }),
{
    let name = arg.name.as_str();
    if str_eq(name, "root") && arg.required {
        owned("--root <DIR>")
    } else if str_eq(name, "file") && arg.required {
        owned("--file <FILE>")
    } else if str_eq(name, "var") && arg.repeat {
        owned("[--var k=v]")
    } else if str_eq(name, "var-file") && arg.repeat {
        owned("[--var-file vars.json]")
    } else if str_eq(name, "env-prefix") && arg.repeat {
        owned("[--env-prefix PREFIX]")
    } else if arg.required {
        let p = placeholder(name);
        let mut r = concat3("--", name, " <");
        push_str(&mut r, p.as_str());
        push_str(&mut r, ">");
        r
    } else if arg.repeat {
        concat3("[--", name, " \u{2026}]")
    } else {
        let p = placeholder(name);
        let mut r = concat3("[--", name, " <");
        push_str(&mut r, p.as_str());
        push_str(&mut r, ">]");
        r
    }
}

fn example_arg(arg: &SkillArg) -> (r: String)
    ensures
        r@ == example_arg_spec(ArgView { name: arg.name@, required: arg.required, repeat: arg.repeat }),
{
    let name = arg.name.as_str();
    if str_eq(name, "root") && arg.required {
        owned("--root DIR")
    } else if str_eq(name, "file") && arg.required {
        owned("--file FILE.j2")
    } else if str_eq(name, "var") && arg.repeat {
        owned("[--var k=v]")
    } else if str_eq(name, "var-file") && arg.repeat {
        owned("[--var-file vars.json]")
    } else if str_eq(name, "env-prefix") && arg.repeat {
        owned("[--env-prefix PREFIX]")
    } else if arg.required {
        let p = placeholder(name);
        let mut r = concat3("--", name, " ");
        push_str(&mut r, p.as_str());
        r
    } else if arg.repeat {
        concat3("[--", name, " \u{2026}]")
    } else {
        let p = placeholder(name);
        let mut r = concat3("[--", name, " ");
        push_str(&mut r, p.as_str());
        push_str(&mut r, "]");
        r
    }
}

/// Space-joined example flags.
pub open spec fn example_args_spec(args: Seq<ArgView>) -> Seq<char> {
    join_spec(args.map_values(|a: ArgView| example_arg_spec(a)), " "@)
}

/// Space-joined example flags.
pub fn example_args(args: &Vec<SkillArg>) -> (r: String)
    ensures
        r@ == example_args_spec(args_view(args@)),
{
    let mut parts: Vec<String> = Vec::new();
    let mut i: usize = 0;
    while i < args.len()
        invariant
            i <= args.len(),
            views(parts@) == args_view(args@).subrange(0, i as int).map_values(
                |a: ArgView| example_arg_spec(a),
            ),
        decreases args.len() - i,
    {
        push_string(&mut parts, example_arg(&args[i]));
        assert(views(parts@) =~= args_view(args@).subrange(0, i + 1).map_values(
            |a: ArgView| example_arg_spec(a),
        ));
        i = i + 1;
    }
    assert(args_view(args@).subrange(0, args.len() as int) =~= args_view(args@));
    join(&parts, " ")
}

/// Words of the copy-paste invocation pattern.
pub open spec fn invocation_words(m: MatchView, args: Seq<ArgView>) -> Seq<Seq<char>> {
    match m.argv_prefix {
        Some(prefix) => seq!["wyvern"@] + prefix + (match m.arg_suffix {
            Some(s) => seq!["<file"@ + s + ">"@],
            None => Seq::empty(),
        }) + args.map_values(|a: ArgView| format_arg_spec(a)),
        None => match m.filename {
            Some(f) => seq!["wyvern"@, "path/to/"@ + f],
            None => match m.positional_suffix {
                Some(s) => seq!["wyvern"@, "file"@ + s],
                None => seq!["wyvern"@],
            },
        },
    }
}

/// The invocation pattern of a prefix rule starts with `wyvern` and the
/// prefix tokens; when the rule takes a suffix path, the very next word is
/// the placeholder `<file` + suffix + `>`, and the declared flags follow.
pub proof fn lemma_invocation_names_the_file(m: MatchView, args: Seq<ArgView>)
    requires
        m.argv_prefix is Some,
    ensures
        ({
            let prefix = m.argv_prefix->Some_0;
            let w = invocation_words(m, args);
            let extra: int = if m.arg_suffix is Some { 1 } else { 0 };
            &&& w.len() == 1 + prefix.len() + extra + args.len()
            &&& w[0] == "wyvern"@
            &&& forall|k: int| 0 <= k < prefix.len() ==> w[1 + k] == #[trigger] prefix[k]
            &&& m.arg_suffix matches Some(sfx) ==> w[1 + prefix.len() as int] == "<file"@ + sfx + ">"@
            &&& forall|k: int|
                0 <= k < args.len() ==> w[1 + prefix.len() as int + extra + k] == format_arg_spec(#[trigger] args[k])
        }),
{
}

/// Copy-paste invocation pattern, including declared flags.
pub open spec fn invocation_spec(m: MatchView, args: Seq<ArgView>) -> Seq<char> {
    join_spec(invocation_words(m, args), " "@)
}

/// Copy-paste invocation pattern, including declared flags.
pub fn invocation_line(ext: &ExtensionDef, args: &Vec<SkillArg>) -> (r: String)
    ensures
        r@ == invocation_spec(ext.match_spec@, args_view(args@)),
{
    let spec = &ext.match_spec;
    let mut parts: Vec<String> = Vec::new();
    push_owned(&mut parts, "wyvern");
    match &spec.argv_prefix {
        Some(prefix) => {
            let mut i: usize = 0;
            while i < prefix.len()
                invariant
                    i <= prefix.len(),
                    views(parts@) == seq!["wyvern"@] + tokens_view(prefix@).subrange(0, i as int),
                decreases prefix.len() - i,
            {
                push_owned(&mut parts, prefix[i].as_str());
                assert(seq!["wyvern"@] + tokens_view(prefix@).subrange(0, i + 1) =~= (seq![
                    "wyvern"@,
                ] + tokens_view(prefix@).subrange(0, i as int)).push(prefix@[i as int]@));
                i = i + 1;
            }
            assert(tokens_view(prefix@).subrange(0, prefix.len() as int) =~= tokens_view(
                prefix@,
            ));
            let ghost base = views(parts@);
            if let Some(suffix) = &spec.arg_suffix {
                push_string(&mut parts, concat3("<file", suffix.as_str(), ">"));
            }
            let ghost mid = views(parts@);
            assert(mid == base + match spec@.arg_suffix {
                Some(s) => seq!["<file"@ + s + ">"@],
                None => Seq::<Seq<char>>::empty(),
            });
            let mut j: usize = 0;
            while j < args.len()
                invariant
                    j <= args.len(),
                    views(parts@) == mid + args_view(args@).subrange(0, j as int).map_values(
                        |a: ArgView| format_arg_spec(a),
                    ),
                decreases args.len() - j,
            {
                push_string(&mut parts, format_arg(&args[j]));
                assert(mid + args_view(args@).subrange(0, j + 1).map_values(
                    |a: ArgView| format_arg_spec(a),
                ) =~= (mid + args_view(args@).subrange(0, j as int).map_values(
                    |a: ArgView| format_arg_spec(a),
                )).push(format_arg_spec(args_view(args@)[j as int])));
                j = j + 1;
            }
            assert(args_view(args@).subrange(0, args.len() as int) =~= args_view(args@));
            assert(views(parts@) =~= invocation_words(spec@, args_view(args@)));
        },
        None => match &spec.filename {
            Some(f) => {
                push_string(&mut parts, concat2("path/to/", f.as_str()));
                assert(views(parts@) =~= invocation_words(spec@, args_view(args@)));
            },
            None => match &spec.positional_suffix {
                Some(s) => {
                    push_string(&mut parts, concat2("file", s.as_str()));
                    assert(views(parts@) =~= invocation_words(spec@, args_view(args@)));
                },
                None => {
                    assert(views(parts@) =~= invocation_words(spec@, args_view(args@)));
                },
            },
        },
    }
    join(&parts, " ")
}

/// Space-joined argv prefix.
fn join_prefix(prefix: &Vec<crate::ids::MatchToken>) -> (r: String)
    ensures
        r@ == join_spec(tokens_view(prefix@), " "@),
{
    let mut parts: Vec<String> = Vec::new();
    let mut i: usize = 0;
    while i < prefix.len()
        invariant
            i <= prefix.len(),
            views(parts@) == tokens_view(prefix@).subrange(0, i as int),
        decreases prefix.len() - i,
    {
        push_owned(&mut parts, prefix[i].as_str());
        assert(tokens_view(prefix@).subrange(0, i + 1) =~= tokens_view(prefix@).subrange(
            0,
            i as int,
        ).push(prefix@[i as int]@));
        i = i + 1;
    }
    assert(tokens_view(prefix@).subrange(0, prefix.len() as int) =~= tokens_view(prefix@));
    join(&parts, " ")
}

/// Generated example line when the registry gives none.
pub open spec fn example_line_spec(m: MatchView, invocation: Seq<char>, args: Seq<ArgView>) -> Seq<
    char,
> {
    match m.argv_prefix {
        Some(prefix) => {
            let prefix_s = join_spec(prefix, " "@);
            match m.arg_suffix {
                Some(s) => "wyvern "@ + prefix_s + " data"@ + s,
                None => if args.len() > 0 {
                    "wyvern "@ + prefix_s + " "@ + example_args_spec(args)
                } else {
                    "wyvern "@ + prefix_s
                },
            }
        },
        None => invocation,
    }
}

/// Generated example line when the registry gives none.
pub fn example_line(ext: &ExtensionDef, invocation: &str, args: &Vec<SkillArg>) -> (r: String)
    ensures
        r@ == example_line_spec(ext.match_spec@, invocation@, args_view(args@)),
{
    let spec = &ext.match_spec;
    match &spec.argv_prefix {
        Some(prefix) => {
            let prefix_s = join_prefix(prefix);
            match &spec.arg_suffix {
                Some(s) => {
                    let mut r = concat3("wyvern ", prefix_s.as_str(), " data");
                    push_str(&mut r, s.as_str());
                    r
                },
                None => if args.len() > 0 {
                    let ex = example_args(args);
                    let mut r = concat3("wyvern ", prefix_s.as_str(), " ");
                    push_str(&mut r, ex.as_str());
                    r
                } else {
                    concat2("wyvern ", prefix_s.as_str())
                },
            }
        },
        None => owned(invocation),
    }
}

/// Recovery help command: the invocation prefix with `--help`, or
/// `extensions show <id>` for suffix and filename rules.
pub open spec fn skill_help_spec(d: DefView) -> Seq<char> {
    match d.match_spec.argv_prefix {
        Some(p) => if p.len() > 0 {
            "wyvern "@ + join_spec(p, " "@) + " --help"@
        } else {
            "wyvern extensions show "@ + d.id
        },
        None => "wyvern extensions show "@ + d.id,
    }
}

/// Recovery `--help` using the invocation prefix, not the extension id.
pub fn skill_help_command(ext: &ExtensionDef) -> (r: String)
    ensures
        r@ == skill_help_spec(ext@),
{
    if let Some(prefix) = &ext.match_spec.argv_prefix {
        if prefix.len() > 0 {
            let p = join_prefix(prefix);
            return concat3("wyvern ", p.as_str(), " --help");
        }
    }
    concat2("wyvern extensions show ", ext.id.as_str())
}

/// What reading a static `command_from_file` path gave.
#[derive(Debug)]
pub enum CommandFileType {
    /// The path template does not name a readable file before expansion.
    NotStatic,
    /// The file was read and parsed; its `type` string, if any.
    Found(Option<String>),
    /// The file exists but could not be read or parsed.
    Unreadable,
}

/// Index of the last `/` or `\` among the first `n` characters.
pub open spec fn last_sep_before(s: Seq<char>, n: int) -> Option<int>
    decreases n,
{
    if n <= 0 || n > s.len() {
        None
    } else if s[n - 1] == '/' || s[n - 1] == '\\' {
        Some(n - 1)
    } else {
        last_sep_before(s, n - 1)
    }
}

/// Final `/`- or `\`-separated segment of a path template.
pub open spec fn last_segment(s: Seq<char>) -> Seq<char> {
    match last_sep_before(s, s.len() as int) {
        Some(k) => s.subrange(k + 1, s.len() as int),
        None => s,
    }
}

/// `report` for a template whose file name is `report-command.json`.
pub open spec fn filename_type(s: Seq<char>) -> Option<Seq<char>> {
    if last_segment(s) == "report-command.json"@ {
        Some("report"@)
    } else {
        None
    }
}

fn last_segment_exec(s: &str) -> (r: String)
    ensures
        r@ == last_segment(s@),
{
    let v = chars_of(s);
    let mut n = v.len();
    while n > 0
        invariant
            v@ == s@,
            n <= v.len(),
            last_sep_before(s@, s@.len() as int) == last_sep_before(s@, n as int),
        decreases n,
    {
        if v[n - 1] == '/' || v[n - 1] == '\\' {
            return crate::template::substring(&v, n, v.len());
        }
        n = n - 1;
    }
    owned(s)
}

fn filename_type_exec(s: &str) -> (r: Option<String>)
    ensures
        opt_view(r) == filename_type(s@),
{
    let seg = last_segment_exec(s);
    if str_eq(seg.as_str(), "report-command.json") {
        Some(owned("report"))
    } else {
        None
    }
}

/// The trimmed `command_type` hint, when non-empty.
pub open spec fn type_hint(d: ExtensionDef) -> Option<Seq<char>> {
    match d.expand {
        Some(e) => match e.command_type {
            Some(t) => if trim_spec(t@).len() > 0 {
                Some(trim_spec(t@))
            } else {
                None
            },
            None => None,
        },
        None => None,
    }
}

/// The non-empty `type` of the inline command JSON.
pub open spec fn inline_type(d: ExtensionDef) -> Option<Seq<char>> {
    match d.expand {
        Some(e) => match e.command {
            Some(c) => match c.spec_get_str("type"@) {
                Some(t) => if t.len() > 0 {
                    Some(t)
                } else {
                    None
                },
                None => None,
            },
            None => None,
        },
        None => None,
    }
}

/// First of `a`, then `b`, then `fallback`.
pub open spec fn first_of(a: Option<Seq<char>>, b: Option<Seq<char>>, fallback: Seq<char>) -> Seq<
    char,
> {
    match a {
        Some(x) => x,
        None => match b {
            Some(y) => y,
            None => fallback,
        },
    }
}

/// Command `type` an extension expands to, for listings: the inline command's
/// `type`; else, for `command_from_file`, the type read from a static file,
/// the `command_type` hint, the `report-command.json` file name, or
/// `unknown` when the file could not be read (`wizard` when there is no
/// static file); else the hint or `wizard`.
pub open spec fn expands_to_spec(d: ExtensionDef, f: CommandFileType) -> Seq<char> {
    match inline_type(d) {
        Some(t) => t,
        None => match d.expand {
            Some(e) => match e.command_from_file {
                Some(path) => match f {
                    CommandFileType::Found(Some(t)) if t@.len() > 0 => t@,
                    CommandFileType::NotStatic => first_of(
                        type_hint(d),
                        filename_type(path@),
                        "wizard"@,
                    ),
                    _ => first_of(type_hint(d), filename_type(path@), "unknown"@),
                },
                None => first_of(type_hint(d), None, "wizard"@),
            },
            None => "wizard"@,
        },
    }
}

fn first_of_exec(a: Option<String>, b: Option<String>, fallback: &str) -> (r: String)
    ensures
        r@ == first_of(opt_view(a), opt_view(b), fallback@),
{
    match a {
        Some(x) => x,
        None => match b {
            Some(y) => y,
            None => owned(fallback),
        },
    }
}

/// Command `type` an extension expands to, given what reading its static
/// `command_from_file` gave.
pub fn expands_to(ext: &ExtensionDef, file: &CommandFileType) -> (r: String)
    ensures
        r@ == expands_to_spec(*ext, *file),
{
    if let Some(e) = &ext.expand {
        if let Some(c) = &e.command {
            if let Some(t) = c.get_str("type") {
                if !is_empty_str(t.as_str()) {
                    return copy_string(t);
                }
            }
        }
    }
    let hint: Option<String> = match &ext.expand {
        Some(e) => match &e.command_type {
            Some(t) => {
                let tt = trim_string(t.as_str());
                if is_empty_str(tt.as_str()) {
                    None
                } else {
                    Some(tt)
                }
            },
            None => None,
        },
        None => None,
    };
    match &ext.expand {
        Some(e) => match &e.command_from_file {
            Some(path) => match file {
                CommandFileType::Found(Some(t)) => {
                    if !is_empty_str(t.as_str()) {
                        copy_string(t)
                    } else {
                        first_of_exec(hint, filename_type_exec(path.as_str()), "unknown")
                    }
                },
                CommandFileType::NotStatic => first_of_exec(
                    hint,
                    filename_type_exec(path.as_str()),
                    "wizard",
                ),
                _ => first_of_exec(hint, filename_type_exec(path.as_str()), "unknown"),
            },
            None => first_of_exec(hint, None, "wizard"),
        },
        None => owned("wizard"),
    }
}

/// `base` with `rest` appended as std's `PathBuf::push` does.
pub uninterp spec fn path_pushed(base: Seq<char>, rest: Seq<char>) -> Seq<char>;

/// Calls `std::path::PathBuf::push` on a path built from `base`; the result
/// is converted back to a `String` (both inputs are UTF-8).
#[verifier::external_body]
pub(crate) fn push_path(base: &str, rest: &str) -> (r: String)
    ensures
        r@ == path_pushed(base@, rest@),
{
    let mut p = std::path::PathBuf::from(base);
    p.push(rest);
    p.to_string_lossy().into_owned()
}

/// Number of `c` in `s`.
pub open spec fn count_char(s: Seq<char>, c: char) -> nat
    decreases s.len(),
{
    if s.len() == 0 {
        0
    } else {
        count_char(s.drop_last(), c) + if s.last() == c {
            1nat
        } else {
            0nat
        }
    }
}

/// Position of the first character that is neither `/` nor `\` at or after `i`.
pub open spec fn skip_seps(s: Seq<char>, i: int) -> int
    decreases s.len() - i,
{
    if 0 <= i < s.len() && (s[i] == '/' || s[i] == '\\') {
        skip_seps(s, i + 1)
    } else {
        i
    }
}

/// The file a `command_from_file` template names before any expansion, if
/// any: `{wyvern_share}` followed by a path (leading separators of either
/// kind dropped) under `share`, or a template without variables.
pub open spec fn static_command_path(t: Seq<char>, share: Seq<char>) -> Option<Seq<char>> {
    let open_braces = count_char(t, '{');
    if starts_with(t, "{wyvern_share}"@) {
        if open_braces > 1 {
            None
        } else {
            let rest = t.subrange(14, t.len() as int);
            let trimmed = rest.subrange(skip_seps(rest, 0), rest.len() as int);
            if trimmed.len() == 0 {
                Some(share)
            } else {
                Some(path_pushed(share, trimmed))
            }
        }
    } else if open_braces > 0 {
        None
    } else {
        Some(t)
    }
}

/// The file a `command_from_file` template names before any expansion, with
/// `{wyvern_share}` resolved to `share` (whether it exists is for the caller).
pub fn resolve_static_command_path(path_tmpl: &str, share: &str) -> (r: Option<String>)
    ensures
        opt_view(r) == static_command_path(path_tmpl@, share@),
{
    proof {
        reveal_strlit("{wyvern_share}");
    }
    let v = chars_of(path_tmpl);
    let mut count: usize = 0;
    let mut i: usize = 0;
    while i < v.len()
        invariant
            v@ == path_tmpl@,
            i <= v.len(),
            count <= i,
            count == count_char(v@.subrange(0, i as int), '{'),
        decreases v.len() - i,
    {
        assert(v@.subrange(0, i + 1).drop_last() =~= v@.subrange(0, i as int));
        if v[i] == '{' {
            count = count + 1;
        }
        i = i + 1;
    }
    assert(v@.subrange(0, v.len() as int) =~= v@);
    if str_starts_with(path_tmpl, "{wyvern_share}") {
        if count > 1 {
            return None;
        }
        let ghost rest = v@.subrange(14, v@.len() as int);
        let mut k: usize = 14;
        while k < v.len() && (v[k] == '/' || v[k] == '\\')
            invariant
                v@ == path_tmpl@,
                14 <= k <= v.len(),
                rest == v@.subrange(14, v@.len() as int),
                skip_seps(rest, 0) == skip_seps(rest, k - 14),
            decreases v.len() - k,
        {
            k = k + 1;
        }
        let trimmed = crate::template::substring(&v, k, v.len());
        assert(trimmed@ =~= rest.subrange(skip_seps(rest, 0), rest.len() as int));
        if is_empty_str(trimmed.as_str()) {
            Some(owned(share))
        } else {
            Some(push_path(share, trimmed.as_str()))
        }
    } else if count > 0 {
        None
    } else {
        Some(owned(path_tmpl))
    }
}

/// Unix and Windows separators after `{wyvern_share}` name the same file.
#[verifier::spinoff_prover]
#[verifier::rlimit(60)]
pub proof fn lemma_share_separators_agree(rest: Seq<char>, share: Seq<char>)
    requires
        !rest.contains('{'),
    ensures
        static_command_path("{wyvern_share}/"@ + rest, share) == static_command_path(
            "{wyvern_share}\\"@ + rest,
            share,
        ),
{
    reveal_strlit("{wyvern_share}/");
    reveal_strlit("{wyvern_share}\\");
    reveal_strlit("{wyvern_share}");
    reveal_with_fuel(count_char, 16);
    let a = "{wyvern_share}/"@ + rest;
    let b = "{wyvern_share}\\"@ + rest;
    assert forall|k: int| 15 <= k < a.len() implies a[k] != '{' by {
        assert(a[k] == rest[k - 15]);
    }
    assert forall|k: int| 15 <= k < b.len() implies b[k] != '{' by {
        assert(b[k] == rest[k - 15]);
    }
    lemma_count_prefix(a, 15);
    lemma_count_prefix(b, 15);
    assert(a.subrange(0, 15) =~= "{wyvern_share}/"@);
    assert(b.subrange(0, 15) =~= "{wyvern_share}\\"@);
    assert(count_char(a, '{') == 1);
    assert(count_char(b, '{') == 1);
    assert(a.subrange(0, 14) =~= "{wyvern_share}"@);
    assert(b.subrange(0, 14) =~= "{wyvern_share}"@);
    assert(a.subrange(15, a.len() as int) =~= rest);
    assert(b.subrange(15, b.len() as int) =~= rest);
    let ra = a.subrange(14, a.len() as int);
    let rb = b.subrange(14, b.len() as int);
    assert(ra.subrange(1, ra.len() as int) =~= rest);
    assert(rb.subrange(1, rb.len() as int) =~= rest);
    lemma_skip_seps_shift(ra, rest);
    lemma_skip_seps_shift(rb, rest);
    assert(ra.subrange(skip_seps(ra, 0), ra.len() as int) =~= rb.subrange(
        skip_seps(rb, 0),
        rb.len() as int,
    ));
}

proof fn lemma_skip_seps_bounds(s: Seq<char>, i: int)
    requires
        0 <= i <= s.len(),
    ensures
        i <= skip_seps(s, i) <= s.len(),
    decreases s.len() - i,
{
    if i < s.len() && (s[i] == '/' || s[i] == '\\') {
        lemma_skip_seps_bounds(s, i + 1);
    }
}

proof fn lemma_skip_seps_shift(r: Seq<char>, rest: Seq<char>)
    requires
        r.len() == rest.len() + 1,
        r[0] == '/' || r[0] == '\\',
        r.subrange(1, r.len() as int) == rest,
    ensures
        r.subrange(skip_seps(r, 0), r.len() as int) == rest.subrange(
            skip_seps(rest, 0),
            rest.len() as int,
        ),
{
    lemma_skip_seps_offset(r, rest, 0);
    lemma_skip_seps_bounds(rest, 0);
    let j = skip_seps(rest, 0);
    assert(skip_seps(r, 0) == j + 1);
    assert(r.subrange(j + 1, r.len() as int) =~= rest.subrange(j, rest.len() as int)) by {
        assert forall|k: int| 0 <= k < rest.len() - j implies r.subrange(
            j + 1,
            r.len() as int,
        )[k] == rest.subrange(j, rest.len() as int)[k] by {
            assert(r.subrange(1, r.len() as int)[j + k] == r[j + k + 1]);
        }
    }
}

proof fn lemma_skip_seps_offset(r: Seq<char>, rest: Seq<char>, i: int)
    requires
        r.len() == rest.len() + 1,
        r[0] == '/' || r[0] == '\\',
        r.subrange(1, r.len() as int) == rest,
        0 <= i <= rest.len(),
    ensures
        skip_seps(r, i + 1) == skip_seps(rest, i) + 1,
        skip_seps(r, 0) == skip_seps(r, 1),
    decreases rest.len() - i,
{
    assert forall|k: int| 0 <= k < rest.len() implies r[k + 1] == rest[k] by {
        assert(r.subrange(1, r.len() as int)[k] == r[k + 1]);
    }
    if i < rest.len() && (rest[i] == '/' || rest[i] == '\\') {
        lemma_skip_seps_offset(r, rest, i + 1);
    }
}

proof fn lemma_count_prefix(s: Seq<char>, n: int)
    requires
        0 <= n <= s.len(),
        forall|k: int| n <= k < s.len() ==> s[k] != '{',
    ensures
        count_char(s, '{') == count_char(s.subrange(0, n), '{'),
    decreases s.len() - n,
{
    if n < s.len() {
        assert(s.drop_last().subrange(0, n) =~= s.subrange(0, n));
        lemma_count_prefix(s.drop_last(), n);
    } else {
        assert(s.subrange(0, n) =~= s);
    }
}

/// One `preexec.requires` binary and whether the probe found it.
#[derive(Debug)]
pub struct SkillRequire {
    /// Bare binary name from the registry.
    pub binary: BinaryName,
    /// Whether the binary was found when the record was built.
    pub available: bool,
}

/// One catalog / help record for a resolved extension.
#[derive(Debug)]
pub struct SkillRecord {
    /// Extension id.
    pub id: ExtensionId,
    /// Human match description (`prefix: compose render`).
    pub match_kind: String,
    /// Copy-paste invocation pattern, including declared flags.
    pub invocation: String,
    /// Required binaries and whether each was found.
    pub requirements: Vec<SkillRequire>,
    /// Declared `{arg:*}` flags.
    pub args: Vec<SkillArg>,
    /// Command `type` the extension expands to.
    pub expands_to: String,
    /// Trimmed one-line summary, when non-empty.
    pub description: Option<String>,
    /// Copy-paste example lines.
    pub examples: Vec<String>,
    /// Parent extension id when `extends` is set.
    pub extends: Option<ExtensionId>,
    /// Where the entry was loaded from.
    pub source: SkillSource,
}

/// Mathematical form of a [`SkillRecord`].
pub struct RecordView {
    pub id: Seq<char>,
    pub match_kind: Seq<char>,
    pub invocation: Seq<char>,
    pub requirements: Seq<(Seq<char>, bool)>,
    pub args: Seq<ArgView>,
    pub expands_to: Seq<char>,
    pub description: Option<Seq<char>>,
    pub examples: Seq<Seq<char>>,
    pub extends: Option<Seq<char>>,
    pub source: SkillSource,
}

impl View for SkillRecord {
    type V = RecordView;

    open spec fn view(&self) -> RecordView {
        RecordView {
            id: self.id@,
            match_kind: self.match_kind@,
            invocation: self.invocation@,
            requirements: self.requirements@.map_values(|q: SkillRequire| (q.binary@, q.available)),
            args: args_view(self.args@),
            expands_to: self.expands_to@,
            description: opt_view(self.description),
            examples: views(self.examples@),
            extends: match self.extends {
                Some(i) => Some(i@),
                None => None,
            },
            source: self.source,
        }
    }
}

/// The record of an extension, with binaries looked up by `probe` and the
/// static command file read as `file`.
pub open spec fn record_spec<P: RequiresProbe>(d: ExtensionDef, probe: P, file: CommandFileType) -> RecordView {
    let args = declared_args_spec(d@);
    let invocation = invocation_spec(d.match_spec@, args);
    RecordView {
        id: d.id@,
        match_kind: match_kind_text(d.match_spec@),
        invocation,
        requirements: spec_requires(d).map_values(|b: BinaryName| (b@, probe.on_path(b@))),
        args,
        expands_to: expands_to_spec(d, file),
        description: match d.description {
            Some(t) => if trim_spec(t@).len() > 0 {
                Some(trim_spec(t@))
            } else {
                None
            },
            None => None,
        },
        examples: if d.examples@.len() == 0 {
            seq![example_line_spec(d.match_spec@, invocation, args)]
        } else {
            views(d.examples@)
        },
        extends: match d.extends {
            Some(i) => Some(i@),
            None => None,
        },
        source: d.source,
    }
}

/// Build the help record of a resolved extension. `probe` is asked about
/// each required binary; `file` is what reading its static
/// `command_from_file` gave.
pub fn build_skill_record<P: RequiresProbe>(
    ext: &ExtensionDef,
    probe: &P,
    file: &CommandFileType,
) -> (r: SkillRecord)
    ensures
        r@ == record_spec(*ext, *probe, *file),
{
    let args = declared_skill_args(ext);
    let invocation = invocation_line(ext, &args);
    let examples = if ext.examples.len() == 0 {
        let mut v: Vec<String> = Vec::new();
        push_string(&mut v, example_line(ext, invocation.as_str(), &args));
        assert(views(v@) =~= seq![example_line_spec(ext.match_spec@, invocation@, args_view(args@))]);
        v
    } else {
        copy_strings(&ext.examples)
    };
    let reqs = ext.required_binaries();
    let mut requirements: Vec<SkillRequire> = Vec::new();
    let mut i: usize = 0;
    while i < reqs.len()
        invariant
            i <= reqs.len(),
            reqs@ == spec_requires(*ext),
            requirements@.map_values(|q: SkillRequire| (q.binary@, q.available)) == reqs@.subrange(
                0,
                i as int,
            ).map_values(|b: BinaryName| (b@, probe.on_path(b@))),
        decreases reqs.len() - i,
    {
        let available = probe.binary_on_path(reqs[i].as_str());
        let ghost before = requirements@.map_values(|q: SkillRequire| (q.binary@, q.available));
        let item = SkillRequire { binary: reqs[i].copy(), available };
        assert((item.binary@, item.available) == (reqs@[i as int]@, probe.on_path(reqs@[i as int]@)));
        requirements.push(item);
        assert(requirements@.map_values(|q: SkillRequire| (q.binary@, q.available)) =~= before.push(
            (reqs@[i as int]@, probe.on_path(reqs@[i as int]@)),
        ));
        assert(reqs@.subrange(0, i + 1).map_values(|b: BinaryName| (b@, probe.on_path(b@))) =~= reqs@.subrange(
            0,
            i as int,
        ).map_values(|b: BinaryName| (b@, probe.on_path(b@))).push(
            (reqs@[i as int]@, probe.on_path(reqs@[i as int]@)),
        ));
        assert(requirements@.map_values(|q: SkillRequire| (q.binary@, q.available)) =~= reqs@.subrange(
            0,
            i + 1,
        ).map_values(|b: BinaryName| (b@, probe.on_path(b@))));
        i = i + 1;
    }
    assert(reqs@.subrange(0, reqs.len() as int) =~= reqs@);
    let description = match &ext.description {
        Some(t) => {
            let tt = trim_string(t.as_str());
            if is_empty_str(tt.as_str()) {
                None
            } else {
                Some(tt)
            }
        },
        None => None,
    };
    SkillRecord {
        id: ext.id.copy(),
        match_kind: match_kind_summary(&ext.match_spec),
        invocation,
        requirements,
        args,
        expands_to: expands_to(ext, file),
        description,
        examples,
        extends: copy_opt_id(&ext.extends),
        source: ext.source,
    }
}

/// `Requires:` text of a record.
pub open spec fn requires_text(reqs: Seq<(Seq<char>, bool)>) -> Seq<char> {
    if reqs.len() == 0 {
        "(none)"@
    } else {
        join_spec(
            reqs.map_values(
                |q: (Seq<char>, bool)|
                    q.0 + " ["@ + (if q.1 {
                        "available"@
                    } else {
                        "missing"@
                    }) + "]"@,
            ),
            ", "@,
        )
    }
}

/// Continuation lines of the `Example:` block.
pub open spec fn example_tail(ex: Seq<Seq<char>>) -> Seq<char>
    decreases ex.len(),
{
    if ex.len() == 0 {
        Seq::empty()
    } else {
        example_tail(ex.drop_last()) + "\n         "@ + ex.last()
    }
}

/// The text card of a record.
pub open spec fn card_text(r: RecordView) -> Seq<char> {
    r.id + "\n"@ + r.match_kind + "\n"@ + (match r.description {
        Some(d) => d + "\n"@,
        None => Seq::empty(),
    }) + "Usage: "@ + r.invocation + "\n"@ + "Requires: "@ + requires_text(r.requirements) + "\n"@
        + "Expands to: "@ + r.expands_to + "\n"@ + (match r.extends {
        Some(p) => "Extends: "@ + p + " (alias)\n"@,
        None => Seq::empty(),
    }) + "Example: "@ + (if r.examples.len() > 0 {
        r.examples[0] + example_tail(r.examples.subrange(1, r.examples.len() as int))
    } else {
        r.invocation
    }) + "\n"@
}

/// Format one skill as the single help / list / show text card.
pub fn format_skill_card(record: &SkillRecord) -> (r: String)
    ensures
        r@ == card_text(record@),
{
    let ghost rv = record@;
    let mut out = String::new();
    push_str(&mut out, record.id.as_str());
    push_str(&mut out, "\n");
    push_str(&mut out, record.match_kind.as_str());
    push_str(&mut out, "\n");
    let ghost a = out@;
    if let Some(d) = &record.description {
        push_str(&mut out, d.as_str());
        push_str(&mut out, "\n");
    }
    assert(out@ =~= a + match rv.description {
        Some(d) => d + "\n"@,
        None => Seq::<char>::empty(),
    });
    push_str(&mut out, "Usage: ");
    push_str(&mut out, record.invocation.as_str());
    push_str(&mut out, "\n");
    push_str(&mut out, "Requires: ");
    let ghost b = out@;
    if record.requirements.len() == 0 {
        push_str(&mut out, "(none)");
    } else {
        let mut parts: Vec<String> = Vec::new();
        let mut i: usize = 0;
        while i < record.requirements.len()
            invariant
                i <= record.requirements.len(),
                views(parts@) == rv.requirements.subrange(0, i as int).map_values(
                    |q: (Seq<char>, bool)|
                        q.0 + " ["@ + (if q.1 {
                            "available"@
                        } else {
                            "missing"@
                        }) + "]"@,
                ),
                rv == record@,
            decreases record.requirements.len() - i,
        {
            let q = &record.requirements[i];
            let status = if q.available {
                "available"
            } else {
                "missing"
            };
            let mut t = concat3(q.binary.as_str(), " [", status);
            push_str(&mut t, "]");
            push_string(&mut parts, t);
            assert(views(parts@) =~= rv.requirements.subrange(0, i + 1).map_values(
                |q: (Seq<char>, bool)|
                    q.0 + " ["@ + (if q.1 {
                        "available"@
                    } else {
                        "missing"@
                    }) + "]"@,
            ));
            i = i + 1;
        }
        assert(rv.requirements.subrange(0, record.requirements.len() as int) =~= rv.requirements);
        let joined = join(&parts, ", ");
        push_str(&mut out, joined.as_str());
    }
    assert(out@ =~= b + requires_text(rv.requirements));
    push_str(&mut out, "\n");
    push_str(&mut out, "Expands to: ");
    push_str(&mut out, record.expands_to.as_str());
    push_str(&mut out, "\n");
    let ghost c = out@;
    if let Some(p) = &record.extends {
        push_str(&mut out, "Extends: ");
        push_str(&mut out, p.as_str());
        push_str(&mut out, " (alias)\n");
    }
    assert(out@ =~= c + match rv.extends {
        Some(p) => "Extends: "@ + p + " (alias)\n"@,
        None => Seq::<char>::empty(),
    });
    push_str(&mut out, "Example: ");
    let ghost e = out@;
    if record.examples.len() > 0 {
        push_str(&mut out, record.examples[0].as_str());
        let ghost ex = rv.examples;
        let mut j: usize = 1;
        while j < record.examples.len()
            invariant
                1 <= j <= record.examples.len(),
                ex == views(record.examples@),
                out@ == e + ex[0] + example_tail(ex.subrange(1, j as int)),
            decreases record.examples.len() - j,
        {
            assert(ex.subrange(1, j + 1).drop_last() =~= ex.subrange(1, j as int));
            push_str(&mut out, "\n         ");
            push_str(&mut out, record.examples[j].as_str());
            j = j + 1;
            assert(out@ =~= e + ex[0] + example_tail(ex.subrange(1, j as int)));
        }
    } else {
        push_str(&mut out, record.invocation.as_str());
    }
    push_str(&mut out, "\n");
    assert(out@ =~= card_text(rv));
    out
}

/// Build a record for every merged extension, in registry order; `files[i]`
/// is what reading the static command file of the `i`-th extension gave.
pub fn build_skill_records<P: RequiresProbe>(
    registry: &ExtensionRegistry,
    probe: &P,
    files: &Vec<CommandFileType>,
) -> (r: Vec<SkillRecord>)
    requires
        files@.len() == registry@.len(),
    ensures
        r@.len() == registry@.len(),
        forall|i: int|
            0 <= i < r@.len() ==> #[trigger] r@[i]@ == record_spec(
                registry.spec_entries()[i],
                *probe,
                files@[i],
            ),
{
    let exts = registry.extensions();
    let mut out: Vec<SkillRecord> = Vec::new();
    let mut i: usize = 0;
    while i < exts.len()
        invariant
            exts@ == registry.spec_entries(),
            files@.len() == exts@.len(),
            i <= exts.len(),
            out@.len() == i,
            forall|k: int|
                0 <= k < i ==> #[trigger] out@[k]@ == record_spec(exts@[k], *probe, files@[k]),
        decreases exts.len() - i,
    {
        out.push(build_skill_record(&exts[i], probe, &files[i]));
        i = i + 1;
    }
    out
}

} // verus!
