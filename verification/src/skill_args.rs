//! The `{arg:name}` / `{arg:name:repeat}` flags an extension declares in its
//! templates.

use vstd::prelude::*;

use crate::envelope::push_string;
use vstd::pervasive::VecAdditionalExecFns;
use crate::ids::ArgName;
use crate::json::{JsonValue, JsonView};
use crate::registry::{DefView, ExtensionDef};
use crate::template::{collect_template_vars, substring, template_vars};
use crate::text::{
    chars_of, copy_string, ends_with, starts_with, str_ends_with, str_eq, str_starts_with,
    trim_spec, views,
};

verus! {

/// String leaves of a JSON value, in document order.
pub open spec fn json_strings(v: JsonView) -> Seq<Seq<char>>
    decreases v, 0nat,
{
    match v {
        JsonView::Str(s) => seq![s],
        JsonView::Array(xs) => list_strings(xs, xs.len()),
        JsonView::Object(ms) => member_strings(ms, ms.len()),
        _ => Seq::empty(),
    }
}

/// String leaves of the first `n` items.
pub open spec fn list_strings(xs: Seq<JsonView>, n: nat) -> Seq<Seq<char>>
    decreases xs, n,
{
    if n == 0 || n > xs.len() {
        Seq::empty()
    } else {
        list_strings(xs, (n - 1) as nat) + json_strings(xs[n - 1])
    }
}

/// String leaves of the values of the first `n` members.
pub open spec fn member_strings(ms: Seq<(Seq<char>, JsonView)>, n: nat) -> Seq<Seq<char>>
    decreases ms, n,
{
    if n == 0 || n > ms.len() {
        Seq::empty()
    } else {
        proof {
            assert(decreases_to!(ms => ms[n - 1]));
        }
        member_strings(ms, (n - 1) as nat) + json_strings(ms[n - 1].1)
    }
}

/// String leaves of a JSON value, in document order.
#[verifier::loop_isolation(false)]
pub fn json_string_leaves(v: &JsonValue) -> (r: Vec<String>)
    ensures
        views(r@) == json_strings(v@),
    decreases v,
{
    match v {
        JsonValue::Str(s) => {
            let mut out: Vec<String> = Vec::new();
            push_string(&mut out, copy_string(s));
            assert(views(out@) =~= seq![s@]);
            out
        },
        JsonValue::Array(items) => {
            let ghost xs = v@->Array_0;
            let mut out: Vec<String> = Vec::new();
            let mut i: usize = 0;
            assert(views(out@) =~= Seq::<Seq<char>>::empty());
            while i < items.len()
                invariant
                    xs == v@->Array_0,
                    xs.len() == items@.len(),
                    forall|k: int| 0 <= k < items@.len() ==> #[trigger] xs[k] == items@[k]@,
                    i <= items.len(),
                    views(out@) == list_strings(xs, i as nat),
                decreases items.len() - i,
            {
                proof {
                    assert(decreases_to!(*v => *items));
                    assert(decreases_to!(*items => items@));
                    assert(decreases_to!(items@ => items@[i as int]));
                }
                let part = json_string_leaves(&items[i]);
                let ghost before = views(out@);
                let mut j: usize = 0;
                while j < part.len()
                    invariant
                        j <= part.len(),
                        views(out@) == before + views(part@).subrange(0, j as int),
                    decreases part.len() - j,
                {
                    push_string(&mut out, copy_string(&part[j]));
                    assert(views(part@).subrange(0, j + 1) =~= views(part@).subrange(
                        0,
                        j as int,
                    ).push(part@[j as int]@));
                    j = j + 1;
                }
                assert(views(part@).subrange(0, part.len() as int) =~= views(part@));
                assert(xs[i as int] == items@[i as int]@);
                i = i + 1;
            }
            out
        },
        JsonValue::Object(members) => {
            let ghost ms = v@->Object_0;
            let mut out: Vec<String> = Vec::new();
            let mut i: usize = 0;
            assert(views(out@) =~= Seq::<Seq<char>>::empty());
            while i < members.len()
                invariant
                    ms == v@->Object_0,
                    ms.len() == members@.len(),
                    forall|k: int| 0 <= k < members@.len() ==> #[trigger] ms[k].1 == members@[k].1@,
                    i <= members.len(),
                    views(out@) == member_strings(ms, i as nat),
                decreases members.len() - i,
            {
                proof {
                    assert(decreases_to!(*v => *members));
                    assert(decreases_to!(*members => members@));
                    assert(decreases_to!(members@ => members@[i as int]));
                    assert(decreases_to!(members@[i as int] => members@[i as int].1));
                }
                let part = json_string_leaves(&members[i].1);
                let ghost before = views(out@);
                let mut j: usize = 0;
                while j < part.len()
                    invariant
                        j <= part.len(),
                        views(out@) == before + views(part@).subrange(0, j as int),
                    decreases part.len() - j,
                {
                    push_string(&mut out, copy_string(&part[j]));
                    assert(views(part@).subrange(0, j + 1) =~= views(part@).subrange(
                        0,
                        j as int,
                    ).push(part@[j as int]@));
                    j = j + 1;
                }
                assert(views(part@).subrange(0, part.len() as int) =~= views(part@));
                assert(ms[i as int].1 == members@[i as int].1@);
                i = i + 1;
            }
            out
        },
        _ => {
            let out: Vec<String> = Vec::new();
            assert(views(out@) =~= Seq::<Seq<char>>::empty());
            out
        },
    }
}

/// Every template an extension carries, in declaration order: preexec
/// `cmd` and `args`, the string leaves of the inline command, the
/// `command_from_file` path and the host `ui_root`.
pub open spec fn ext_templates(d: DefView) -> Seq<Seq<char>> {
    let pre = match d.preexec {
        Some(p) => seq![p.cmd] + p.args,
        None => Seq::empty(),
    };
    let exp = match d.expand {
        Some(e) => (match e.command {
            Some(c) => json_strings(c),
            None => Seq::empty(),
        }) + (match e.command_from_file {
            Some(f) => seq![f],
            None => Seq::empty(),
        }) + (match e.host {
            Some(h) => match h {
                Some(u) => seq![u],
                None => Seq::empty(),
            },
            None => Seq::empty(),
        }),
        None => Seq::empty(),
    };
    pre + exp
}

/// Concatenated variables of a list of templates.
pub open spec fn vars_of_all(ts: Seq<Seq<char>>) -> Seq<Seq<char>>
    decreases ts.len(),
{
    if ts.len() == 0 {
        Seq::empty()
    } else {
        vars_of_all(ts.drop_last()) + template_vars(ts.last())
    }
}

/// `s` with later repeats removed (first occurrences kept, in order).
pub open spec fn dedup(s: Seq<Seq<char>>) -> Seq<Seq<char>>
    decreases s.len(),
{
    if s.len() == 0 {
        Seq::empty()
    } else if dedup(s.drop_last()).contains(s.last()) {
        dedup(s.drop_last())
    } else {
        dedup(s.drop_last()).push(s.last())
    }
}

/// One declared flag: name, whether `{arg:name}` is used (required) and
/// whether `{arg:name:repeat}` is used.
pub struct ArgView {
    pub name: Seq<char>,
    pub required: bool,
    pub repeat: bool,
}

/// Index of the first flag named `name`.
pub open spec fn arg_index(acc: Seq<ArgView>, name: Seq<char>) -> Option<int> {
    if exists|k: int| 0 <= k < acc.len() && #[trigger] acc[k].name == name {
        Some(
            choose|k: int|
                0 <= k < acc.len() && #[trigger] acc[k].name == name && forall|j: int|
                    0 <= j < k ==> #[trigger] acc[j].name != name,
        )
    } else {
        None
    }
}

/// Fold one template variable into the declared flags.
pub open spec fn arg_step(acc: Seq<ArgView>, var: Seq<char>) -> Seq<ArgView> {
    if !starts_with(var, "arg:"@) {
        acc
    } else {
        let rest = var.subrange(4, var.len() as int);
        let repeat = ends_with(rest, ":repeat"@);
        let name = if repeat {
            rest.subrange(0, rest.len() - 7)
        } else {
            rest
        };
        match arg_index(acc, name) {
            Some(k) => if repeat {
                acc.update(k, ArgView { repeat: true, ..acc[k] })
            } else {
                acc.update(k, ArgView { required: true, ..acc[k] })
            },
            None => if trim_spec(name).len() > 0 {
                acc.push(ArgView { name: trim_spec(name), required: !repeat, repeat })
            } else {
                acc
            },
        }
    }
}

/// Declared flags from a list of distinct template variables.
pub open spec fn args_from_vars(vars: Seq<Seq<char>>) -> Seq<ArgView>
    decreases vars.len(),
{
    if vars.len() == 0 {
        Seq::empty()
    } else {
        arg_step(args_from_vars(vars.drop_last()), vars.last())
    }
}

/// Declared flags of an extension.
pub open spec fn declared_args_spec(d: DefView) -> Seq<ArgView> {
    args_from_vars(dedup(vars_of_all(ext_templates(d))))
}

/// One declared `{arg:name}` / `{arg:name:repeat}` flag.
#[derive(Debug)]
pub struct SkillArg {
    /// Flag name without leading dashes.
    pub name: ArgName,
    /// `true` when the template uses `{arg:name}` (missing is an error).
    pub required: bool,
    /// `true` when the template uses `{arg:name:repeat}`.
    pub repeat: bool,
}

/// Views of a flag list.
pub open spec fn args_view(v: Seq<SkillArg>) -> Seq<ArgView> {
    v.map_values(|a: SkillArg| ArgView { name: a.name@, required: a.required, repeat: a.repeat })
}

fn push_all(out: &mut Vec<String>, items: &Vec<String>)
    ensures
        views(final(out)@) == views(old(out)@) + views(items@),
{
    let ghost before = views(out@);
    let mut j: usize = 0;
    while j < items.len()
        invariant
            j <= items.len(),
            views(out@) == before + views(items@).subrange(0, j as int),
        decreases items.len() - j,
    {
        push_string(out, copy_string(&items[j]));
        assert(views(items@).subrange(0, j + 1) =~= views(items@).subrange(0, j as int).push(
            items@[j as int]@,
        ));
        j = j + 1;
    }
    assert(views(items@).subrange(0, items.len() as int) =~= views(items@));
}

/// Every template of an extension, in declaration order.
pub fn extension_templates(ext: &ExtensionDef) -> (r: Vec<String>)
    ensures
        views(r@) == ext_templates(ext@),
{
    let mut out: Vec<String> = Vec::new();
    assert(views(out@) =~= Seq::<Seq<char>>::empty());
    let ghost d = ext@;
    if let Some(p) = &ext.preexec {
        push_string(&mut out, copy_string(&p.cmd));
        push_all(&mut out, &p.args);
    }
    let ghost mid = views(out@);
    if let Some(e) = &ext.expand {
        if let Some(c) = &e.command {
            let leaves = json_string_leaves(c);
            push_all(&mut out, &leaves);
        }
        if let Some(f) = &e.command_from_file {
            push_string(&mut out, copy_string(f));
        }
        if let Some(h) = &e.host {
            if let Some(u) = &h.ui_root {
                push_string(&mut out, copy_string(u));
            }
        }
    }
    assert(views(out@) =~= ext_templates(d));
    out
}

fn contains_str(v: &Vec<String>, s: &String) -> (r: bool)
    ensures
        r == views(v@).contains(s@),
{
    let mut i: usize = 0;
    while i < v.len()
        invariant
            i <= v.len(),
            forall|k: int| 0 <= k < i ==> #[trigger] views(v@)[k] != s@,
        decreases v.len() - i,
    {
        if str_eq(v[i].as_str(), s.as_str()) {
            assert(views(v@)[i as int] == s@);
            return true;
        }
        i = i + 1;
    }
    false
}

fn find_arg(acc: &Vec<SkillArg>, name: &str) -> (r: Option<usize>)
    ensures
        match r {
            Some(k) => k < acc.len() && arg_index(args_view(acc@), name@) == Some(k as int),
            None => arg_index(args_view(acc@), name@) is None,
        },
{
    let ghost av = args_view(acc@);
    let mut i: usize = 0;
    while i < acc.len()
        invariant
            av == args_view(acc@),
            i <= acc.len(),
            forall|k: int| 0 <= k < i ==> #[trigger] av[k].name != name@,
        decreases acc.len() - i,
    {
        if str_eq(acc[i].name.as_str(), name) {
            proof {
                assert(av[i as int].name == name@);
                let k = choose|k: int|
                    0 <= k < av.len() && #[trigger] av[k].name == name@ && forall|j: int|
                        0 <= j < k ==> #[trigger] av[j].name != name@;
                assert(0 <= k < av.len() && av[k].name == name@ && forall|j: int|
                    0 <= j < k ==> #[trigger] av[j].name != name@);
                if k < i as int {
                    assert(av[k].name != name@);
                }
                if k > i as int {
                    assert(av[i as int].name != name@);
                }
            }
            return Some(i);
        }
        i = i + 1;
    }
    None
}

/// Declared `{arg:*}` flags of an extension, in first-use order. A name used
/// as `{arg:name}` is required; one used as `{arg:name:repeat}` repeats.
pub fn declared_skill_args(ext: &ExtensionDef) -> (r: Vec<SkillArg>)
    ensures
        args_view(r@) == declared_args_spec(ext@),
{
    let templates = extension_templates(ext);
    let ghost ts = views(templates@);
    // All variables, first occurrence only.
    let mut vars: Vec<String> = Vec::new();
    let ghost mut all: Seq<Seq<char>> = Seq::empty();
    let mut t: usize = 0;
    assert(views(vars@) =~= dedup(vars_of_all(ts.subrange(0, 0))));
    while t < templates.len()
        invariant
            ts == views(templates@),
            t <= templates.len(),
            views(vars@) == dedup(vars_of_all(ts.subrange(0, t as int))),
        decreases templates.len() - t,
    {
        let found = collect_template_vars(templates[t].as_str());
        let ghost fv = views(found@);
        let ghost prefix_all = vars_of_all(ts.subrange(0, t as int));
        assert(ts.subrange(0, t + 1).drop_last() =~= ts.subrange(0, t as int));
        assert(ts.subrange(0, t + 1).last() == templates@[t as int]@);
        let mut j: usize = 0;
        while j < found.len()
            invariant
                fv == views(found@),
                j <= found.len(),
                views(vars@) == dedup(prefix_all + fv.subrange(0, j as int)),
            decreases found.len() - j,
        {
            let ghost seq_before = prefix_all + fv.subrange(0, j as int);
            assert((prefix_all + fv.subrange(0, j + 1)).drop_last() =~= seq_before);
            assert((prefix_all + fv.subrange(0, j + 1)).last() == found@[j as int]@);
            if !contains_str(&vars, &found[j]) {
                push_string(&mut vars, copy_string(&found[j]));
            }
            j = j + 1;
        }
        assert(prefix_all + fv.subrange(0, found.len() as int) =~= prefix_all + fv);
        t = t + 1;
    }
    assert(ts.subrange(0, templates.len() as int) =~= ts);
    let ghost vs = views(vars@);
    let mut ordered: Vec<SkillArg> = Vec::new();
    assert(args_view(ordered@) =~= args_from_vars(vs.subrange(0, 0)));
    let mut i: usize = 0;
    while i < vars.len()
        invariant
            vs == views(vars@),
            i <= vars.len(),
            args_view(ordered@) == args_from_vars(vs.subrange(0, i as int)),
        decreases vars.len() - i,
    {
        assert(vs.subrange(0, i + 1).drop_last() =~= vs.subrange(0, i as int));
        assert(vs.subrange(0, i + 1).last() == vars@[i as int]@);
        let var = vars[i].as_str();
        let ghost acc = args_view(ordered@);
        proof {
            reveal_strlit("arg:");
            reveal_strlit(":repeat");
        }
        if str_starts_with(var, "arg:") {
            let cv = chars_of(var);
            let rest = substring(&cv, 4, cv.len());
            let repeat = str_ends_with(rest.as_str(), ":repeat");
            let rc = chars_of(rest.as_str());
            let name = if repeat {
                substring(&rc, 0, rc.len() - 7)
            } else {
                copy_string(&rest)
            };
            match find_arg(&ordered, name.as_str()) {
                Some(k) => {
                    let old_arg = &ordered[k];
                    let updated = SkillArg {
                        name: old_arg.name.copy(),
                        required: if repeat {
                            old_arg.required
                        } else {
                            true
                        },
                        repeat: if repeat {
                            true
                        } else {
                            old_arg.repeat
                        },
                    };
                    let ghost uv = ArgView {
                        name: updated.name@,
                        required: updated.required,
                        repeat: updated.repeat,
                    };
                    ordered.set(k, updated);
                    assert(args_view(ordered@) =~= acc.update(k as int, uv));
                },
                None => {
                    match ArgName::new(name.as_str()) {
                        Some(n) => {
                            let a = SkillArg { name: n, required: !repeat, repeat };
                            let ghost av = ArgView {
                                name: a.name@,
                                required: a.required,
                                repeat: a.repeat,
                            };
                            ordered.push(a);
                            assert(args_view(ordered@) =~= acc.push(av));
                        },
                        None => {},
                    }
                },
            }
        }
        i = i + 1;
    }
    assert(vs.subrange(0, vars.len() as int) =~= vs);
    ordered
}

} // verus!
