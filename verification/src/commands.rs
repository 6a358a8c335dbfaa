//! The `extensions`, `browsers` and `examples` built-in commands: argv
//! decisions, outputs and structured failures.

use vstd::prelude::*;

use crate::catalog::{
    build_skill_record, build_skill_records, card_text, format_skill_card, record_spec,
    CommandFileType, RecordView, SkillRecord,
};
use crate::emit::{emit_extension_error, extension_envelope};
use crate::envelope::{
    envelope_text, envelope_to_json, list3, list4, new_envelope, plain_envelope, EnvelopeView,
    StderrEnvelope,
};
use crate::errors::{
    code_exit, BuiltinDomain, EmitError, ErrorCode, ExtensionError, UsageErrorKind,
};
use crate::ids::ExtensionId;
use crate::loader::ExtensionRegistry;
use crate::matching::RequiresProbe;
use crate::registry::{defs_view, ExtensionDef};
use crate::text::{
    concat2, concat3, copy_string, join_spec, owned, push_str, starts_with, str_eq,
    str_starts_with, trim_spec, views,
};

verus! {

/// Failure of a built-in command.
#[derive(Debug)]
pub enum CommandError {
    /// Bad argv.
    Usage {
        /// Discriminated usage class for structured stderr recovery.
        kind: UsageErrorKind,
        /// Plain-text usage.
        message: String,
    },
    /// Failure already rendered as stderr JSON.
    Stage {
        /// Stderr JSON.
        stderr: String,
        /// Process exit code.
        exit_code: i32,
    },
    /// Emit-boundary serialize failure.
    Emit(EmitError),
}

/// A failure rendered from `e`: the envelope's JSON and its exit code.
pub open spec fn stage_of(e: EnvelopeView, r: CommandError) -> bool {
    match r {
        CommandError::Stage { stderr, exit_code } => stderr@ == envelope_text(e) && exit_code
            == code_exit(e.code),
        _ => false,
    }
}

fn stage(e: &StderrEnvelope) -> (r: CommandError)
    ensures
        stage_of(e@, r),
{
    match envelope_to_json(e) {
        Ok(stderr) => CommandError::Stage { stderr, exit_code: e.code.exit_code() },
        Err(err) => CommandError::Emit(err),
    }
}

/// Whether `token` asks for help.
pub open spec fn is_help(token: Seq<char>) -> bool {
    token == "--help"@ || token == "-h"@
}

fn is_help_exec(token: &str) -> (r: bool)
    ensures
        r == is_help(token@),
{
    str_eq(token, "--help") || str_eq(token, "-h")
}

fn wants_help(args: &[String]) -> (r: bool)
    ensures
        r == exists|k: int| 0 <= k < args@.len() && is_help(#[trigger] views(args@)[k]),
{
    let mut i: usize = 0;
    while i < args.len()
        invariant
            i <= args.len(),
            forall|k: int| 0 <= k < i ==> !is_help(#[trigger] views(args@)[k]),
        decreases args.len() - i,
    {
        if is_help_exec(args[i].as_str()) {
            assert(is_help(views(args@)[i as int]));
            return true;
        }
        i = i + 1;
    }
    false
}

/// Usage text for `wyvern extensions --help`.
pub open spec fn extensions_usage_text() -> Seq<char> {
    "Usage: wyvern extensions [list] [--json]\n       wyvern extensions show <id> [--json]\n       wyvern extensions --help\n\nCommands:\n  list         List shipped and project CLI extensions\n  show <id>    Print one skill (text or --json object)\n\nOptions:\n  --json       Print SkillRecord JSON (array for list, object for show)\n\nWarning: `.wyvern/extensions.json` is trusted preexec; review it before running wyvern.\nSee also: wyvern --help\n"@
}

/// Usage text for `wyvern extensions --help` / `-h`.
pub fn extensions_usage_message() -> (r: String)
    ensures
        r@ == extensions_usage_text(),
{
    owned(
        "Usage: wyvern extensions [list] [--json]\n       wyvern extensions show <id> [--json]\n       wyvern extensions --help\n\nCommands:\n  list         List shipped and project CLI extensions\n  show <id>    Print one skill (text or --json object)\n\nOptions:\n  --json       Print SkillRecord JSON (array for list, object for show)\n\nWarning: `.wyvern/extensions.json` is trusted preexec; review it before running wyvern.\nSee also: wyvern --help\n",
    )
}

/// Envelope of an unknown flag given to `extensions list` / `show`.
pub open spec fn extensions_flag_envelope(flag: Seq<char>) -> EnvelopeView {
    plain_envelope(
        ErrorCode::ValidationError,
        "unknown flag '"@ + flag + "'"@,
        "extensions list/show accept only --json"@,
        seq![
            "Run wyvern extensions list"@,
            "Run wyvern extensions list --json"@,
            "Run wyvern extensions show <id>"@,
            "Run wyvern extensions --help"@,
        ],
        "docs/wyvern/requirements.md (REQ-0132)"@,
    )
}

fn extensions_unknown_flag(flag: &str) -> (r: CommandError)
    ensures
        stage_of(extensions_flag_envelope(flag@), r),
{
    let e = new_envelope(
        ErrorCode::ValidationError,
        concat3("unknown flag '", flag, "'"),
        owned("extensions list/show accept only --json"),
        list4(
            "Run wyvern extensions list",
            "Run wyvern extensions list --json",
            "Run wyvern extensions show <id>",
            "Run wyvern extensions --help",
        ),
        "docs/wyvern/requirements.md (REQ-0132)",
    );
    stage(&e)
}

/// Envelope of `extensions show` with an id that names no extension.
pub open spec fn unknown_id_envelope(id: Seq<char>) -> EnvelopeView {
    plain_envelope(
        ErrorCode::ValidationError,
        "unknown extension id '"@ + id + "'"@,
        "No shipped or project extension has that id"@,
        seq![
            "Run wyvern extensions list"@,
            "Run wyvern extensions list --json"@,
            "Run wyvern extensions --help"@,
        ],
        "docs/wyvern/requirements.md (REQ-0132)"@,
    )
}

fn unknown_id(id: &str) -> (r: CommandError)
    ensures
        stage_of(unknown_id_envelope(id@), r),
{
    let e = new_envelope(
        ErrorCode::ValidationError,
        concat3("unknown extension id '", id, "'"),
        owned("No shipped or project extension has that id"),
        list3(
            "Run wyvern extensions list",
            "Run wyvern extensions list --json",
            "Run wyvern extensions --help",
        ),
        "docs/wyvern/requirements.md (REQ-0132)",
    );
    stage(&e)
}

/// What `wyvern extensions ...` asks for.
#[derive(Debug)]
pub enum ExtensionsAction {
    /// Print the usage text.
    Help,
    /// List every extension (JSON array when `json`).
    List { json: bool },
    /// Show one extension (JSON object when `json`).
    Show { id: ExtensionId, json: bool },
}

/// Mathematical form of an [`ExtensionsAction`], or the failure.
pub enum ExtensionsPlan {
    Help,
    List(bool),
    Show(Seq<char>, bool),
    UnknownFlag(Seq<char>),
    MissingId,
    UnknownSubcommand(Seq<char>),
}

/// Flags of `extensions list`: `--json` only.
pub open spec fn list_flags(args: Seq<Seq<char>>) -> Result<bool, Seq<char>> {
    if exists|k: int| 0 <= k < args.len() && #[trigger] args[k] != "--json"@ {
        Err(
            args[choose|k: int|
                0 <= k < args.len() && #[trigger] args[k] != "--json"@ && forall|j: int|
                    0 <= j < k ==> #[trigger] args[j] == "--json"@],
        )
    } else {
        Ok(args.len() > 0)
    }
}

/// Arguments of `extensions show`, scanned in order: `--json`; any other
/// dash token is an unknown flag; the first plain token is the id (an id
/// that trims to nothing is a missing id); a second plain token is an
/// unknown flag.
pub open spec fn show_args_from(args: Seq<Seq<char>>, i: int, id: Option<Seq<char>>, json: bool) -> ExtensionsPlan
    decreases args.len() - i,
{
    if i < 0 || i >= args.len() {
        match id {
            Some(x) => ExtensionsPlan::Show(x, json),
            None => ExtensionsPlan::MissingId,
        }
    } else {
        let a = args[i];
        if a == "--json"@ {
            show_args_from(args, i + 1, id, true)
        } else if starts_with(a, "-"@) {
            ExtensionsPlan::UnknownFlag(a)
        } else if id is None {
            if trim_spec(a).len() == 0 {
                ExtensionsPlan::MissingId
            } else {
                show_args_from(args, i + 1, Some(trim_spec(a)), json)
            }
        } else {
            ExtensionsPlan::UnknownFlag(a)
        }
    }
}

/// Plan of a list-style invocation (`list` arguments).
pub open spec fn list_plan(args: Seq<Seq<char>>) -> ExtensionsPlan {
    if exists|k: int| 0 <= k < args.len() && is_help(#[trigger] args[k]) {
        ExtensionsPlan::Help
    } else {
        match list_flags(args) {
            Ok(json) => ExtensionsPlan::List(json),
            Err(f) => ExtensionsPlan::UnknownFlag(f),
        }
    }
}

/// Decision of `wyvern extensions ARGS`: help first; no argument, `list`
/// or `--json` lists; `show` shows; a dash token is an unknown flag; any
/// other word is an unknown subcommand.
pub open spec fn extensions_plan(args: Seq<Seq<char>>) -> ExtensionsPlan {
    if args.len() > 0 && is_help(args[0]) {
        ExtensionsPlan::Help
    } else if args.len() == 0 || args[0] == "--json"@ {
        list_plan(args)
    } else if args[0] == "list"@ {
        list_plan(args.drop_first())
    } else if args[0] == "show"@ {
        let rest = args.drop_first();
        if exists|k: int| 0 <= k < rest.len() && is_help(#[trigger] rest[k]) {
            ExtensionsPlan::Help
        } else {
            show_args_from(rest, 0, None, false)
        }
    } else if starts_with(args[0], "-"@) {
        ExtensionsPlan::UnknownFlag(args[0])
    } else {
        ExtensionsPlan::UnknownSubcommand(args[0])
    }
}

fn list_flags_exec(args: &[String]) -> (r: Result<bool, String>)
    ensures
        match r {
            Ok(j) => list_flags(views(args@)) == Ok::<bool, Seq<char>>(j),
            Err(f) => list_flags(views(args@)) == Err::<bool, Seq<char>>(f@),
        },
{
    let ghost av = views(args@);
    let mut i: usize = 0;
    while i < args.len()
        invariant
            av == views(args@),
            i <= args.len(),
            forall|k: int| 0 <= k < i ==> #[trigger] av[k] == "--json"@,
        decreases args.len() - i,
    {
        if !str_eq(args[i].as_str(), "--json") {
            proof {
                let c = choose|c: int|
                    0 <= c < av.len() && #[trigger] av[c] != "--json"@ && forall|j: int|
                        0 <= j < c ==> #[trigger] av[j] == "--json"@;
                assert(av[i as int] != "--json"@);
                assert(0 <= c < av.len() && av[c] != "--json"@ && forall|j: int|
                    0 <= j < c ==> #[trigger] av[j] == "--json"@);
                if c < i as int {
                    assert(av[c] == "--json"@);
                }
                if c > i as int {
                    assert(av[i as int] == "--json"@);
                }
            }
            return Err(copy_string(&args[i]));
        }
        i = i + 1;
    }
    Ok(args.len() > 0)
}

/// The plan as an action, or the failure it reports.
pub open spec fn plan_outcome(p: ExtensionsPlan, r: Result<ExtensionsAction, CommandError>) -> bool {
    match p {
        ExtensionsPlan::Help => r matches Ok(ExtensionsAction::Help),
        ExtensionsPlan::List(j) => r matches Ok(ExtensionsAction::List { json }) && json == j,
        ExtensionsPlan::Show(x, j) => r matches Ok(ExtensionsAction::Show { id, json }) && id@ == x
            && json == j,
        ExtensionsPlan::UnknownFlag(f) => r matches Err(e) && stage_of(
            extensions_flag_envelope(f),
            e,
        ),
        ExtensionsPlan::MissingId => r matches Err(CommandError::Usage { kind, message }) && kind
            == UsageErrorKind::MissingExtensionId && message@ == "extensions show requires an extension id\n"@
            + extensions_usage_text(),
        ExtensionsPlan::UnknownSubcommand(t) => r matches Err(CommandError::Usage { kind, message })
            && kind == (UsageErrorKind::UnknownSubcommand {
            domain: BuiltinDomain::Extensions,
            token: kind->UnknownSubcommand_token,
        }) && kind->UnknownSubcommand_token@ == t && message@ == "unknown extensions subcommand '"@
            + t + "'\n"@ + extensions_usage_text(),
    }
}

fn missing_id() -> (r: CommandError)
    ensures
        r matches CommandError::Usage { kind, message } && kind == UsageErrorKind::MissingExtensionId
            && message@ == "extensions show requires an extension id\n"@ + extensions_usage_text(),
{
    let u = extensions_usage_message();
    CommandError::Usage {
        kind: UsageErrorKind::MissingExtensionId,
        message: concat2("extensions show requires an extension id\n", u.as_str()),
    }
}

fn plan_list(args: &[String]) -> (r: Result<ExtensionsAction, CommandError>)
    ensures
        plan_outcome(list_plan(views(args@)), r),
{
    if wants_help(args) {
        return Ok(ExtensionsAction::Help);
    }
    match list_flags_exec(args) {
        Ok(json) => Ok(ExtensionsAction::List { json }),
        Err(f) => Err(extensions_unknown_flag(f.as_str())),
    }
}

#[verifier::loop_isolation(false)]
fn plan_show(args: &[String]) -> (r: Result<ExtensionsAction, CommandError>)
    ensures
        (exists|k: int| 0 <= k < args@.len() && is_help(#[trigger] views(args@)[k])) ==> r matches Ok(
            ExtensionsAction::Help,
        ),
        !(exists|k: int| 0 <= k < args@.len() && is_help(#[trigger] views(args@)[k]))
            ==> plan_outcome(show_args_from(views(args@), 0, None, false), r),
{
    proof {
        reveal_strlit("-");
    }
    if wants_help(args) {
        return Ok(ExtensionsAction::Help);
    }
    let ghost av = views(args@);
    let mut json = false;
    let mut id: Option<ExtensionId> = None;
    let mut i: usize = 0;
    while i < args.len()
        invariant
            av == views(args@),
            i <= args.len(),
            show_args_from(av, 0, None, false) == show_args_from(
                av,
                i as int,
                match id {
                    Some(x) => Some(x@),
                    None => None,
                },
                json,
            ),
        decreases args.len() - i,
    {
        let a = args[i].as_str();
        assert(av[i as int] == a@);
        if str_eq(a, "--json") {
            json = true;
        } else if str_starts_with(a, "-") {
            return Err(extensions_unknown_flag(a));
        } else if id.is_none() {
            match ExtensionId::try_from(owned(a)) {
                Ok(x) => {
                    id = Some(x);
                },
                Err(_) => {
                    return Err(missing_id());
                },
            }
        } else {
            return Err(extensions_unknown_flag(a));
        }
        i = i + 1;
    }
    match id {
        Some(x) => Ok(ExtensionsAction::Show { id: x, json }),
        None => Err(missing_id()),
    }
}

/// Decide what `wyvern extensions ARGS` asks for.
pub fn plan_extensions_command(args: &[String]) -> (r: Result<ExtensionsAction, CommandError>)
    ensures
        plan_outcome(extensions_plan(views(args@)), r),
{
    proof {
        reveal_strlit("-");
    }
    let ghost av = views(args@);
    if args.len() > 0 && is_help_exec(args[0].as_str()) {
        return Ok(ExtensionsAction::Help);
    }
    if args.len() == 0 {
        return plan_list(args);
    }
    let first = args[0].as_str();
    let (_, rest) = args.split_at(1);
    assert(views(rest@) =~= av.drop_first());
    if str_eq(first, "--json") {
        plan_list(args)
    } else if str_eq(first, "list") {
        plan_list(rest)
    } else if str_eq(first, "show") {
        plan_show(rest)
    } else if str_starts_with(first, "-") {
        Err(extensions_unknown_flag(first))
    } else {
        let u = extensions_usage_message();
        let mut message = concat3("unknown extensions subcommand '", first, "'\n");
        push_str(&mut message, u.as_str());
        Err(
            CommandError::Usage {
                kind: UsageErrorKind::UnknownSubcommand {
                    domain: BuiltinDomain::Extensions,
                    token: owned(first),
                },
                message,
            },
        )
    }
}

/// Output of a built-in command: text, or records for JSON rendering.
#[derive(Debug)]
pub enum ExtensionsOutput {
    /// Text to print.
    Text(String),
    /// Records to print as a JSON array.
    Records(Vec<SkillRecord>),
    /// One record to print as a JSON object.
    Record(SkillRecord),
}

/// Cards of every record, separated by a blank line.
pub open spec fn cards_text(rs: Seq<RecordView>) -> Seq<char> {
    join_spec(rs.map_values(|r: RecordView| card_text(r)), "\n"@)
}

/// Format each record as a card, joined by newlines.
pub fn format_skill_cards(records: &Vec<SkillRecord>) -> (r: String)
    ensures
        r@ == cards_text(records@.map_values(|s: SkillRecord| s@)),
{
    let ghost rv = records@.map_values(|s: SkillRecord| s@);
    let mut cards: Vec<String> = Vec::new();
    let mut i: usize = 0;
    while i < records.len()
        invariant
            rv == records@.map_values(|s: SkillRecord| s@),
            i <= records.len(),
            views(cards@) == rv.subrange(0, i as int).map_values(|r: RecordView| card_text(r)),
        decreases records.len() - i,
    {
        crate::envelope::push_string(&mut cards, format_skill_card(&records[i]));
        assert(rv.subrange(0, i + 1).map_values(|r: RecordView| card_text(r)) =~= rv.subrange(
            0,
            i as int,
        ).map_values(|r: RecordView| card_text(r)).push(card_text(records@[i as int]@)));
        i = i + 1;
    }
    assert(rv.subrange(0, records.len() as int) =~= rv);
    crate::text::join(&cards, "\n")
}

/// Format every extension of a registry as cards.
pub fn format_extensions_list<P: RequiresProbe>(
    registry: &ExtensionRegistry,
    probe: &P,
    files: &Vec<CommandFileType>,
) -> (r: String)
    requires
        files@.len() == registry@.len(),
    ensures
        r@ == cards_text(
            Seq::new(
                registry@.len(),
                |i: int| record_spec(registry.spec_entries()[i], *probe, files@[i]),
            ),
        ),
{
    let records = build_skill_records(registry, probe, files);
    let r = format_skill_cards(&records);
    assert(records@.map_values(|s: SkillRecord| s@) =~= Seq::new(
        registry@.len(),
        |i: int| record_spec(registry.spec_entries()[i], *probe, files@[i]),
    ));
    r
}

/// Run `wyvern extensions ARGS` against the loaded registry: `loaded` is
/// the registry load result (used only when listing or showing), `probe`
/// finds required binaries and `files[i]` is what reading the static
/// command file of the `i`-th extension gave.
#[verifier::loop_isolation(false)]
pub fn run_extensions_command<P: RequiresProbe>(
    args: &[String],
    loaded: &Result<ExtensionRegistry, ExtensionError>,
    probe: &P,
    files: &Vec<CommandFileType>,
) -> (r: Result<ExtensionsOutput, CommandError>)
    requires
        loaded matches Ok(reg) ==> files@.len() == reg@.len(),
    ensures
        match extensions_plan(views(args@)) {
            ExtensionsPlan::Help => r matches Ok(ExtensionsOutput::Text(t)) && t@
                == extensions_usage_text(),
            ExtensionsPlan::List(json) => match loaded {
                Err(e) => r matches Err(err) && stage_of(extension_envelope(*e), err),
                Ok(reg) => {
                    let recs = Seq::new(
                        reg@.len(),
                        |i: int| record_spec(reg.spec_entries()[i], *probe, files@[i]),
                    );
                    if json {
                        r matches Ok(ExtensionsOutput::Records(v)) && v@.map_values(
                            |s: SkillRecord| s@,
                        ) == recs
                    } else {
                        r matches Ok(ExtensionsOutput::Text(t)) && t@ == cards_text(recs)
                    }
                },
            },
            ExtensionsPlan::Show(x, json) => match loaded {
                Err(e) => r matches Err(err) && stage_of(extension_envelope(*e), err),
                Ok(reg) => match crate::extends::index_of_id(reg@, x) {
                    None => r matches Err(err) && stage_of(unknown_id_envelope(x), err),
                    Some(k) => {
                        let rec = record_spec(reg.spec_entries()[k], *probe, files@[k]);
                        if json {
                            r matches Ok(ExtensionsOutput::Record(v)) && v@ == rec
                        } else {
                            r matches Ok(ExtensionsOutput::Text(t)) && t@ == card_text(rec)
                        }
                    },
                },
            },
            _ => plan_outcome(
                extensions_plan(views(args@)),
                match r {
                    Ok(_) => Ok(ExtensionsAction::Help),
                    Err(e) => Err(e),
                },
            ) && r is Err,
        },
{
    let action = plan_extensions_command(args);
    match action {
        Err(e) => Err(e),
        Ok(ExtensionsAction::Help) => Ok(ExtensionsOutput::Text(extensions_usage_message())),
        Ok(ExtensionsAction::List { json }) => {
            let reg = match loaded {
                Ok(reg) => reg,
                Err(e) => {
                    return Err(load_failure(e));
                },
            };
            let records = build_skill_records(reg, probe, files);
            assert(records@.map_values(|s: SkillRecord| s@) =~= Seq::new(
                reg@.len(),
                |i: int| record_spec(reg.spec_entries()[i], *probe, files@[i]),
            ));
            if json {
                Ok(ExtensionsOutput::Records(records))
            } else {
                Ok(ExtensionsOutput::Text(format_skill_cards(&records)))
            }
        },
        Ok(ExtensionsAction::Show { id, json }) => {
            let reg = match loaded {
                Ok(reg) => reg,
                Err(e) => {
                    return Err(load_failure(e));
                },
            };
            let exts = reg.extensions();
            proof {
                reg.lemma_view_entries();
                crate::extends::lemma_index_of_id(reg@, id@);
            }
            let mut k: usize = 0;
            while k < exts.len()
                invariant
                    defs_view(exts@) == reg@,
                    exts@ == reg.spec_entries(),
                    files@.len() == reg@.len(),
                    k <= exts.len(),
                    forall|j: int| 0 <= j < k ==> #[trigger] reg@[j].id != id@,
                decreases exts.len() - k,
            {
                assert(reg@[k as int] == exts@[k as int]@);
                if exts[k].id.same(&id) {
                    proof {
                        crate::extends::lemma_index_of_id(reg@, id@);
                        assert(reg@[k as int].id == exts@[k as int]@.id);
                        assert(reg@[k as int].id == id@);
                        if let Some(m) = crate::extends::index_of_id(reg@, id@) {
                            if m < k as int {
                                assert(reg@[m].id != id@);
                            }
                            if m > k as int {
                                assert(reg@[k as int].id == id@);
                            }
                        }
                    }
                    let record = build_skill_record(&exts[k], probe, &files[k]);
                    assert(crate::extends::index_of_id(reg@, id@) == Some(k as int));
                    assert(record@ == record_spec(reg.spec_entries()[k as int], *probe, files@[k as int]));
                    assert(extensions_plan(views(args@)) == ExtensionsPlan::Show(id@, json));
                    return if json {
                        Ok(ExtensionsOutput::Record(record))
                    } else {
                        Ok(ExtensionsOutput::Text(format_skill_card(&record)))
                    };
                }
                k = k + 1;
            }
            Err(unknown_id(id.as_str()))
        },
    }
}

/// A registry load failure rendered for a built-in command.
fn load_failure(e: &ExtensionError) -> (r: CommandError)
    ensures
        stage_of(extension_envelope(*e), r),
{
    match emit_extension_error(e) {
        Ok(stderr) => {
            proof {
                crate::emit::lemma_extension_exit(*e);
            }
            CommandError::Stage { stderr, exit_code: e.exit_code() }
        },
        Err(err) => CommandError::Emit(err),
    }
}

/// Failure of `wyvern extensions`.
pub type ExtensionsCmdError = CommandError;

/// Failure of `wyvern browsers`.
pub type BrowsersError = CommandError;

/// Failure of `wyvern examples`.
pub type ExamplesCmdError = CommandError;

/// Usage text for `wyvern browsers --help`.
pub open spec fn browsers_usage_text() -> Seq<char> {
    "Usage: wyvern browsers list|refresh\n       wyvern browsers --help\n\nCommands:\n  list      List browsers in the local registry\n  refresh   Rebuild the local browser registry\n\nSee also: wyvern --help\n"@
}

/// Usage text for `wyvern browsers --help` / `-h`.
pub fn browsers_usage_message() -> (r: String)
    ensures
        r@ == browsers_usage_text(),
{
    owned(
        "Usage: wyvern browsers list|refresh\n       wyvern browsers --help\n\nCommands:\n  list      List browsers in the local registry\n  refresh   Rebuild the local browser registry\n\nSee also: wyvern --help\n",
    )
}

/// What `wyvern browsers ...` asks for.
#[derive(Debug, PartialEq, Eq)]
pub enum BrowsersAction {
    /// Print the usage text.
    Help,
    /// List the registry.
    List,
    /// Rebuild the registry.
    Refresh,
}

/// Decide what `wyvern browsers ARGS` asks for: help first, then `list`
/// (also the default) or `refresh`; any other word is an unknown subcommand.
pub fn run_browsers_command(args: &[String]) -> (r: Result<BrowsersAction, CommandError>)
    ensures
        ({
            let a = views(args@);
            if a.len() > 0 && is_help(a[0]) {
                r == Ok::<BrowsersAction, CommandError>(BrowsersAction::Help)
            } else if a.len() == 0 || a[0] == "list"@ {
                r == Ok::<BrowsersAction, CommandError>(BrowsersAction::List)
            } else if a[0] == "refresh"@ {
                r == Ok::<BrowsersAction, CommandError>(BrowsersAction::Refresh)
            } else {
                r matches Err(CommandError::Usage { kind, message }) && kind == (
                UsageErrorKind::UnknownSubcommand {
                    domain: BuiltinDomain::Browsers,
                    token: kind->UnknownSubcommand_token,
                }) && kind->UnknownSubcommand_token@ == a[0] && message@
                    == "unknown browsers subcommand '"@ + a[0] + "'\n"@ + browsers_usage_text()
            }
        }),
{
    if args.len() > 0 && is_help_exec(args[0].as_str()) {
        return Ok(BrowsersAction::Help);
    }
    if args.len() == 0 {
        return Ok(BrowsersAction::List);
    }
    let sub = args[0].as_str();
    if str_eq(sub, "list") {
        Ok(BrowsersAction::List)
    } else if str_eq(sub, "refresh") {
        Ok(BrowsersAction::Refresh)
    } else {
        let u = browsers_usage_message();
        let mut message = concat3("unknown browsers subcommand '", sub, "'\n");
        push_str(&mut message, u.as_str());
        Err(
            CommandError::Usage {
                kind: UsageErrorKind::UnknownSubcommand {
                    domain: BuiltinDomain::Browsers,
                    token: owned(sub),
                },
                message,
            },
        )
    }
}

/// One browser of the local registry.
#[derive(Debug)]
pub struct BrowserEntry {
    /// Short id.
    pub id: String,
    /// Display name.
    pub name: String,
    /// Executable path.
    pub executable: String,
}

/// `s` padded on the right with spaces to `width` characters.
pub open spec fn pad_right(s: Seq<char>, width: nat) -> Seq<char> {
    if s.len() >= width {
        s
    } else {
        s + Seq::new((width - s.len()) as nat, |i: int| ' ')
    }
}

fn pad(out: &mut String, s: &str, width: usize)
    ensures
        final(out)@ == old(out)@ + pad_right(s@, width as nat),
{
    let ghost o = out@;
    push_str(out, s);
    let n = crate::text::chars_of(s).len();
    let mut k = n;
    while k < width
        invariant
            n == s@.len(),
            n <= k <= width || (n > width && k == n),
            out@ == o + s@ + Seq::new((k - n) as nat, |i: int| ' '),
        decreases width - k,
    {
        crate::text::push_char(out, ' ');
        k = k + 1;
        assert(out@ =~= o + s@ + Seq::new((k - n) as nat, |i: int| ' '));
    }
    if n >= width {
        assert(out@ =~= o + s@);
    } else {
        assert(out@ =~= o + pad_right(s@, width as nat));
    }
}

/// Text of a browser listing.
pub open spec fn entries_text(es: Seq<(Seq<char>, Seq<char>, Seq<char>)>) -> Seq<char>
    decreases es.len(),
{
    if es.len() == 0 {
        Seq::empty()
    } else {
        entries_text(es.drop_last()) + pad_right(es.last().0, 10) + "  "@ + pad_right(
            es.last().1,
            20,
        ) + "  "@ + es.last().2 + "\n"@
    }
}

/// Views of browser entries.
pub open spec fn entries_view(es: Seq<BrowserEntry>) -> Seq<(Seq<char>, Seq<char>, Seq<char>)> {
    es.map_values(|e: BrowserEntry| (e.id@, e.name@, e.executable@))
}

/// Browser listing: one padded line per entry, or a hint when empty.
pub fn format_entries(entries: &Vec<BrowserEntry>) -> (r: String)
    ensures
        entries@.len() == 0 ==> r@ == "No browsers found in registry.\nRun: wyvern browsers refresh"@,
        entries@.len() > 0 ==> r@ == entries_text(entries_view(entries@)),
{
    if entries.len() == 0 {
        return owned("No browsers found in registry.\nRun: wyvern browsers refresh");
    }
    let ghost ev = entries_view(entries@);
    let mut out = String::new();
    let mut i: usize = 0;
    while i < entries.len()
        invariant
            ev == entries_view(entries@),
            i <= entries.len(),
            out@ == entries_text(ev.subrange(0, i as int)),
        decreases entries.len() - i,
    {
        assert(ev.subrange(0, i + 1).drop_last() =~= ev.subrange(0, i as int));
        let e = &entries[i];
        pad(&mut out, e.id.as_str(), 10);
        push_str(&mut out, "  ");
        pad(&mut out, e.name.as_str(), 20);
        push_str(&mut out, "  ");
        push_str(&mut out, e.executable.as_str());
        push_str(&mut out, "\n");
        i = i + 1;
        assert(out@ =~= entries_text(ev.subrange(0, i as int)));
    }
    assert(ev.subrange(0, entries.len() as int) =~= ev);
    out
}

/// Output of `browsers refresh`.
pub fn format_refresh(path: &str, entries: &Vec<BrowserEntry>) -> (r: String)
    ensures
        r@ == "Refreshed "@ + path@ + " ("@ + crate::text::decimal(entries@.len()) + " entries)\n"@
            + (if entries@.len() == 0 {
            "No browsers found in registry.\nRun: wyvern browsers refresh"@
        } else {
            entries_text(entries_view(entries@))
        }),
{
    let mut out = concat3("Refreshed ", path, " (");
    crate::text::push_decimal(&mut out, entries.len() as u64);
    push_str(&mut out, " entries)\n");
    let body = format_entries(entries);
    push_str(&mut out, body.as_str());
    out
}

/// One bundled example.
#[derive(Debug)]
pub struct ExampleRecord {
    /// Display name from frontmatter.
    pub name: String,
    /// Short description from frontmatter.
    pub description: String,
    /// Path to the README, relative to `{wyvern_share}` when possible.
    pub readme: String,
}

/// Text block of one example.
pub open spec fn example_text(e: (Seq<char>, Seq<char>, Seq<char>)) -> Seq<char> {
    e.0 + "\n"@ + e.1 + "\nREADME: "@ + e.2
}

/// Views of example records.
pub open spec fn examples_view(es: Seq<ExampleRecord>) -> Seq<(Seq<char>, Seq<char>, Seq<char>)> {
    es.map_values(|e: ExampleRecord| (e.name@, e.description@, e.readme@))
}

/// Example records as text blocks separated by newlines (empty for none).
pub fn format_examples_list(records: &Vec<ExampleRecord>) -> (r: String)
    ensures
        r@ == join_spec(
            examples_view(records@).map_values(
                |e: (Seq<char>, Seq<char>, Seq<char>)| example_text(e),
            ),
            "\n"@,
        ),
{
    let ghost ev = examples_view(records@);
    let mut blocks: Vec<String> = Vec::new();
    let mut i: usize = 0;
    while i < records.len()
        invariant
            ev == examples_view(records@),
            i <= records.len(),
            views(blocks@) == ev.subrange(0, i as int).map_values(
                |e: (Seq<char>, Seq<char>, Seq<char>)| example_text(e),
            ),
        decreases records.len() - i,
    {
        let r = &records[i];
        let mut t = concat3(r.name.as_str(), "\n", r.description.as_str());
        push_str(&mut t, "\nREADME: ");
        push_str(&mut t, r.readme.as_str());
        crate::envelope::push_string(&mut blocks, t);
        assert(ev.subrange(0, i + 1).map_values(
            |e: (Seq<char>, Seq<char>, Seq<char>)| example_text(e),
        ) =~= ev.subrange(0, i as int).map_values(
            |e: (Seq<char>, Seq<char>, Seq<char>)| example_text(e),
        ).push(example_text(ev[i as int])));
        i = i + 1;
    }
    assert(ev.subrange(0, records.len() as int) =~= ev);
    crate::text::join(&blocks, "\n")
}

/// Usage text for `wyvern examples --help`.
pub open spec fn examples_usage_text() -> Seq<char> {
    "Usage: wyvern examples [list] [--json]\n       wyvern examples --help\n\nCommands:\n  list         List bundled examples discovered from README frontmatter\n\nOptions:\n  --json       Print ExampleRecord JSON array\n\nEach example README under {wyvern_share}/examples/ must begin with:\n  ---\n  name: Example title\n  description: One-line summary\n  ---\n\nSee also: wyvern guide, wyvern --help\n"@
}

/// Usage text for `wyvern examples --help` / `-h`.
pub fn examples_usage_message() -> (r: String)
    ensures
        r@ == examples_usage_text(),
{
    owned(
        "Usage: wyvern examples [list] [--json]\n       wyvern examples --help\n\nCommands:\n  list         List bundled examples discovered from README frontmatter\n\nOptions:\n  --json       Print ExampleRecord JSON array\n\nEach example README under {wyvern_share}/examples/ must begin with:\n  ---\n  name: Example title\n  description: One-line summary\n  ---\n\nSee also: wyvern guide, wyvern --help\n",
    )
}

/// Envelope of an unknown flag given to `examples list`.
pub open spec fn examples_flag_envelope(flag: Seq<char>) -> EnvelopeView {
    plain_envelope(
        ErrorCode::ValidationError,
        "unknown flag '"@ + flag + "'"@,
        "examples list accepts only --json"@,
        seq![
            "Run wyvern examples list"@,
            "Run wyvern examples list --json"@,
            "Run wyvern examples --help"@,
        ],
        "docs/wyvern/requirements.md"@,
    )
}

fn examples_unknown_flag(flag: &str) -> (r: CommandError)
    ensures
        stage_of(examples_flag_envelope(flag@), r),
{
    let e = new_envelope(
        ErrorCode::ValidationError,
        concat3("unknown flag '", flag, "'"),
        owned("examples list accepts only --json"),
        list3("Run wyvern examples list", "Run wyvern examples list --json", "Run wyvern examples --help"),
        "docs/wyvern/requirements.md",
    );
    stage(&e)
}

/// Envelope of a failed example scan with `message`.
pub open spec fn discover_envelope(message: Seq<char>) -> EnvelopeView {
    plain_envelope(
        ErrorCode::ValidationError,
        message,
        "Could not scan bundled example README files"@,
        seq![
            "Run wyvern examples list"@,
            "Ensure {wyvern_share}/examples exists and README files are readable"@,
        ],
        "docs/wyvern/requirements.md"@,
    )
}

fn map_discover(message: &str) -> (r: CommandError)
    ensures
        stage_of(discover_envelope(message@), r),
{
    let e = new_envelope(
        ErrorCode::ValidationError,
        owned(message),
        owned("Could not scan bundled example README files"),
        crate::envelope::list2(
            "Run wyvern examples list",
            "Ensure {wyvern_share}/examples exists and README files are readable",
        ),
        "docs/wyvern/requirements.md",
    );
    stage(&e)
}

/// Output of `wyvern examples`.
#[derive(Debug)]
pub enum ExamplesOutput {
    /// Text to print.
    Text(String),
    /// Records to print as a JSON array.
    Records(Vec<ExampleRecord>),
}

fn copy_examples(v: &Vec<ExampleRecord>) -> (r: Vec<ExampleRecord>)
    ensures
        examples_view(r@) == examples_view(v@),
{
    let mut out: Vec<ExampleRecord> = Vec::new();
    let mut i: usize = 0;
    while i < v.len()
        invariant
            i <= v.len(),
            examples_view(out@) == examples_view(v@).subrange(0, i as int),
        decreases v.len() - i,
    {
        let e = ExampleRecord {
            name: copy_string(&v[i].name),
            description: copy_string(&v[i].description),
            readme: copy_string(&v[i].readme),
        };
        let ghost before = examples_view(out@);
        let ghost item = (e.name@, e.description@, e.readme@);
        assert(item == examples_view(v@)[i as int]);
        out.push(e);
        assert(examples_view(out@) =~= before.push(item));
        assert(examples_view(v@).subrange(0, i + 1) =~= examples_view(v@).subrange(0, i as int).push(
            item,
        ));
        i = i + 1;
    }
    assert(examples_view(v@).subrange(0, v.len() as int) =~= examples_view(v@));
    out
}

/// Decision of `wyvern examples ARGS` as a list plan: `Ok(Some(json))` to
/// list, `Ok(None)` for help, `Err` for an unknown flag.
pub open spec fn examples_list_plan(args: Seq<Seq<char>>) -> Result<Option<bool>, Seq<char>> {
    if exists|k: int| 0 <= k < args.len() && is_help(#[trigger] args[k]) {
        Ok(None)
    } else {
        match list_flags(args) {
            Ok(j) => Ok(Some(j)),
            Err(f) => Err(f),
        }
    }
}

/// Run `wyvern examples ARGS`, with `discovered` the scan of the bundled
/// examples (its error message when the scan failed).
pub fn run_examples_command(
    args: &[String],
    discovered: &Result<Vec<ExampleRecord>, String>,
) -> (r: Result<ExamplesOutput, CommandError>)
    ensures
        ({
            let a = views(args@);
            if a.len() > 0 && is_help(a[0]) {
                r matches Ok(ExamplesOutput::Text(t)) && t@ == examples_usage_text()
            } else if a.len() == 0 || a[0] == "list"@ || a[0] == "--json"@ {
                let rest = if a.len() > 0 && a[0] == "list"@ {
                    a.drop_first()
                } else {
                    a
                };
                match examples_list_plan(rest) {
                    Ok(None) => r matches Ok(ExamplesOutput::Text(t)) && t@ == examples_usage_text(),
                    Err(f) => r matches Err(e) && stage_of(examples_flag_envelope(f), e),
                    Ok(Some(json)) => match discovered {
                        Err(m) => r matches Err(e) && stage_of(discover_envelope(m@), e),
                        Ok(recs) => if json {
                            r matches Ok(ExamplesOutput::Records(v)) && examples_view(v@)
                                == examples_view(recs@)
                        } else {
                            r matches Ok(ExamplesOutput::Text(t)) && t@ == join_spec(
                                examples_view(recs@).map_values(
                                    |e: (Seq<char>, Seq<char>, Seq<char>)| example_text(e),
                                ),
                                "\n"@,
                            )
                        },
                    },
                }
            } else if starts_with(a[0], "-"@) {
                r matches Err(e) && stage_of(examples_flag_envelope(a[0]), e)
            } else {
                r matches Err(CommandError::Usage { kind, message }) && kind == (
                UsageErrorKind::UnknownSubcommand {
                    domain: BuiltinDomain::Examples,
                    token: kind->UnknownSubcommand_token,
                }) && kind->UnknownSubcommand_token@ == a[0] && message@
                    == "unknown examples subcommand '"@ + a[0] + "'\n"@ + examples_usage_text()
            }
        }),
{
    proof {
        reveal_strlit("-");
    }
    let ghost av = views(args@);
    if args.len() > 0 && is_help_exec(args[0].as_str()) {
        return Ok(ExamplesOutput::Text(examples_usage_message()));
    }
    let list_args: &[String] = if args.len() > 0 && str_eq(args[0].as_str(), "list") {
        let (_, rest) = args.split_at(1);
        assert(views(rest@) =~= av.drop_first());
        rest
    } else if args.len() == 0 || str_eq(args[0].as_str(), "--json") {
        args
    } else {
        let first = args[0].as_str();
        if str_starts_with(first, "-") {
            return Err(examples_unknown_flag(first));
        }
        let u = examples_usage_message();
        let mut message = concat3("unknown examples subcommand '", first, "'\n");
        push_str(&mut message, u.as_str());
        return Err(
            CommandError::Usage {
                kind: UsageErrorKind::UnknownSubcommand {
                    domain: BuiltinDomain::Examples,
                    token: owned(first),
                },
                message,
            },
        );
    };
    if wants_help(list_args) {
        return Ok(ExamplesOutput::Text(examples_usage_message()));
    }
    let json = match list_flags_exec(list_args) {
        Ok(j) => j,
        Err(f) => {
            return Err(examples_unknown_flag(f.as_str()));
        },
    };
    match discovered {
        Err(m) => Err(map_discover(m.as_str())),
        Ok(records) => if json {
            Ok(ExamplesOutput::Records(copy_examples(records)))
        } else {
            Ok(ExamplesOutput::Text(format_examples_list(records)))
        },
    }
}

} // verus!
